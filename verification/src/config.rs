//! The configuration of a search and its validation.

use vstd::prelude::*;
use vstd::string::*;

verus! {

/// The longest run of trailing zeros that can be asked for: the length of a digest.
pub const MAX_ZEROS: usize = 64;

/// What a search looks for and how much of it.
#[derive(Debug, Clone, Copy, PartialEq, Eq, Structural)]
pub struct Args {
    /// How many characters `'0'` a digest must end in, at most 64.
    pub zeros_amount: usize,
    /// How many matches to report, at least 1.
    pub results_count: usize,
}

impl Args {
    /// A configuration that a search accepts.
    pub open spec fn valid(self) -> bool {
        self.zeros_amount <= MAX_ZEROS && self.results_count >= 1
    }

    /// Why a configuration is refused, if it is. The zero count is looked at first.
    pub open spec fn refusal(self) -> Option<Seq<char>> {
        if self.zeros_amount > MAX_ZEROS {
            Some("Number of zeros cannot exceed 64"@)
        } else if self.results_count == 0 {
            Some("Results count must be at least 1"@)
        } else {
            None
        }
    }
}

/// Accepts a configuration whose zero count is at most 64 and whose result
/// count is at least 1, and says of any other what is wrong with it.
pub fn validate_args(args: &Args) -> (result: Result<(), String>)
    ensures
        result is Ok <==> args.valid(),
        match result {
            Ok(_) => args.refusal() is None,
            Err(message) => args.refusal() == Some(message@),
        },
{
    if args.zeros_amount > MAX_ZEROS {
        return Err(String::from_str("Number of zeros cannot exceed 64"));
    }
    if args.results_count == 0 {
        return Err(String::from_str("Results count must be at least 1"));
    }
    Ok(())
}

/// More than 64 zeros are refused whatever the result count, no results are
/// refused whatever the zero count, and everything else is accepted.
pub proof fn lemma_validation_cases(args: Args)
    ensures
        args.zeros_amount > 64 ==> !args.valid(),
        args.results_count == 0 ==> !args.valid(),
        args.zeros_amount <= 64 && args.results_count >= 1 ==> args.valid(),
        args.valid() <==> args.refusal() is None,
{
}

} // verus!
