//! The digest evaluator: SHA-256 of a candidate's decimal text, written in
//! hexadecimal, and the trailing-zero test on such a digest.

use crate::encoding::{
    ascii_bytes, decimal_string, decimal_text, hex_encode, hex_text, is_lower_hex,
    lemma_decimal_text_digits,
};
use sha2::{Digest, Sha256};
use vstd::prelude::*;
use vstd::string::*;

verus! {

broadcast use vstd::string::is_ascii_spec_bytes;

/// The byte that writes the character `'0'`.
const ASCII_ZERO: u8 = 48;

/// The SHA-256 hash of `data`: the 32 bytes that `sha2` computes for it.
pub uninterp spec fn sha256(data: Seq<u8>) -> Seq<u8>;

/// The digest of a candidate: the hexadecimal text of the SHA-256 hash of its
/// decimal text.
pub open spec fn digest_text(candidate: nat) -> Seq<char> {
    hex_text(sha256(ascii_bytes(decimal_text(candidate))))
}

/// Whether `text` ends in at least `zeros` characters `'0'`: its last `zeros`
/// characters exist and are all `'0'`.
pub open spec fn ends_with_zeros(text: Seq<char>, zeros: nat) -> bool {
    &&& zeros <= text.len()
    &&& forall|i: int| text.len() - zeros <= i < text.len() ==> text[i] == '0'
}

/// Calls `sha2::Sha256::digest`, the one-shot form of the `Digest` trait, and
/// turns the array it returns into `[u8; 32]`. Trusted: the result is the
/// SHA-256 hash of `data`, a function of the bytes alone.
#[verifier::external_body]
fn sha256_digest(data: &[u8]) -> (hash: [u8; 32])
    ensures
        hash@ == sha256(data@),
{
    Sha256::digest(data).into()
}

/// Computes the digest of `number`: 64 lowercase hexadecimal digits.
pub fn calculate_hash(number: u64) -> (hash: String)
    ensures
        hash@ == digest_text(number as nat),
        hash@.len() == 64,
        forall|i: int| 0 <= i < 64 ==> is_lower_hex(#[trigger] hash@[i]),
{
    let decimal = decimal_string(number);
    let text = decimal.as_str();
    proof {
        lemma_decimal_text_digits(number as nat);
        assert(is_ascii(text));
        assert(text.spec_bytes() =~= ascii_bytes(decimal_text(number as nat)));
    }
    let hash = sha256_digest(text.as_bytes());
    hex_encode(hash.as_slice())
}

/// Whether `hash` ends in at least `zeros_amount` characters `'0'`.
pub fn has_required_zeros(hash: &str, zeros_amount: usize) -> (matched: bool)
    ensures
        matched == ends_with_zeros(hash@, zeros_amount as nat),
        zeros_amount == 0 ==> matched,
{
    if zeros_amount == 0 {
        return true;
    }
    if hash.is_ascii() {
        let bytes = hash.as_bytes();
        let len: usize = bytes.len();
        if zeros_amount > len {
            return false;
        }
        let mut at: usize = len;
        while at > len - zeros_amount
            invariant
                is_ascii(hash),
                bytes@ == hash.spec_bytes(),
                len == hash@.len(),
                zeros_amount <= len,
                len - zeros_amount <= at <= len,
                forall|i: int| at <= i < len ==> hash@[i] == '0',
            decreases at,
        {
            at -= 1;
            if bytes[at] != ASCII_ZERO {
                assert(hash@[at as int] != '0');
                return false;
            }
            assert(hash@[at as int] == '0') by {
                assert(hash@[at as int] as u8 == ASCII_ZERO);
                assert('\0' <= hash@[at as int] <= '\u{7f}');
            }
        }
        true
    } else {
        let len: usize = hash.unicode_len();
        if zeros_amount > len {
            return false;
        }
        let mut at: usize = len;
        while at > len - zeros_amount
            invariant
                len == hash@.len(),
                zeros_amount <= len,
                len - zeros_amount <= at <= len,
                forall|i: int| at <= i < len ==> hash@[i] == '0',
            decreases at,
        {
            at -= 1;
            if hash.get_char(at) != '0' {
                return false;
            }
        }
        true
    }
}

/// A threshold of zero is met by every text.
pub proof fn lemma_zero_threshold_matches(text: Seq<char>)
    ensures
        ends_with_zeros(text, 0),
{
}

/// A text that meets a threshold meets every lower one.
pub proof fn lemma_lower_threshold_matches(text: Seq<char>, zeros: nat, fewer: nat)
    requires
        ends_with_zeros(text, zeros),
        fewer <= zeros,
    ensures
        ends_with_zeros(text, fewer),
{
}

/// The digest is a function of the candidate alone: equal candidates have
/// equal digests.
pub proof fn lemma_digest_deterministic(a: u64, b: u64)
    requires
        a == b,
    ensures
        digest_text(a as nat) == digest_text(b as nat),
{
}

} // verus!
