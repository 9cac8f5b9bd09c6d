use hash_finder::{validate_args, Args};

#[test]
fn test_validate_args_valid() {
    let args = Args { zeros_amount: 5, results_count: 10 };
    assert!(validate_args(&args).is_ok());
}

#[test]
fn test_validate_args_too_many_zeros() {
    let args = Args { zeros_amount: 65, results_count: 10 };
    assert!(validate_args(&args).is_err());
}

#[test]
fn test_validate_args_zero_results() {
    let args = Args { zeros_amount: 3, results_count: 0 };
    assert!(validate_args(&args).is_err());
}

#[test]
fn validate_accepts_the_largest_zero_count() {
    let args = Args { zeros_amount: 64, results_count: 1 };
    assert_eq!(validate_args(&args), Ok(()));
}

#[test]
fn validate_accepts_no_zeros_and_many_results() {
    let args = Args { zeros_amount: 0, results_count: usize::MAX };
    assert_eq!(validate_args(&args), Ok(()));
}

#[test]
fn validate_refuses_65_zeros_whatever_the_result_count() {
    for results_count in [0, 1, 2, 10, 1000, usize::MAX] {
        let args = Args { zeros_amount: 65, results_count };
        assert_eq!(
            validate_args(&args),
            Err("Number of zeros cannot exceed 64".to_string())
        );
    }
}

#[test]
fn validate_refuses_no_results_whatever_the_zero_count() {
    for zeros_amount in [0, 1, 3, 63, 64] {
        let args = Args { zeros_amount, results_count: 0 };
        assert_eq!(
            validate_args(&args),
            Err("Results count must be at least 1".to_string())
        );
    }
}

#[test]
fn validate_names_the_zero_count_first() {
    let args = Args { zeros_amount: usize::MAX, results_count: 0 };
    assert_eq!(
        validate_args(&args),
        Err("Number of zeros cannot exceed 64".to_string())
    );
}
