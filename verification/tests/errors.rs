use mini_grep::{AppError, EXIT_IO, EXIT_SUCCESS, EXIT_USAGE};

#[test]
fn statuses_are_zero_one_and_two() {
    assert_eq!(EXIT_SUCCESS, 0);
    assert_eq!(EXIT_IO, 1);
    assert_eq!(EXIT_USAGE, 2);
}

#[test]
fn refused_command_lines_end_with_the_usage_status() {
    assert_eq!(AppError::ConfigParseError("bad flag".to_string()).exit_code(), 2);
    assert_eq!(AppError::PatternRequired.exit_code(), 2);
    assert_eq!(AppError::InvalidPattern("(".to_string()).exit_code(), 2);
    assert_eq!(AppError::UnknownArguments("--x".to_string()).exit_code(), 2);
    assert_eq!(AppError::InvalidFile("missing.txt".to_string()).exit_code(), 2);
}

#[test]
fn failed_inputs_end_with_the_io_status() {
    assert_eq!(AppError::ErrorOpeningFile.exit_code(), 1);
    assert_eq!(AppError::Io("Permission denied (os error 13)".to_string()).exit_code(), 1);
}

#[test]
fn no_error_ends_with_the_status_of_success() {
    let all = [
        AppError::ConfigParseError(String::new()),
        AppError::PatternRequired,
        AppError::InvalidPattern(String::new()),
        AppError::UnknownArguments(String::new()),
        AppError::InvalidFile(String::new()),
        AppError::ErrorOpeningFile,
        AppError::Io(String::new()),
    ];
    for error in all {
        assert_ne!(error.exit_code(), EXIT_SUCCESS);
    }
}

#[test]
fn messages_name_the_error_and_its_detail() {
    assert_eq!(
        AppError::ConfigParseError("unexpected argument".to_string()).message(),
        "Config error: unexpected argument"
    );
    assert_eq!(AppError::PatternRequired.message(), "Search pattern is required");
    assert_eq!(
        AppError::InvalidPattern("unclosed group".to_string()).message(),
        "Invalid search pattern error: unclosed group"
    );
    assert_eq!(
        AppError::UnknownArguments("--frob".to_string()).message(),
        "Unknown argument(s): --frob"
    );
    assert_eq!(
        AppError::InvalidFile("missing.txt".to_string()).message(),
        "Invalid file: missing.txt"
    );
    assert_eq!(AppError::ErrorOpeningFile.message(), "Error opening file");
}

#[test]
fn message_of_a_failed_input_is_the_message_of_the_system() {
    assert_eq!(
        AppError::Io("No such file or directory (os error 2)".to_string()).message(),
        "No such file or directory (os error 2)"
    );
}

#[test]
fn message_with_empty_detail_keeps_its_prefix() {
    assert_eq!(AppError::InvalidFile(String::new()).message(), "Invalid file: ");
}
