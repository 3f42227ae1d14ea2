use file_gateway::errors::GuardError;
use file_gateway::guard::{containment_stage, read_file_secure, save_file_binary, save_file_secure, size_stage, MAX_FILE_SIZE};
use file_gateway::rate::RateLimiter;

#[test]
fn max_file_size_is_ten_mebibytes() {
    assert_eq!(MAX_FILE_SIZE, 10 * 1024 * 1024);
}

#[test]
fn text_content_over_the_ceiling_is_rejected() {
    let mut limiter = RateLimiter::new();
    let content = "x".repeat(MAX_FILE_SIZE + 1);
    let r = save_file_secure(&mut limiter, 0, &"a.json".to_owned(), &content);
    assert!(matches!(r, Err(GuardError::PayloadTooLarge)));
}

#[test]
fn text_content_of_exactly_the_ceiling_passes_the_size_stage() {
    let mut limiter = RateLimiter::new();
    let content = "x".repeat(MAX_FILE_SIZE);
    // The stage after the size check is what rejects here, which shows the
    // size stage admitted content of exactly the ceiling.
    let r = save_file_secure(&mut limiter, 0, &"a.txt".to_owned(), &content);
    assert!(matches!(r, Err(GuardError::DisallowedExtension)));
}

#[test]
fn binary_content_over_the_ceiling_is_rejected() {
    let mut limiter = RateLimiter::new();
    let content = vec![0u8; MAX_FILE_SIZE + 1];
    let r = save_file_binary(&mut limiter, 0, &"a.xlsx".to_owned(), &content);
    assert!(matches!(r, Err(GuardError::PayloadTooLarge)));
}

#[test]
fn binary_content_of_exactly_the_ceiling_passes_the_size_stage() {
    let mut limiter = RateLimiter::new();
    let content = vec![0u8; MAX_FILE_SIZE];
    let r = save_file_binary(&mut limiter, 0, &"a.bin".to_owned(), &content);
    assert!(matches!(r, Err(GuardError::DisallowedExtension)));
}

#[test]
fn text_write_refuses_a_spreadsheet_path() {
    let mut limiter = RateLimiter::new();
    let r = save_file_secure(&mut limiter, 0, &"report.xlsx".to_owned(), &"{}".to_owned());
    assert!(matches!(r, Err(GuardError::DisallowedExtension)));
}

#[test]
fn binary_write_refuses_a_text_path() {
    let mut limiter = RateLimiter::new();
    let r = save_file_binary(&mut limiter, 0, &"data.json".to_owned(), &vec![1u8]);
    assert!(matches!(r, Err(GuardError::DisallowedExtension)));
}

#[test]
fn every_operation_requires_an_extension() {
    let mut limiter = RateLimiter::new();
    let r = save_file_secure(&mut limiter, 0, &"noext".to_owned(), &"{}".to_owned());
    assert!(matches!(r, Err(GuardError::MissingExtension)));
    let r = save_file_binary(&mut limiter, 0, &"noext".to_owned(), &vec![1u8]);
    assert!(matches!(r, Err(GuardError::MissingExtension)));
    let r = read_file_secure(&mut limiter, 0, &"noext".to_owned());
    assert!(matches!(r, Err(GuardError::MissingExtension)));
}

#[test]
fn eleventh_write_in_one_window_hits_the_rate_limit() {
    let mut limiter = RateLimiter::new();
    let path = "out.json".to_owned();
    let content = "{}".to_owned();
    for i in 0..10u64 {
        let r = save_file_secure(&mut limiter, i, &path, &content);
        // Whatever the later stages decide, the rate stage admits these ten.
        assert!(!matches!(r, Err(GuardError::RateLimitExceeded)));
    }
    let r = save_file_secure(&mut limiter, 10, &path, &content);
    assert!(matches!(r, Err(GuardError::RateLimitExceeded)));
    // A different operation name still has its own fresh budget.
    let r = read_file_secure(&mut limiter, 10, &path);
    assert!(!matches!(r, Err(GuardError::RateLimitExceeded)));
}

#[test]
fn traversal_read_is_refused() {
    let mut limiter = RateLimiter::new();
    // Canonicalization resolves the dot-dot segments outside every root.
    let r = read_file_secure(&mut limiter, 0, &"/tmp/evil/../../etc/passwd.json".to_owned());
    assert!(matches!(r, Err(GuardError::PathNotAllowed)));
    // Without an extension the chain stops one stage earlier.
    let r = read_file_secure(&mut limiter, 1, &"/tmp/evil/../../etc/passwd".to_owned());
    assert!(matches!(r, Err(GuardError::MissingExtension)));
}

#[test]
fn error_messages_name_the_failure() {
    assert!(GuardError::RateLimitExceeded.message().contains("limit"));
    assert!(GuardError::PayloadTooLarge.message().contains("10 MiB"));
    assert!(GuardError::IoFailure("disk on fire".to_owned())
        .message()
        .contains("disk on fire"));
}

#[test]
fn size_stage_admits_exactly_the_ceiling_and_keeps_the_diagnostic() {
    assert!(size_stage(Ok(MAX_FILE_SIZE as u64)).is_ok());
    let r = size_stage(Ok(MAX_FILE_SIZE as u64 + 1));
    assert!(matches!(r, Err(GuardError::PayloadTooLarge)));
    let r = size_stage(Err("metadata says no".to_owned()));
    match r {
        Err(GuardError::IoFailure(diag)) => assert_eq!(diag, "metadata says no"),
        other => panic!("expected an IoFailure, got {:?}", other),
    }
}

#[test]
fn containment_stage_hands_the_path_back_or_names_the_directories() {
    let path = "out.json".to_owned();
    assert_eq!(containment_stage(true, &path).unwrap(), "out.json");
    let r = containment_stage(false, &path);
    assert!(matches!(r, Err(GuardError::PathNotAllowed)));
}
