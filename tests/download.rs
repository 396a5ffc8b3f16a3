use jbundle::download::{
    accept_download, cached_download_usable, classify_status, is_transport_retryable, next_step, parse_decimal_u64,
    retry_after_secs, verify_download, AttemptOutcome, DownloadStep, StatusClass,
};
use jbundle::error::PackError;
use jbundle::hash::sha256_hex;

fn outcome_of_status(code: u16, retry_after: Option<&str>) -> AttemptOutcome {
    match classify_status(code) {
        StatusClass::Success => AttemptOutcome::Completed,
        StatusClass::RateLimited => AttemptOutcome::RetryAfter(retry_after_secs(retry_after), format!("HTTP {code}")),
        StatusClass::ServerError => AttemptOutcome::Retryable(format!("HTTP {code}")),
        StatusClass::ClientError => AttemptOutcome::Permanent(format!("HTTP {code}")),
    }
}

#[test]
fn download_retries_server_errors_with_backoff() {
    // 503, 503, then 200 on a 10 MiB asset.
    let body = vec![7u8; 10 * 1024 * 1024];
    let expected = sha256_hex(&body);
    let answers = [503u16, 503, 200];
    let mut sleeps = Vec::new();
    let mut result = None;
    for (i, code) in answers.iter().enumerate() {
        let attempt = (i + 1) as u32;
        match next_step(attempt, outcome_of_status(*code, None)) {
            DownloadStep::Sleep(s) => sleeps.push(s),
            DownloadStep::Verify => {
                result = Some(accept_download(&body, &expected));
                break;
            }
            DownloadStep::Fail(e) => panic!("unexpected failure {e:?}"),
        }
    }
    assert_eq!(sleeps, vec![1, 2]);
    assert!(matches!(result, Some(Ok(()))));
}

#[test]
fn download_gives_up_after_three_attempts() {
    assert!(matches!(next_step(1, AttemptOutcome::Retryable("x".into())), DownloadStep::Sleep(1)));
    assert!(matches!(next_step(2, AttemptOutcome::Retryable("x".into())), DownloadStep::Sleep(2)));
    match next_step(3, AttemptOutcome::Retryable("HTTP 503".into())) {
        DownloadStep::Fail(PackError::JdkDownload(m)) => assert_eq!(m, "download failed after 3 attempts: HTTP 503"),
        other => panic!("unexpected {other:?}"),
    }
}

#[test]
fn download_permanent_error_is_not_retried() {
    match next_step(1, outcome_of_status(404, None)) {
        DownloadStep::Fail(PackError::JdkDownload(m)) => assert_eq!(m, "HTTP 404"),
        other => panic!("unexpected {other:?}"),
    }
}

#[test]
fn download_rate_limit_honours_retry_after() {
    assert!(matches!(next_step(1, outcome_of_status(429, Some("7"))), DownloadStep::Sleep(7)));
    assert!(matches!(next_step(2, outcome_of_status(429, None)), DownloadStep::Sleep(5)));
    assert!(matches!(next_step(1, outcome_of_status(429, Some("soon"))), DownloadStep::Sleep(5)));
}

#[test]
fn retry_after_parsing() {
    assert_eq!(parse_decimal_u64("120"), Some(120));
    assert_eq!(parse_decimal_u64("+3"), Some(3));
    assert_eq!(parse_decimal_u64(""), None);
    assert_eq!(parse_decimal_u64("1a"), None);
    assert_eq!(parse_decimal_u64("18446744073709551615"), Some(u64::MAX));
    assert_eq!(parse_decimal_u64("18446744073709551616"), None);
}

#[test]
fn status_classes() {
    assert_eq!(classify_status(200), StatusClass::Success);
    assert_eq!(classify_status(429), StatusClass::RateLimited);
    assert_eq!(classify_status(500), StatusClass::ServerError);
    assert_eq!(classify_status(301), StatusClass::ClientError);
    assert!(is_transport_retryable(true, false, false, None));
    assert!(!is_transport_retryable(false, false, false, Some(403)));
    assert!(is_transport_retryable(false, false, false, Some(429)));
    assert!(is_transport_retryable(false, false, false, None));
}

#[test]
fn checksum_mismatch_is_reported() {
    let body = b"jdk archive".to_vec();
    match accept_download(&body, "0000") {
        Err(PackError::ChecksumMismatch { expected, actual }) => {
            assert_eq!(expected, "0000");
            assert_eq!(actual, sha256_hex(&body));
        }
        other => panic!("unexpected {other:?}"),
    }
    assert!(verify_download("ab", "ab").is_ok());
}

#[test]
fn cached_download_needs_matching_checksum() {
    assert!(cached_download_usable(true, Some("abc"), "abc"));
    assert!(!cached_download_usable(true, Some("abd"), "abc"));
    assert!(!cached_download_usable(false, Some("abc"), "abc"));
    assert!(!cached_download_usable(true, None, "abc"));
}
