use media_relay::errors::{
    classify_download_error, extract_flood_wait, is_connection_loss, upload_failure_notice,
    DownloadFailure, FailureNotice,
};

#[test]
fn flood_wait_42_yields_42_seconds() {
    assert_eq!(extract_flood_wait("FLOOD_WAIT_42"), Some(42));
}

#[test]
fn flood_wait_inside_longer_text() {
    assert_eq!(
        extract_flood_wait("RPC error: FLOOD_WAIT_17 (caused by upload.SaveBigFilePart)"),
        Some(17)
    );
}

#[test]
fn flood_wait_needs_digits() {
    assert_eq!(extract_flood_wait("FLOOD_WAIT_"), None);
    assert_eq!(extract_flood_wait("FLOOD_WAIT_X"), None);
    assert_eq!(extract_flood_wait("no rate limit here"), None);
    assert_eq!(extract_flood_wait(""), None);
}

#[test]
fn flood_wait_skips_a_bare_marker() {
    assert_eq!(extract_flood_wait("FLOOD_WAIT_? then FLOOD_WAIT_7"), Some(7));
}

#[test]
fn flood_wait_overflow_reads_as_none() {
    assert_eq!(extract_flood_wait("FLOOD_WAIT_99999999999999999999999"), None);
}

#[test]
fn connection_loss_class_is_recognized() {
    assert!(is_connection_loss("read 0 bytes"));
    assert!(is_connection_loss("os error: ConnectionReset by peer"));
    assert!(is_connection_loss("Connection lost mid-flight"));
    assert!(!is_connection_loss("FLOOD_WAIT_3"));
    assert!(!is_connection_loss("permission denied"));
}

#[test]
fn upload_failure_notices() {
    assert_eq!(
        upload_failure_notice("FLOOD_WAIT_42"),
        (FailureNotice::RateLimitedWait, 42)
    );
    assert_eq!(
        upload_failure_notice("something broke"),
        (FailureNotice::GenericFailure, 0)
    );
}

#[test]
fn download_failures_map_to_distinct_notices() {
    assert_eq!(
        classify_download_error("ERROR: Sign in required to view"),
        DownloadFailure::SignInRequired
    );
    assert_eq!(
        classify_download_error("Video unavailable"),
        DownloadFailure::Unavailable
    );
    assert_eq!(
        classify_download_error("Requested format is not available"),
        DownloadFailure::Unavailable
    );
    assert_eq!(
        classify_download_error("Private video, sorry"),
        DownloadFailure::Private
    );
    assert_eq!(
        classify_download_error("This video is age-restricted"),
        DownloadFailure::AgeRestricted
    );
    assert_eq!(
        classify_download_error("Failed to parse response"),
        DownloadFailure::ApiParseError
    );
    assert_eq!(
        classify_download_error("bad JSON in reply"),
        DownloadFailure::ApiParseError
    );
    assert_eq!(
        classify_download_error("deadline timeout elapsed"),
        DownloadFailure::Timeout
    );
    assert_eq!(
        classify_download_error("some other failure"),
        DownloadFailure::Other
    );
}
