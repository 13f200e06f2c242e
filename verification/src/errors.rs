use vstd::prelude::*;

use crate::text::{
    contains_seq, contains_str, digit_run_end, digits_val, is_digit, occurs_at, parse_digit_run,
    scan_digit_run,
};

verus! {

/// The failure classes of the transfer core.
///
/// `RateLimited` carries the wait in seconds that the platform asked for.
#[derive(Debug, PartialEq, Eq, Structural)]
pub enum TransferError {
    AcquireTimeout,
    ExecutionTimeout,
    ConnectionLoss,
    RateLimited(u64),
    TransientIo,
    PermanentRejection,
}

/// The platform error texts that signal a lost connection.
pub open spec fn spec_is_connection_loss(t: Seq<char>) -> bool {
    contains_seq(t, "read 0 bytes"@) || contains_seq(t, "ConnectionReset"@) || contains_seq(
        t,
        "Connection lost"@,
    )
}

/// Classify an error text: connection-loss-class errors are retried by a
/// reconnect, all others propagate at once.
pub fn is_connection_loss(msg: &str) -> (b: bool)
    ensures
        b == spec_is_connection_loss(msg@),
{
    contains_str(msg, "read 0 bytes") || contains_str(msg, "ConnectionReset") || contains_str(
        msg,
        "Connection lost",
    )
}

/// Scan for the first occurrence of the rate-limit marker followed by a digit.
/// Returns the numeric value of the digit run after the marker.
pub open spec fn spec_flood_scan(t: Seq<char>, i: int) -> Option<nat>
    decreases t.len() - i,
{
    if i + 12 > t.len() {
        None
    } else if occurs_at(t, "FLOOD_WAIT_"@, i) && is_digit(t[i + 11]) {
        Some(digits_val(t, i + 11, digit_run_end(t, i + 11)))
    } else {
        spec_flood_scan(t, i + 1)
    }
}

/// The wait encoded in a rate-limit error text, if any.
pub open spec fn spec_flood_wait(t: Seq<char>) -> Option<nat> {
    spec_flood_scan(t, 0)
}

/// Extract the rate-limit wait in seconds from a platform error text:
/// the digits after the first `FLOOD_WAIT_` marker that has any.
/// `None` when no marker is followed by a digit, or the value overflows.
pub fn extract_flood_wait(error_str: &str) -> (r: Option<u64>)
    ensures
        match spec_flood_wait(error_str@) {
            Some(n) => r == if n <= u64::MAX {
                Some(n as u64)
            } else {
                None::<u64>
            },
            None => r is None,
        },
{
    let slen = error_str.unicode_len();
    if slen < 12 {
        return None;
    }
    let mut i: usize = 0;
    loop
        invariant
            slen == error_str@.len(),
            12 <= slen <= usize::MAX,
            i <= slen - 11,
            spec_flood_scan(error_str@, 0) == spec_flood_scan(error_str@, i as int),
        decreases slen - i,
    {
        if i > slen - 12 {
            return None;
        }
        if flood_marker_at(error_str, i) {
            let c = error_str.get_char(i + 11);
            if c >= '0' && c <= '9' {
                let end = scan_digit_run(error_str, i + 11);
                return parse_digit_run(error_str, i + 11, end);
            }
        }
        i += 1;
    }
}

/// Whether the rate-limit marker occurs at position `i`.
fn flood_marker_at(s: &str, i: usize) -> (b: bool)
    requires
        s@.len() <= usize::MAX,
        i + 12 <= s@.len(),
    ensures
        b == occurs_at(s@, "FLOOD_WAIT_"@, i as int),
{
    proof {
        reveal_strlit("FLOOD_WAIT_");
    }
    let mut k: usize = 0;
    let pat = "FLOOD_WAIT_";
    let plen = pat.unicode_len();
    while k < plen
        invariant
            plen == 11,
            pat@ =~= "FLOOD_WAIT_"@,
            plen == pat@.len(),
            s@.len() <= usize::MAX,
            i + 12 <= s@.len(),
            k <= plen,
            forall|j: int| 0 <= j < k ==> s@[i + j] == pat@[j],
        decreases plen - k,
    {
        if s.get_char(i + k) != pat.get_char(k) {
            assert(s@[i + k] != pat@[k as int]);
            assert(!occurs_at(s@, "FLOOD_WAIT_"@, i as int));
            return false;
        }
        k += 1;
    }
    assert(s@.subrange(i as int, i + 11) =~= "FLOOD_WAIT_"@);
    true
}

/// The distinct user-facing message classes for a failed transfer.
#[derive(Clone, Copy, Debug, PartialEq, Eq, Structural)]
pub enum FailureNotice {
    Timeout,
    RateLimitedWait,
    GenericFailure,
}

/// Map a final upload error to one of the short user-facing notices:
/// a rate-limit error yields the wait to show, everything else one
/// generic failure notice.
pub fn upload_failure_notice(error_str: &str) -> (r: (FailureNotice, u64))
    ensures
        match spec_flood_wait(error_str@) {
            Some(n) => if n <= u64::MAX {
                r == (FailureNotice::RateLimitedWait, n as u64)
            } else {
                r == (FailureNotice::GenericFailure, 0u64)
            },
            None => r == (FailureNotice::GenericFailure, 0u64),
        },
{
    match extract_flood_wait(error_str) {
        Some(secs) => (FailureNotice::RateLimitedWait, secs),
        None => (FailureNotice::GenericFailure, 0),
    }
}

/// The distinct reasons a fetch can fail, each mapped to one short
/// user-facing message.
#[derive(Clone, Copy, Debug, PartialEq, Eq, Structural)]
pub enum DownloadFailure {
    SignInRequired,
    Unavailable,
    Private,
    AgeRestricted,
    ApiParseError,
    Timeout,
    Other,
}

/// Classify a fetch error text into its user-facing message class, in
/// the order the texts are tried: a sign-in demand, an unavailable or
/// format-less item, a private item, an age restriction, a response
/// the tool could not parse, a timeout, and everything else.
pub fn classify_download_error(msg: &str) -> (r: DownloadFailure)
    ensures
        ({
            let t = msg@;
            if contains_seq(t, "Sign in required"@) {
                r == DownloadFailure::SignInRequired
            } else if contains_seq(t, "Video unavailable"@) || contains_seq(
                t,
                "Requested format is not available"@,
            ) {
                r == DownloadFailure::Unavailable
            } else if contains_seq(t, "Private video"@) {
                r == DownloadFailure::Private
            } else if contains_seq(t, "This video is age-restricted"@) {
                r == DownloadFailure::AgeRestricted
            } else if contains_seq(t, "Failed to parse"@) || contains_seq(t, "JSON"@) {
                r == DownloadFailure::ApiParseError
            } else if contains_seq(t, "timeout"@) {
                r == DownloadFailure::Timeout
            } else {
                r == DownloadFailure::Other
            }
        }),
{
    if contains_str(msg, "Sign in required") {
        DownloadFailure::SignInRequired
    } else if contains_str(msg, "Video unavailable") || contains_str(
        msg,
        "Requested format is not available",
    ) {
        DownloadFailure::Unavailable
    } else if contains_str(msg, "Private video") {
        DownloadFailure::Private
    } else if contains_str(msg, "This video is age-restricted") {
        DownloadFailure::AgeRestricted
    } else if contains_str(msg, "Failed to parse") || contains_str(msg, "JSON") {
        DownloadFailure::ApiParseError
    } else if contains_str(msg, "timeout") {
        DownloadFailure::Timeout
    } else {
        DownloadFailure::Other
    }
}

} // verus!
