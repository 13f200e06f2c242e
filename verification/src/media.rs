use vstd::prelude::*;

use crate::text::{contains_seq, lower_char, lower_seq, occurs_at};

verus! {

/// A generated thumbnail may be at most this large: 200 KiB.
pub const THUMBNAIL_MAX_BYTES: u64 = 204800;

/// The first quality step the thumbnail encoder is asked for.
pub const THUMBNAIL_INITIAL_QUALITY: u32 = 3;

/// The coarsest quality step the encoder accepts.
pub const THUMBNAIL_QUALITY_FLOOR: u32 = 31;

/// The MIME type sent for an audio file with the given (lower-cased)
/// extension; anything unknown is sent as MPEG audio.
pub open spec fn spec_audio_mime(ext: Seq<char>) -> Seq<char> {
    if lower_seq(ext) =~= "m4a"@ {
        "audio/mp4"@
    } else if lower_seq(ext) =~= "aac"@ {
        "audio/aac"@
    } else if lower_seq(ext) =~= "ogg"@ {
        "audio/ogg"@
    } else {
        "audio/mpeg"@
    }
}

/// The MIME type for an audio file extension, case-insensitively.
pub fn audio_mime_for_ext(ext: &str) -> (r: &'static str)
    ensures
        r@ == spec_audio_mime(ext@),
{
    if crate::text::lower_eq(ext, "m4a") {
        "audio/mp4"
    } else if crate::text::lower_eq(ext, "aac") {
        "audio/aac"
    } else if crate::text::lower_eq(ext, "ogg") {
        "audio/ogg"
    } else {
        "audio/mpeg"
    }
}

/// What the stream-probe reports of the primary video stream, with the
/// duration as a plain millisecond count.
#[derive(Clone, Copy, Debug, PartialEq, Eq, Structural)]
pub struct Stream {
    pub width: u32,
    pub height: u32,
    pub duration_ms: u64,
}

/// Pick the stream's own duration, falling back to the container-level
/// one only when the stream reports none.
pub fn select_duration_ms(stream_ms: u64, format_ms: Option<u64>) -> (d: u64)
    ensures
        stream_ms > 0 ==> d == stream_ms,
        stream_ms == 0 ==> d == (match format_ms {
            Some(f) => f,
            None => 0u64,
        }),
{
    if stream_ms > 0 {
        stream_ms
    } else {
        match format_ms {
            Some(f) => f,
            None => 0,
        }
    }
}

/// The metadata the upload uses: the first probed video stream, its
/// duration patched from the container when the stream reports none.
/// `None` exactly when no video stream was found.
pub fn select_video_stream(streams: &Vec<Stream>, format_ms: Option<u64>) -> (r: Option<Stream>)
    ensures
        (r is Some) == (streams@.len() > 0),
        match r {
            Some(s) => {
                &&& s.width == streams@[0].width
                &&& s.height == streams@[0].height
                &&& if streams@[0].duration_ms > 0 {
                    s.duration_ms == streams@[0].duration_ms
                } else {
                    s.duration_ms == (match format_ms {
                        Some(f) => f,
                        None => 0u64,
                    })
                }
            },
            None => true,
        },
{
    if streams.len() == 0 {
        return None;
    }
    let first = streams[0];
    let duration_ms = select_duration_ms(first.duration_ms, format_ms);
    Some(Stream { width: first.width, height: first.height, duration_ms })
}

/// What to do with a freshly encoded thumbnail of `size` bytes.
#[derive(Clone, Copy, Debug, PartialEq, Eq, Structural)]
pub enum ThumbnailDecision {
    /// Small enough: use it.
    Accept,
    /// Too large: re-encode at this coarser quality step.
    Recompress(u32),
    /// Still too large at the coarsest step: proceed with it anyway.
    AcceptOversized,
}

/// One round of the thumbnail size loop: re-encode two quality steps
/// coarser while the file exceeds the cap and steps remain.
pub fn thumbnail_decision(size: u64, quality: u32) -> (d: ThumbnailDecision)
    requires
        quality < u32::MAX - 1,
    ensures
        size <= THUMBNAIL_MAX_BYTES ==> d == ThumbnailDecision::Accept,
        size > THUMBNAIL_MAX_BYTES && quality < THUMBNAIL_QUALITY_FLOOR ==> d
            == ThumbnailDecision::Recompress((quality + 2) as u32),
        size > THUMBNAIL_MAX_BYTES && quality >= THUMBNAIL_QUALITY_FLOOR ==> d
            == ThumbnailDecision::AcceptOversized,
{
    if size <= THUMBNAIL_MAX_BYTES {
        ThumbnailDecision::Accept
    } else if quality < THUMBNAIL_QUALITY_FLOOR {
        ThumbnailDecision::Recompress(quality + 2)
    } else {
        ThumbnailDecision::AcceptOversized
    }
}

/// Whether the upload uses the remuxed fast-start file: only container
/// files are remuxed, and a failed remux falls back to the original.
pub fn use_remuxed_file(is_mp4: bool, remux_succeeded: bool) -> (b: bool)
    ensures
        b == (is_mp4 && remux_succeeded),
{
    is_mp4 && remux_succeeded
}

/// Whether `pat` occurs in `s` once `s` is ASCII-lower-cased.
pub fn lower_contains(s: &str, pat: &str) -> (b: bool)
    ensures
        b == contains_seq(lower_seq(s@), pat@),
{
    let slen = s.unicode_len();
    let plen = pat.unicode_len();
    if plen > slen {
        assert(forall|i: int| !occurs_at(lower_seq(s@), pat@, i));
        return false;
    }
    let mut i: usize = 0;
    loop
        invariant
            slen == s@.len(),
            slen == lower_seq(s@).len(),
            plen == pat@.len(),
            plen <= slen,
            i <= slen - plen + 1,
            forall|j: int| 0 <= j < i ==> !occurs_at(lower_seq(s@), pat@, j),
        decreases slen - plen + 1 - i,
    {
        if i > slen - plen {
            assert(forall|j: int| !occurs_at(lower_seq(s@), pat@, j));
            return false;
        }
        if lower_occurs_at(s, pat, i) {
            return true;
        }
        i += 1;
    }
}

/// Whether `pat` occurs at position `i` of the lower-cased `s`.
fn lower_occurs_at(s: &str, pat: &str, i: usize) -> (b: bool)
    requires
        s@.len() <= usize::MAX,
        i + pat@.len() <= s@.len(),
    ensures
        b == occurs_at(lower_seq(s@), pat@, i as int),
{
    let plen = pat.unicode_len();
    let mut k: usize = 0;
    while k < plen
        invariant
            plen == pat@.len(),
            s@.len() <= usize::MAX,
            s@.len() == lower_seq(s@).len(),
            i + plen <= s@.len(),
            k <= plen,
            forall|j: int| 0 <= j < k ==> lower_seq(s@)[i + j] == pat@[j],
        decreases plen - k,
    {
        let c = s.get_char(i + k);
        let low = if c >= 'A' && c <= 'Z' {
            ((c as u8) + 32) as char
        } else {
            c
        };
        assert(low == lower_char(s@[i + k]));
        if low != pat.get_char(k) {
            assert(lower_seq(s@)[i + k] != pat@[k as int]);
            return false;
        }
        k += 1;
    }
    assert(lower_seq(s@).subrange(i as int, i + pat@.len()) =~= pat@);
    true
}

/// Which extracted binary a file name is, by its lower-cased name; a
/// name that names both tools reads as the probe.
#[derive(Clone, Copy, Debug, PartialEq, Eq, Structural)]
pub enum BinaryKind {
    Encoder,
    Probe,
}

/// Classify an extracted file name: a name naming the probe tool is the
/// probe; one naming the encoder (and not the probe) is the encoder.
pub fn classify_binary_name(name: &str) -> (r: Option<BinaryKind>)
    ensures
        contains_seq(lower_seq(name@), "ffprobe"@) ==> r == Some(BinaryKind::Probe),
        !contains_seq(lower_seq(name@), "ffprobe"@) && contains_seq(lower_seq(name@), "ffmpeg"@)
            ==> r == Some(BinaryKind::Encoder),
        !contains_seq(lower_seq(name@), "ffprobe"@) && !contains_seq(lower_seq(name@), "ffmpeg"@)
            ==> r is None,
{
    if lower_contains(name, "ffprobe") {
        Some(BinaryKind::Probe)
    } else if lower_contains(name, "ffmpeg") {
        Some(BinaryKind::Encoder)
    } else {
        None
    }
}

/// Whether a permissions mode makes a file executable by anyone.
pub fn mode_is_executable(mode: u32) -> (b: bool)
    ensures
        b == (mode & 0x49 != 0),
{
    mode & 0x49 != 0
}

/// The member statuses a subscription check accepts.
#[derive(Clone, Copy, Debug, PartialEq, Eq, Structural)]
pub enum MemberStatus {
    Owner,
    Administrator,
    Member,
    Restricted,
    Left,
    Banned,
}

/// A status that counts as subscribed.
pub open spec fn spec_is_subscribed(s: MemberStatus) -> bool {
    s is Owner || s is Administrator || s is Member
}

/// Whether the user is subscribed to every required channel; with no
/// channels required the check passes.
pub fn all_subscribed(statuses: &Vec<MemberStatus>) -> (b: bool)
    ensures
        b == (forall|i: int| 0 <= i < statuses@.len() ==> spec_is_subscribed(statuses@[i])),
{
    let mut i: usize = 0;
    while i < statuses.len()
        invariant
            i <= statuses@.len(),
            forall|j: int| 0 <= j < i ==> spec_is_subscribed(statuses@[j]),
        decreases statuses@.len() - i,
    {
        let ok = match statuses[i] {
            MemberStatus::Owner => true,
            MemberStatus::Administrator => true,
            MemberStatus::Member => true,
            _ => false,
        };
        if !ok {
            return false;
        }
        i += 1;
    }
    true
}

/// Whether subscription is required, read from the settings row; a
/// missing row or a failed query defaults to required.
pub fn subscription_required(row: &Option<String>) -> (b: bool)
    ensures
        b == (match row {
            Some(s) => s@ == "true"@,
            None => true,
        }),
{
    match row {
        Some(s) => crate::text::str_eq(s.as_str(), "true"),
        None => true,
    }
}

} // verus!
