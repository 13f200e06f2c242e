use vstd::prelude::*;

use vstd::arithmetic::div_mod::{lemma_div_is_ordered, lemma_div_multiples_vanish};
use vstd::arithmetic::mul::lemma_mul_inequality;

verus! {

/// Minimum time between two progress edits, in milliseconds.
pub const MIN_UPDATE_INTERVAL_MS: u64 = 1000;

/// The download phase's share of the overall indicator: 0 to 80 percent.
pub open spec fn spec_download_scale(tenths: int) -> int {
    tenths * 8 / 100
}

/// The part-upload phase's share: 80 to 99 percent after `uploaded` of
/// `total` parts.
pub open spec fn spec_upload_part_percent(uploaded: int, total: int) -> int {
    80 + uploaded * 19 / total
}

/// The auxiliary-asset upload share: 0 to 79 percent.
pub open spec fn spec_aux_part_percent(uploaded: int, total: int) -> int {
    uploaded * 79 / total
}

/// The byte-counting upload share: 80 to 100 percent.
pub open spec fn spec_byte_upload_percent(uploaded: int, total: int) -> int {
    80 + uploaded * 20 / total
}

/// Scale one download reading (percent in tenths, 0..=1000) onto the
/// 0–80 slice of the overall indicator.
pub fn download_scale(tenths: u64) -> (p: u8)
    requires
        tenths <= 1000,
    ensures
        p == spec_download_scale(tenths as int),
        p <= 80,
{
    proof {
        lemma_div_is_ordered((tenths * 8) as int, 8000, 100);
    }
    ((tenths * 8) / 100) as u8
}

/// Overall percent after `uploaded` of `total` acknowledged parts of the
/// primary media file, scaled onto the 80–99 slice.
pub fn upload_part_percent(uploaded: u64, total: u64) -> (p: u8)
    requires
        1 <= total,
        uploaded <= total,
        total <= 0x0400_0000_0000_0000,
    ensures
        p == spec_upload_part_percent(uploaded as int, total as int),
        80 <= p <= 99,
        uploaded == total ==> p == 99,
{
    proof {
        lemma_mul_inequality(uploaded as int, total as int, 19);
        lemma_div_is_ordered((uploaded * 19) as int, (total * 19) as int, total as int);
        lemma_div_multiples_vanish(19, total as int);
    }
    (80 + (uploaded * 19) / total) as u8
}

/// Overall percent after `uploaded` of `total` parts of an auxiliary
/// asset, scaled onto the 0–79 slice.
pub fn aux_part_percent(uploaded: u64, total: u64) -> (p: u8)
    requires
        1 <= total,
        uploaded <= total,
        total <= 0x100_0000_0000_0000,
    ensures
        p == spec_aux_part_percent(uploaded as int, total as int),
        p <= 79,
{
    proof {
        lemma_mul_inequality(uploaded as int, total as int, 79);
        lemma_div_is_ordered((uploaded * 79) as int, (total * 79) as int, total as int);
        lemma_div_multiples_vanish(79, total as int);
    }
    ((uploaded * 79) / total) as u8
}

/// Overall percent after `uploaded` of `total` bytes on the byte-counted
/// upload path, scaled onto the 80–100 slice.
pub fn byte_upload_percent(uploaded: u64, total: u64) -> (p: u8)
    requires
        1 <= total,
        uploaded <= total,
        total <= 0x0800_0000_0000_0000,
    ensures
        p == spec_byte_upload_percent(uploaded as int, total as int),
        80 <= p <= 100,
        uploaded == total ==> p == 100,
{
    proof {
        lemma_mul_inequality(uploaded as int, total as int, 20);
        lemma_div_is_ordered((uploaded * 20) as int, (total * 20) as int, total as int);
        lemma_div_multiples_vanish(20, total as int);
    }
    (80 + (uploaded * 20) / total) as u8
}

/// Cells filled in a 20-cell progress bar at `percent`.
pub fn filled_cells(percent: u8) -> (n: usize)
    ensures
        n == percent as int / 5,
        percent <= 100 ==> n <= 20,
{
    (percent / 5) as usize
}

/// A larger download reading never scales to a smaller overall percent.
pub proof fn lemma_download_scale_monotonic(a: int, b: int)
    requires
        0 <= a <= b,
    ensures
        spec_download_scale(a) <= spec_download_scale(b),
{
    lemma_mul_inequality(a, b, 8);
    lemma_div_is_ordered(a * 8, b * 8, 100);
}

/// More acknowledged parts never yield a smaller overall percent.
pub proof fn lemma_upload_percent_monotonic(a: int, b: int, total: int)
    requires
        0 <= a <= b,
        1 <= total,
    ensures
        spec_upload_part_percent(a, total) <= spec_upload_part_percent(b, total),
{
    lemma_mul_inequality(a, b, 19);
    lemma_div_is_ordered(a * 19, b * 19, total);
}

/// More counted bytes never yield a smaller overall percent.
pub proof fn lemma_byte_upload_monotonic(a: int, b: int, total: int)
    requires
        0 <= a <= b,
        1 <= total,
    ensures
        spec_byte_upload_percent(a, total) <= spec_byte_upload_percent(b, total),
{
    lemma_mul_inequality(a, b, 20);
    lemma_div_is_ordered(a * 20, b * 20, total);
}

/// The throttle and message state of one progress indicator.
///
/// The platform message itself lives outside; this tracks what the
/// rendering layer needs to decide whether an edit may be sent.
pub struct ProgressBar {
    pub chat_id: i64,
    pub message_id: Option<i64>,
    pub last_update_ms: Option<u64>,
    pub silent: bool,
}

/// An edit is suppressed only when one was sent less than the minimum
/// interval ago and the percent is not yet terminal.
pub open spec fn spec_should_emit(bar: ProgressBar, percent: u8, now_ms: u64) -> bool {
    match bar.last_update_ms {
        Some(last) => !(last <= now_ms && now_ms - last < MIN_UPDATE_INTERVAL_MS && percent < 100),
        None => true,
    }
}

impl ProgressBar {
    /// A reporter for one chat, before any message was sent.
    pub fn new(chat_id: i64) -> (bar: Self)
        ensures
            bar.chat_id == chat_id,
            bar.message_id is None,
            bar.last_update_ms is None,
            !bar.silent,
    {
        ProgressBar { chat_id, message_id: None, last_update_ms: None, silent: false }
    }

    /// The no-op variant for the non-primary side of dual-path
    /// operations; it keeps call signatures uniform and never edits.
    pub fn new_silent() -> (bar: Self)
        ensures
            bar.chat_id == 0,
            bar.message_id is None,
            bar.last_update_ms is None,
            bar.silent,
    {
        ProgressBar { chat_id: 0, message_id: None, last_update_ms: None, silent: true }
    }

    /// Record that the initial message was sent at `now_ms`.
    pub fn on_started(&mut self, message_id: i64, now_ms: u64)
        ensures
            final (self).chat_id == old(self).chat_id,
            final (self).silent == old(self).silent,
            final (self).message_id == Some(message_id),
            final (self).last_update_ms == Some(now_ms),
    {
        self.message_id = Some(message_id);
        self.last_update_ms = Some(now_ms);
    }

    /// The throttle decision: whether an edit at `percent` may be sent
    /// now. Terminal updates are never suppressed.
    pub fn should_emit(&self, percent: u8, now_ms: u64) -> (b: bool)
        ensures
            b == spec_should_emit(*self, percent, now_ms),
            percent >= 100 ==> b,
            self.last_update_ms is None ==> b,
    {
        match self.last_update_ms {
            Some(last) => !(last <= now_ms && now_ms - last < MIN_UPDATE_INTERVAL_MS && percent
                < 100),
            None => true,
        }
    }

    /// Record an emitted edit: the throttle clock restarts at `now_ms`,
    /// and a newly created message is remembered.
    pub fn on_emitted(&mut self, message_id: i64, now_ms: u64)
        ensures
            final (self).chat_id == old(self).chat_id,
            final (self).silent == old(self).silent,
            final (self).message_id == Some(message_id),
            final (self).last_update_ms == Some(now_ms),
    {
        self.message_id = Some(message_id);
        self.last_update_ms = Some(now_ms);
    }

    /// Forget the message. Idempotent: a second call changes nothing.
    pub fn on_deleted(&mut self)
        ensures
            final (self).chat_id == old(self).chat_id,
            final (self).silent == old(self).silent,
            final (self).message_id is None,
            final (self).last_update_ms == old(self).last_update_ms,
    {
        self.message_id = None;
    }
}

/// The download-phase emissions from the raw readings: each reading
/// that improves on the best one before it, scaled.
pub open spec fn spec_download_emits(d: Seq<u64>, i: int, best: u64) -> Seq<u8>
    decreases d.len() - i,
{
    if i < 0 || i >= d.len() {
        Seq::empty()
    } else if d[i] > best {
        seq![spec_download_scale(d[i] as int) as u8] + spec_download_emits(d, i + 1, d[i])
    } else {
        spec_download_emits(d, i + 1, best)
    }
}

/// Every emission of one request, in order: the improving download
/// readings, the download-complete mark, one update per part, and the
/// terminal value.
pub open spec fn spec_pipeline_percents(d: Seq<u64>, total: int) -> Seq<u8> {
    spec_download_emits(d, 0, 0) + seq![80u8] + Seq::new(
        total as nat,
        (|k: int| spec_upload_part_percent(k + 1, total) as u8),
    ) + seq![100u8]
}

/// Sequences with no decreasing step.
pub open spec fn spec_non_decreasing(s: Seq<u8>) -> bool {
    forall|i: int, j: int| 0 <= i <= j < s.len() ==> s[i] <= s[j]
}

/// The overall percents one request emits, in order: each download
/// reading that improved on the one before it (scaled to 0–80), the
/// download-complete mark at 80, one update per acknowledged part
/// (scaled to 80–99), and the terminal 100.
///
/// The returned sequence never decreases: one request shows one
/// coherent, monotone indicator.
pub fn pipeline_percents(download_tenths: &Vec<u64>, total_parts: u64) -> (r: Vec<u8>)
    requires
        1 <= total_parts <= 0x0400_0000_0000_0000,
        forall|i: int| 0 <= i < download_tenths@.len() ==> download_tenths@[i] <= 1000,
    ensures
        r@ == spec_pipeline_percents(download_tenths@, total_parts as int),
        spec_non_decreasing(r@),
        r@.len() >= 2,
        r@[r@.len() - 1] == 100,
{
    let ghost d = download_tenths@;
    let mut r: Vec<u8> = Vec::new();
    let mut best: u64 = 0;
    let mut i: usize = 0;
    proof {
        assert(Seq::<u8>::empty() + spec_download_emits(d, 0, 0) =~= spec_download_emits(
            d,
            0,
            0,
        ));
    }
    while i < download_tenths.len()
        invariant
            d == download_tenths@,
            forall|k: int| 0 <= k < d.len() ==> d[k] <= 1000,
            i <= d.len(),
            best <= 1000,
            spec_non_decreasing(r@),
            forall|k: int| 0 <= k < r@.len() ==> r@[k] <= spec_download_scale(best as int),
            spec_download_emits(d, 0, 0) == r@ + spec_download_emits(d, i as int, best),
        decreases d.len() - i,
    {
        let raw = download_tenths[i];
        if raw > best {
            proof {
                lemma_download_scale_monotonic(best as int, raw as int);
            }
            let ghost r_pre = r@;
            best = raw;
            let p = download_scale(best);
            r.push(p);
            proof {
                assert(r_pre + (seq![p] + spec_download_emits(d, i + 1, best)) =~= r@
                    + spec_download_emits(d, i + 1, best));
            }
        }
        i += 1;
    }
    proof {
        lemma_download_scale_monotonic(best as int, 1000);
        assert(spec_download_scale(1000) == 80);
        assert(spec_download_emits(d, 0, 0) =~= r@);
    }
    let ghost download_part = r@;
    r.push(80);
    proof {
        assert(0 as int * 19 == 0);
        lemma_div_is_ordered(0, 0, total_parts as int);
        assert(spec_upload_part_percent(0, total_parts as int) == 80);
        assert(r@ =~= download_part + seq![80u8]);
    }
    let ghost head = r@;
    let ghost emit_at = (|k: int| spec_upload_part_percent(k + 1, total_parts as int) as u8);
    let mut part: u64 = 0;
    proof {
        assert(head + Seq::<u8>::new(0, emit_at) =~= head);
    }
    while part < total_parts
        invariant
            1 <= total_parts <= 0x0400_0000_0000_0000,
            part <= total_parts,
            spec_non_decreasing(r@),
            r@.len() >= 1,
            emit_at == (|k: int| spec_upload_part_percent(k + 1, total_parts as int) as u8),
            r@ == head + Seq::<u8>::new(part as nat, emit_at),
            forall|k: int|
                0 <= k < r@.len() ==> r@[k] <= spec_upload_part_percent(
                    part as int,
                    total_parts as int,
                ),
        decreases total_parts - part,
    {
        proof {
            lemma_upload_percent_monotonic(part as int, part + 1, total_parts as int);
        }
        part += 1;
        let p = upload_part_percent(part, total_parts);
        r.push(p);
        proof {
            assert(r@ =~= head + Seq::<u8>::new(part as nat, emit_at));
        }
    }
    proof {
        lemma_div_multiples_vanish(19, total_parts as int);
        assert(spec_upload_part_percent(total_parts as int, total_parts as int) == 99);
    }
    r.push(100);
    proof {
        assert(r@ =~= spec_pipeline_percents(d, total_parts as int));
    }
    r
}

} // verus!
