use vstd::prelude::*;

use crate::text::{digit_run_end, digits_val, is_digit, lower_char, lower_seq};

verus! {

/// The size assumed for a progress line that names none: 10 MiB.
pub const DEFAULT_PROGRESS_SIZE: u64 = 10485760;

/// One binary mebi step: 1 MiB.
pub const BYTES_MI: u64 = 1048576;

/// One binary gibi step: 1 GiB.
pub const BYTES_GI: u64 = 1073741824;

/// Clip a mathematical value into `u64`.
pub open spec fn sat64(n: nat) -> u64 {
    if n <= u64::MAX {
        n as u64
    } else {
        u64::MAX
    }
}

/// Whitespace as the progress-line grammar knows it.
pub open spec fn is_ws(c: char) -> bool {
    c == ' ' || c == '\t' || c == '\n' || c == '\r'
}

/// Index just past the whitespace run starting at `i`.
pub open spec fn ws_run_end(t: Seq<char>, i: int) -> int
    decreases t.len() - i,
{
    if 0 <= i && i < t.len() && is_ws(t[i]) {
        ws_run_end(t, i + 1)
    } else {
        i
    }
}

/// A control-sequence parameter byte.
pub open spec fn is_ansi_param(c: char) -> bool {
    '0' <= c && c <= '?'
}

/// A control-sequence intermediate byte.
pub open spec fn is_ansi_intermediate(c: char) -> bool {
    ' ' <= c && c <= '/'
}

/// A control-sequence final byte.
pub open spec fn is_ansi_final(c: char) -> bool {
    '@' <= c && c <= '~'
}

/// Index just past the parameter bytes starting at `i`.
pub open spec fn ansi_param_end(t: Seq<char>, i: int) -> int
    decreases t.len() - i,
{
    if 0 <= i && i < t.len() && is_ansi_param(t[i]) {
        ansi_param_end(t, i + 1)
    } else {
        i
    }
}

/// Index just past the intermediate bytes starting at `i`.
pub open spec fn ansi_intermediate_end(t: Seq<char>, i: int) -> int
    decreases t.len() - i,
{
    if 0 <= i && i < t.len() && is_ansi_intermediate(t[i]) {
        ansi_intermediate_end(t, i + 1)
    } else {
        i
    }
}

/// A full terminal control sequence starts at `i`: escape, bracket,
/// parameters, intermediates, and one final byte.
pub open spec fn ansi_match_at(t: Seq<char>, i: int) -> bool {
    &&& 0 <= i
    &&& i + 2 <= t.len()
    &&& t[i] == '\u{1b}'
    &&& t[i + 1] == '['
    &&& {
        let q = ansi_intermediate_end(t, ansi_param_end(t, i + 2));
        q < t.len() && is_ansi_final(t[q])
    }
}

/// Index just past the control sequence starting at `i`.
pub open spec fn ansi_match_end(t: Seq<char>, i: int) -> int {
    ansi_intermediate_end(t, ansi_param_end(t, i + 2)) + 1
}

/// `t` from `i` on, with every control sequence removed.
pub open spec fn spec_strip_ansi(t: Seq<char>, i: int) -> Seq<char>
    decreases t.len() - i,
        via spec_strip_ansi_decreases
{
    if i < 0 || i >= t.len() {
        Seq::empty()
    } else if ansi_match_at(t, i) {
        spec_strip_ansi(t, ansi_match_end(t, i))
    } else {
        seq![t[i]] + spec_strip_ansi(t, i + 1)
    }
}

#[via_fn]
proof fn spec_strip_ansi_decreases(t: Seq<char>, i: int) {
    if 0 <= i && i < t.len() && ansi_match_at(t, i) {
        lemma_ansi_param_run_ge(t, i + 2);
        lemma_ansi_intermediate_run_ge(t, ansi_param_end(t, i + 2));
    }
}

/// The parameter run never moves backwards and stays in bounds.
proof fn lemma_ansi_param_run_ge(t: Seq<char>, i: int)
    ensures
        ansi_param_end(t, i) >= i,
        i <= t.len() ==> ansi_param_end(t, i) <= t.len(),
    decreases t.len() - i,
{
    if 0 <= i && i < t.len() && is_ansi_param(t[i]) {
        lemma_ansi_param_run_ge(t, i + 1);
    }
}

/// The intermediate run never moves backwards and stays in bounds.
proof fn lemma_ansi_intermediate_run_ge(t: Seq<char>, i: int)
    ensures
        ansi_intermediate_end(t, i) >= i,
        i <= t.len() ==> ansi_intermediate_end(t, i) <= t.len(),
    decreases t.len() - i,
{
    if 0 <= i && i < t.len() && is_ansi_intermediate(t[i]) {
        lemma_ansi_intermediate_run_ge(t, i + 1);
    }
}

/// The digit run never moves backwards and stays in bounds.
pub proof fn lemma_digit_run_ge(t: Seq<char>, i: int)
    ensures
        digit_run_end(t, i) >= i,
        i <= t.len() ==> digit_run_end(t, i) <= t.len(),
    decreases t.len() - i,
{
    if 0 <= i && i < t.len() && is_digit(t[i]) {
        lemma_digit_run_ge(t, i + 1);
    }
}

/// Every character before the end of a whitespace run is whitespace.
proof fn lemma_ws_run_prefix(t: Seq<char>, i: int)
    ensures
        ws_run_end(t, i) >= i,
        i <= t.len() ==> ws_run_end(t, i) <= t.len(),
        forall|j: int| i <= j < ws_run_end(t, i) ==> is_ws(t[j]),
    decreases t.len() - i,
{
    if 0 <= i && i < t.len() && is_ws(t[i]) {
        lemma_ws_run_prefix(t, i + 1);
    }
}

/// Index just past the parameter run, as executable code.
fn scan_ansi_params(v: &Vec<char>, i: usize) -> (e: usize)
    requires
        i <= v@.len(),
    ensures
        e == ansi_param_end(v@, i as int),
        i <= e <= v@.len(),
    decreases v@.len() - i,
{
    let mut k: usize = i;
    while k < v.len() && v[k] >= '0' && v[k] <= '?'
        invariant
            i <= k <= v@.len(),
            ansi_param_end(v@, i as int) == ansi_param_end(v@, k as int),
        decreases v@.len() - k,
    {
        k += 1;
    }
    k
}

/// Index just past the intermediate run, as executable code.
fn scan_ansi_intermediates(v: &Vec<char>, i: usize) -> (e: usize)
    requires
        i <= v@.len(),
    ensures
        e == ansi_intermediate_end(v@, i as int),
        i <= e <= v@.len(),
    decreases v@.len() - i,
{
    let mut k: usize = i;
    while k < v.len() && v[k] >= ' ' && v[k] <= '/'
        invariant
            i <= k <= v@.len(),
            ansi_intermediate_end(v@, i as int) == ansi_intermediate_end(v@, k as int),
        decreases v@.len() - k,
    {
        k += 1;
    }
    k
}

/// The characters of `s`, one by one.
pub fn str_chars(s: &str) -> (v: Vec<char>)
    ensures
        v@ == s@,
{
    let n = s.unicode_len();
    let mut v: Vec<char> = Vec::new();
    let mut i: usize = 0;
    while i < n
        invariant
            n == s@.len(),
            i <= n,
            v@ == s@.subrange(0, i as int),
        decreases n - i,
    {
        v.push(s.get_char(i));
        proof {
            assert(v@ =~= s@.subrange(0, i + 1));
        }
        i += 1;
    }
    proof {
        assert(v@ =~= s@);
    }
    v
}

/// Drop every terminal control sequence from `v`; the external
/// media-fetch tool colors its progress lines with them.
pub fn remove_ansi_codes(v: &Vec<char>) -> (r: Vec<char>)
    ensures
        r@ == spec_strip_ansi(v@, 0),
{
    let mut out: Vec<char> = Vec::new();
    let mut i: usize = 0;
    while i < v.len()
        invariant
            i <= v@.len(),
            spec_strip_ansi(v@, 0) == out@ + spec_strip_ansi(v@, i as int),
        decreases v@.len() - i,
    {
        let mut matched: bool = false;
        let mut skip_to: usize = 0;
        if v[i] == '\u{1b}' && i + 1 < v.len() && v[i + 1] == '[' {
            let p = scan_ansi_params(v, i + 2);
            let q = scan_ansi_intermediates(v, p);
            if q < v.len() && v[q] >= '@' && v[q] <= '~' {
                matched = true;
                skip_to = q + 1;
            }
        }
        if matched {
            assert(ansi_match_at(v@, i as int));
            i = skip_to;
        } else {
            assert(!ansi_match_at(v@, i as int));
            let ghost out_pre = out@;
            out.push(v[i]);
            proof {
                assert(out@ + spec_strip_ansi(v@, i + 1) =~= out_pre + (seq![v@[i as int]]
                    + spec_strip_ansi(v@, i + 1)));
            }
            i += 1;
        }
    }
    proof {
        assert(out@ + spec_strip_ansi(v@, i as int) =~= out@);
    }
    out
}

/// `pat` closes `t`.
pub open spec fn spec_ends_with(t: Seq<char>, pat: Seq<char>) -> bool {
    t.len() >= pat.len() && t.subrange(t.len() - pat.len(), t.len() as int) =~= pat
}

/// `t` with every suffix copy of `pat` removed.
pub open spec fn spec_strip_all_suffix(t: Seq<char>, pat: Seq<char>) -> Seq<char>
    decreases t.len(),
{
    if pat.len() > 0 && spec_ends_with(t, pat) {
        spec_strip_all_suffix(t.subrange(0, t.len() - pat.len()), pat)
    } else {
        t
    }
}

/// Index just past the last non-whitespace character before `i`.
pub open spec fn spec_trim_back(t: Seq<char>, i: int) -> int
    decreases i,
{
    if 0 < i <= t.len() && is_ws(t[i - 1]) {
        spec_trim_back(t, i - 1)
    } else {
        i
    }
}

/// `t` without leading or trailing whitespace.
pub open spec fn spec_trim(t: Seq<char>) -> Seq<char> {
    let from = ws_run_end(t, 0);
    let to = spec_trim_back(t, t.len() as int);
    if from <= to {
        t.subrange(from, to)
    } else {
        Seq::empty()
    }
}

/// A plain decimal number: digits, optionally a dot and further digits,
/// with at least one digit in all.
pub open spec fn spec_decimal_ok(t: Seq<char>) -> bool {
    let d = digit_run_end(t, 0);
    if d == t.len() {
        d > 0
    } else if t[d] == '.' {
        digit_run_end(t, d + 1) == t.len() && (d > 0 || t.len() > d + 1)
    } else {
        false
    }
}

/// The truncated value of a decimal number: its integer part.
pub open spec fn spec_decimal_val(t: Seq<char>) -> nat {
    digits_val(t, 0, digit_run_end(t, 0))
}

/// How a size word reads in bytes, mirroring the size parser: the
/// number's integer part times the named binary unit; an unreadable
/// number counts 1; units other than the mebi and gibi ones leave an
/// unreadable number behind and so count one mebi unit.
pub open spec fn spec_parse_size(t: Seq<char>) -> nat {
    let l = lower_seq(spec_trim(t));
    if spec_ends_with(l, "mib"@) {
        spec_size_base(spec_strip_all_suffix(l, "mib"@)) * (BYTES_MI as nat)
    } else if spec_ends_with(l, "mb"@) {
        spec_size_base(spec_strip_all_suffix(l, "mb"@)) * (BYTES_MI as nat)
    } else if spec_ends_with(l, "gib"@) {
        spec_size_base(spec_strip_all_suffix(l, "gib"@)) * (BYTES_GI as nat)
    } else if spec_ends_with(l, "gb"@) {
        spec_size_base(spec_strip_all_suffix(l, "gb"@)) * (BYTES_GI as nat)
    } else {
        spec_size_base(spec_strip_all_suffix(l, "b"@)) * (BYTES_MI as nat)
    }
}

/// The bare number of a size word; 1 when it does not read as one.
pub open spec fn spec_size_base(t: Seq<char>) -> nat {
    if spec_decimal_ok(t) {
        spec_decimal_val(t)
    } else {
        1
    }
}

/// Index just past the digit run starting at `i`, as executable code.
fn scan_digits_vec(v: &Vec<char>, i: usize) -> (e: usize)
    requires
        i <= v@.len(),
    ensures
        e == digit_run_end(v@, i as int),
        i <= e <= v@.len(),
        forall|j: int| i <= j < e ==> is_digit(v@[j]),
    decreases v@.len() - i,
{
    let mut k: usize = i;
    while k < v.len() && v[k] >= '0' && v[k] <= '9'
        invariant
            i <= k <= v@.len(),
            digit_run_end(v@, i as int) == digit_run_end(v@, k as int),
            forall|j: int| i <= j < k ==> is_digit(v@[j]),
        decreases v@.len() - k,
    {
        k += 1;
    }
    k
}

/// The value of the digit run `v[from..end)`, clipped into `u64`.
fn digits_value_sat(v: &Vec<char>, from: usize, end: usize) -> (r: u64)
    requires
        from <= end <= v@.len(),
        forall|j: int| from <= j < end ==> is_digit(v@[j]),
    ensures
        r == sat64(digits_val(v@, from as int, end as int)),
{
    let mut acc: u64 = 0;
    let mut k: usize = from;
    while k < end
        invariant
            from <= k <= end <= v@.len(),
            forall|j: int| from <= j < end ==> is_digit(v@[j]),
            acc == sat64(digits_val(v@, from as int, k as int)),
        decreases end - k,
    {
        let c = v[k];
        assert(is_digit(v@[k as int]));
        let d: u64 = (c as u32 as u64) - 48;
        if acc > (u64::MAX - d) / 10 {
            proof {
                assert(acc * 10 + d > u64::MAX) by (nonlinear_arith)
                    requires
                        acc > (u64::MAX - d) / 10,
                        d <= 9,
                ;
                crate::text::lemma_digits_val_mono(v@, from as int, k + 1, end as int);
                assert(digits_val(v@, from as int, (k + 1) as int) >= acc * 10 + d) by {
                    assert(digits_val(v@, from as int, (k + 1) as int) == digits_val(
                        v@,
                        from as int,
                        k as int,
                    ) * 10 + crate::text::digit_val(v@[k as int]));
                    assert(digits_val(v@, from as int, k as int) >= acc);
                    assert(digits_val(v@, from as int, k as int) * 10 >= acc * 10)
                        by (nonlinear_arith)
                        requires
                            digits_val(v@, from as int, k as int) >= acc,
                    ;
                };
            }
            return u64::MAX;
        }
        proof {
            assert(acc * 10 + d <= u64::MAX) by (nonlinear_arith)
                requires
                    acc <= (u64::MAX - d) / 10,
                    d <= 9,
            ;
        }
        acc = acc * 10 + d;
        k += 1;
    }
    acc
}

/// Read the size word held in `v` and give its byte count, clipped
/// into `u64`.
pub fn parse_size_chars(v: &Vec<char>) -> (r: u64)
    ensures
        r == sat64(spec_parse_size(v@)),
{
    // Trim, lower-casing as we go.
    let n = v.len();
    let mut from: usize = 0;
    while from < n && (v[from] == ' ' || v[from] == '\t' || v[from] == '\n' || v[from] == '\r')
        invariant
            n == v@.len(),
            from <= n,
            ws_run_end(v@, 0) == ws_run_end(v@, from as int),
        decreases n - from,
    {
        from += 1;
    }
    let mut to: usize = n;
    while to > from && (v[to - 1] == ' ' || v[to - 1] == '\t' || v[to - 1] == '\n' || v[to - 1]
        == '\r')
        invariant
            n == v@.len(),
            from <= to <= n,
            from == ws_run_end(v@, 0),
            spec_trim_back(v@, n as int) == spec_trim_back(v@, to as int),
        decreases to,
    {
        to -= 1;
    }
    proof {
        lemma_ws_run_prefix(v@, 0);
        if to == from {
            lemma_trim_back_through_ws(v@, from as int);
        }
        assert(v@.subrange(from as int, to as int) =~= spec_trim(v@));
    }
    let mut l: Vec<char> = Vec::new();
    let mut k: usize = from;
    while k < to
        invariant
            from <= k <= to <= v@.len(),
            l@ == lower_seq(v@.subrange(from as int, to as int)).subrange(0, k - from),
        decreases to - k,
    {
        let c = v[k];
        let low = if c >= 'A' && c <= 'Z' {
            ((c as u8) + 32) as char
        } else {
            c
        };
        assert(low == lower_char(v@[k as int]));
        l.push(low);
        proof {
            assert(l@ =~= lower_seq(v@.subrange(from as int, to as int)).subrange(
                0,
                k + 1 - from,
            ));
        }
        k += 1;
    }
    proof {
        assert(l@ =~= lower_seq(spec_trim(v@)));
    }
    // Choose the unit by the suffix, then strip every copy of it and
    // read the number that is left.
    proof {
        reveal_strlit("mib");
        reveal_strlit("mb");
        reveal_strlit("gib");
        reveal_strlit("gb");
        reveal_strlit("b");
        assert(l@.subrange(0, l@.len() as int) =~= l@);
    }
    let (base, mult): (u64, u64) = if vec_ends_with(&l, l.len(), "mib") {
        (strip_and_base(&l, "mib"), BYTES_MI)
    } else if vec_ends_with(&l, l.len(), "mb") {
        (strip_and_base(&l, "mb"), BYTES_MI)
    } else if vec_ends_with(&l, l.len(), "gib") {
        (strip_and_base(&l, "gib"), BYTES_GI)
    } else if vec_ends_with(&l, l.len(), "gb") {
        (strip_and_base(&l, "gb"), BYTES_GI)
    } else {
        (strip_and_base(&l, "b"), BYTES_MI)
    };
    // Scale by the unit, clipping.
    if base > u64::MAX / mult {
        proof {
            assert(base * mult > u64::MAX) by (nonlinear_arith)
                requires
                    base > u64::MAX / mult,
                    1 <= mult <= u64::MAX,
            ;
            lemma_sat_mul(spec_size_base_of(l@), base as nat, mult as nat);
        }
        u64::MAX
    } else {
        proof {
            assert(base * mult <= u64::MAX) by (nonlinear_arith)
                requires
                    base <= u64::MAX / mult,
                    1 <= mult <= u64::MAX,
            ;
            lemma_sat_mul(spec_size_base_of(l@), base as nat, mult as nat);
        }
        base * mult
    }
}

/// The bare number of the lowered, trimmed size word, after its own
/// unit suffix is stripped.
spec fn spec_size_base_of(l: Seq<char>) -> nat {
    if spec_ends_with(l, "mib"@) {
        spec_size_base(spec_strip_all_suffix(l, "mib"@))
    } else if spec_ends_with(l, "mb"@) {
        spec_size_base(spec_strip_all_suffix(l, "mb"@))
    } else if spec_ends_with(l, "gib"@) {
        spec_size_base(spec_strip_all_suffix(l, "gib"@))
    } else if spec_ends_with(l, "gb"@) {
        spec_size_base(spec_strip_all_suffix(l, "gb"@))
    } else {
        spec_size_base(spec_strip_all_suffix(l, "b"@))
    }
}

/// Trimming from the right passes through a whitespace prefix.
proof fn lemma_trim_back_through_ws(t: Seq<char>, i: int)
    requires
        0 <= i <= t.len(),
        forall|j: int| 0 <= j < i ==> is_ws(t[j]),
    ensures
        spec_trim_back(t, i) == 0,
    decreases i,
{
    if i > 0 {
        lemma_trim_back_through_ws(t, i - 1);
    }
}

/// Strip every copy of `pat` from the end of `l`, then read the bare
/// number that remains, clipped into `u64`.
fn strip_and_base(l: &Vec<char>, pat: &str) -> (base: u64)
    requires
        pat@.len() >= 1,
    ensures
        base == sat64(spec_size_base(spec_strip_all_suffix(l@, pat@))),
{
    let plen = pat.unicode_len();
    let mut end: usize = l.len();
    proof {
        assert(l@.subrange(0, l@.len() as int) =~= l@);
    }
    while vec_ends_with(l, end, pat)
        invariant
            end <= l@.len(),
            plen == pat@.len(),
            plen >= 1,
            spec_strip_all_suffix(l@, pat@) == spec_strip_all_suffix(
                l@.subrange(0, end as int),
                pat@,
            ),
        decreases end,
    {
        proof {
            let cur = l@.subrange(0, end as int);
            assert(cur.subrange(0, cur.len() - pat@.len()) =~= l@.subrange(
                0,
                end - pat@.len(),
            ));
        }
        end = end - plen;
    }
    let num_end = end;
    let ghost num = l@.subrange(0, num_end as int);
    proof {
        assert(spec_strip_all_suffix(l@, pat@) == num);
    }
    // Read the bare number: digits, optionally a dot and digits.
    let d = scan_digits_vec(l, 0);
    proof {
        lemma_digit_run_ge(l@, 0);
        lemma_digit_run_prefix(l@, num_end as int, 0);
    }
    if d >= num_end {
        if num_end > 0 {
            proof {
                assert(digit_run_end(num, 0) == num_end);
                assert(spec_decimal_ok(num));
                lemma_digits_prefix_val(l@, num_end as int, 0);
            }
            digits_value_sat(l, 0, num_end)
        } else {
            proof {
                assert(!spec_decimal_ok(num));
            }
            1
        }
    } else if l[d] == '.' {
        let f = scan_digits_vec(l, d + 1);
        proof {
            lemma_digit_run_ge(l@, d + 1);
            lemma_digit_run_prefix(l@, num_end as int, d + 1);
            assert(digit_run_end(num, 0) == d);
            assert(num[d as int] == '.');
        }
        if f >= num_end && (d > 0 || num_end > d + 1) {
            proof {
                assert(digit_run_end(num, d + 1) == num_end);
                assert(spec_decimal_ok(num));
                lemma_digits_prefix_val(l@, num_end as int, 0);
            }
            digits_value_sat(l, 0, d)
        } else {
            proof {
                assert(digit_run_end(num, d + 1) == if f > num_end as int {
                    num_end as int
                } else {
                    f as int
                });
                assert(!spec_decimal_ok(num));
            }
            1
        }
    } else {
        proof {
            assert(!spec_decimal_ok(num));
        }
        1
    }
}

/// Clipping commutes with the unit scaling.
proof fn lemma_sat_mul(value: nat, clipped: nat, mult: nat)
    requires
        clipped == sat64(value),
        1 <= mult <= u64::MAX,
    ensures
        sat64(clipped * mult) == sat64(value * mult),
{
    if value > u64::MAX {
        assert(clipped == u64::MAX);
        assert(value * mult >= value * 1) by (nonlinear_arith)
            requires
                mult >= 1,
                value >= 0,
        ;
        assert(clipped * mult >= clipped * 1) by (nonlinear_arith)
            requires
                mult >= 1,
                clipped >= 0,
        ;
    }
}

/// A digit run confined below `cut` agrees with the run in the prefix.
proof fn lemma_digit_run_prefix(t: Seq<char>, cut: int, i: int)
    requires
        0 <= i <= cut <= t.len(),
    ensures
        digit_run_end(t.subrange(0, cut), i) == if digit_run_end(t, i) > cut {
            cut
        } else {
            digit_run_end(t, i)
        },
    decreases t.len() - i,
{
    lemma_digit_run_ge(t, i);
    if i < cut {
        assert(t.subrange(0, cut)[i] == t[i]);
        if is_digit(t[i]) {
            lemma_digit_run_prefix(t, cut, i + 1);
        }
    }
}

/// Digit values agree between a sequence and its prefix.
proof fn lemma_digits_prefix_val(t: Seq<char>, cut: int, from: int)
    ensures
        forall|to: int|
            #![auto]
            from <= to <= cut <= t.len() && 0 <= from ==> digits_val(t.subrange(0, cut), from, to)
                == digits_val(t, from, to),
{
    assert forall|to: int|
        from <= to <= cut <= t.len() && 0 <= from implies #[trigger] digits_val(
        t.subrange(0, cut),
        from,
        to,
    ) == digits_val(t, from, to) by {
        lemma_digits_prefix_val_one(t, cut, from, to);
    }
}

proof fn lemma_digits_prefix_val_one(t: Seq<char>, cut: int, from: int, to: int)
    requires
        0 <= from <= to <= cut <= t.len(),
    ensures
        digits_val(t.subrange(0, cut), from, to) == digits_val(t, from, to),
    decreases to - from,
{
    if from < to {
        lemma_digits_prefix_val_one(t, cut, from, to - 1);
    }
}

/// Whether `pat` closes the first `end` characters of `v`.
fn vec_ends_with(v: &Vec<char>, end: usize, pat: &str) -> (b: bool)
    requires
        end <= v@.len(),
    ensures
        b == spec_ends_with(v@.subrange(0, end as int), pat@),
{
    let plen = pat.unicode_len();
    if plen > end {
        return false;
    }
    let base = end - plen;
    let mut k: usize = 0;
    while k < plen
        invariant
            plen == pat@.len(),
            plen <= end <= v@.len(),
            base == end - plen,
            k <= plen,
            forall|j: int| 0 <= j < k ==> v@[base + j] == pat@[j],
        decreases plen - k,
    {
        if v[base + k] != pat.get_char(k) {
            assert(v@.subrange(0, end as int).subrange((end - plen) as int, end as int)[k as int]
                != pat@[k as int]);
            return false;
        }
        k += 1;
    }
    assert(v@.subrange(0, end as int).subrange((end - plen) as int, end as int) =~= pat@);
    true
}

/// Read a size word such as the progress lines carry and give its byte
/// count: the number's integer part times its binary unit, 1 for an
/// unreadable number, clipped into `u64`.
pub fn parse_size_string(s: &str) -> (r: u64)
    ensures
        r == sat64(spec_parse_size(s@)),
{
    let v = str_chars(s);
    parse_size_chars(&v)
}

/// A percent reading starts at `i`: digits, optionally a dot and more
/// digits, then the percent sign.
pub open spec fn pct_match_at(t: Seq<char>, i: int) -> bool {
    let d = digit_run_end(t, i);
    &&& 0 <= i
    &&& d > i
    &&& d < t.len()
    &&& (t[d] == '%' || (t[d] == '.' && {
        let f = digit_run_end(t, d + 1);
        f < t.len() && t[f] == '%'
    }))
}

/// The index of the percent sign of the reading at `i`.
pub open spec fn pct_end(t: Seq<char>, i: int) -> int {
    let d = digit_run_end(t, i);
    if d < t.len() && t[d] == '%' {
        d
    } else {
        digit_run_end(t, d + 1)
    }
}

/// The reading's value in tenths of a percent: the integer part times
/// ten plus the first fractional digit.
pub open spec fn pct_tenths(t: Seq<char>, i: int) -> nat {
    let d = digit_run_end(t, i);
    digits_val(t, i, d) * 10 + (if d < t.len() && t[d] == '.' && digit_run_end(t, d + 1) > d + 1 {
        crate::text::digit_val(t[d + 1])
    } else {
        0
    })
}

/// The first percent reading at or after `i`.
pub open spec fn pct_scan(t: Seq<char>, i: int) -> Option<int>
    decreases t.len() - i,
{
    if i < 0 || i >= t.len() {
        None
    } else if pct_match_at(t, i) {
        Some(i)
    } else {
        pct_scan(t, i + 1)
    }
}

/// Index past a size word starting at `i`: digits, an optional dot and
/// digits, an optional binary-unit letter, an optional `i`, then `B`.
pub open spec fn size_token_end(t: Seq<char>, i: int) -> Option<int> {
    let d = digit_run_end(t, i);
    if i < 0 || d == i {
        None
    } else {
        let f = if d < t.len() && t[d] == '.' {
            digit_run_end(t, d + 1)
        } else {
            d
        };
        let u = if f < t.len() && (t[f] == 'K' || t[f] == 'M' || t[f] == 'G' || t[f] == 'T') {
            f + 1
        } else {
            f
        };
        let w = if u < t.len() && t[u] == 'i' {
            u + 1
        } else {
            u
        };
        if w < t.len() && t[w] == 'B' {
            Some(w + 1)
        } else {
            None
        }
    }
}

/// Start of the size word that follows the percent sign at `e`:
/// whitespace, the word `of`, whitespace, an optional tilde, the word.
pub open spec fn of_size_start(t: Seq<char>, e: int) -> Option<int> {
    let a = e + 1;
    let w = ws_run_end(t, a);
    if w > a && w + 2 <= t.len() && t[w] == 'o' && t[w + 1] == 'f' {
        let a2 = w + 2;
        let w2 = ws_run_end(t, a2);
        if w2 > a2 && w2 < t.len() {
            let s0: int = if t[w2] == '~' {
                w2 + 1
            } else {
                w2
            };
            if size_token_end(t, s0) is Some {
                Some(s0)
            } else {
                None
            }
        } else {
            None
        }
    } else {
        None
    }
}

/// A full download progress line matches at `i`: the fetch tool's tag,
/// whitespace, a percent reading, and the size it is a share of.
pub open spec fn dl_match_at(t: Seq<char>, i: int) -> bool {
    &&& crate::text::occurs_at(t, "[download]"@, i)
    &&& {
        let a = i + 10;
        let w = ws_run_end(t, a);
        w > a && pct_match_at(t, w) && of_size_start(t, pct_end(t, w)) is Some
    }
}

/// The first full progress match at or after `i`.
pub open spec fn dl_scan(t: Seq<char>, i: int) -> Option<int>
    decreases t.len() - i,
{
    if i < 0 || i >= t.len() {
        None
    } else if dl_match_at(t, i) {
        Some(i)
    } else {
        dl_scan(t, i + 1)
    }
}

/// What one cleaned output line of the fetch tool reports: the percent
/// (in tenths) and the total size in bytes. A full tagged line carries
/// its own size; a bare percent reading counts against the default
/// size; a line with neither reports nothing.
pub open spec fn spec_parse_progress(t: Seq<char>) -> Option<(nat, nat)> {
    match dl_scan(t, 0) {
        Some(i) => {
            let w = ws_run_end(t, i + 10);
            let s0 = of_size_start(t, pct_end(t, w))->0;
            let s1 = size_token_end(t, s0)->0;
            Some((pct_tenths(t, w), spec_parse_size(t.subrange(s0, s1))))
        },
        None => match pct_scan(t, 0) {
            Some(i) => Some((pct_tenths(t, i), DEFAULT_PROGRESS_SIZE as nat)),
            None => None,
        },
    }
}

/// Index just past the whitespace run, as executable code.
fn scan_ws(v: &Vec<char>, i: usize) -> (e: usize)
    requires
        i <= v@.len(),
    ensures
        e == ws_run_end(v@, i as int),
        i <= e <= v@.len(),
{
    let mut k: usize = i;
    while k < v.len() && (v[k] == ' ' || v[k] == '\t' || v[k] == '\n' || v[k] == '\r')
        invariant
            i <= k <= v@.len(),
            ws_run_end(v@, i as int) == ws_run_end(v@, k as int),
        decreases v@.len() - k,
    {
        k += 1;
    }
    k
}

/// Whether `pat` occurs in `v` at position `i`, as executable code.
fn vec_occurs_at(v: &Vec<char>, i: usize, pat: &str) -> (b: bool)
    requires
        i <= v@.len(),
    ensures
        b == crate::text::occurs_at(v@, pat@, i as int),
{
    let plen = pat.unicode_len();
    let n = v.len();
    if plen > n - i {
        return false;
    }
    let mut k: usize = 0;
    while k < plen
        invariant
            plen == pat@.len(),
            v@.len() <= usize::MAX,
            i + plen <= v@.len(),
            k <= plen,
            forall|j: int| 0 <= j < k ==> v@[i + j] == pat@[j],
        decreases plen - k,
    {
        if v[i + k] != pat.get_char(k) {
            assert(v@.subrange(i as int, i + pat@.len())[k as int] != pat@[k as int]);
            return false;
        }
        k += 1;
    }
    assert(v@.subrange(i as int, i + pat@.len()) =~= pat@);
    true
}

/// Clipping commutes with forming the tenths value.
proof fn lemma_sat_tenths(value: nat, clipped: nat, frac: nat)
    requires
        clipped == sat64(value),
        frac <= 9,
    ensures
        clipped > (u64::MAX - frac) / 10 ==> sat64(value * 10 + frac) == u64::MAX,
        clipped <= (u64::MAX - frac) / 10 ==> sat64(value * 10 + frac) == clipped * 10 + frac,
{
    if value > u64::MAX {
        assert(clipped == u64::MAX);
        assert(u64::MAX > (u64::MAX - frac) / 10) by (nonlinear_arith)
            requires
                frac <= 9,
        ;
        assert(value * 10 + frac > u64::MAX) by (nonlinear_arith)
            requires
                value > u64::MAX,
        ;
    } else {
        assert(clipped == value);
        if clipped > (u64::MAX - frac) / 10 {
            assert(value * 10 + frac > u64::MAX) by (nonlinear_arith)
                requires
                    value > (u64::MAX - frac) / 10,
                    frac <= 9,
            ;
        } else {
            assert(value * 10 + frac <= u64::MAX) by (nonlinear_arith)
                requires
                    value <= (u64::MAX - frac) / 10,
                    frac <= 9,
            ;
        }
    }
}

/// The percent reading at `i`, if any: its value in tenths (clipped)
/// and the index of its percent sign.
fn pct_try_at(v: &Vec<char>, i: usize) -> (r: Option<(u64, usize)>)
    requires
        i <= v@.len(),
    ensures
        (r is Some) == pct_match_at(v@, i as int),
        match r {
            Some((tn, e)) => tn == sat64(pct_tenths(v@, i as int)) && e == pct_end(v@, i as int)
                && e < v@.len(),
            None => true,
        },
{
    let d = scan_digits_vec(v, i);
    if d == i || d >= v.len() {
        return None;
    }
    if v[d] == '%' {
        let iv = digits_value_sat(v, i, d);
        proof {
            lemma_sat_tenths(digits_val(v@, i as int, d as int), iv as nat, 0);
        }
        let tn = if iv > u64::MAX / 10 {
            u64::MAX
        } else {
            iv * 10
        };
        Some((tn, d))
    } else if v[d] == '.' {
        let f = scan_digits_vec(v, d + 1);
        if f < v.len() && v[f] == '%' {
            let frac: u64 = if f > d + 1 {
                (v[d + 1] as u32 as u64) - 48
            } else {
                0
            };
            let iv = digits_value_sat(v, i, d);
            proof {
                lemma_sat_tenths(digits_val(v@, i as int, d as int), iv as nat, frac as nat);
            }
            let tn = if iv > (u64::MAX - frac) / 10 {
                u64::MAX
            } else {
                iv * 10 + frac
            };
            Some((tn, f))
        } else {
            None
        }
    } else {
        None
    }
}

/// Index past the size word at `i`, if one stands there.
fn size_token_try(v: &Vec<char>, i: usize) -> (r: Option<usize>)
    requires
        i <= v@.len(),
    ensures
        match r {
            Some(e) => size_token_end(v@, i as int) == Some(e as int) && i < e <= v@.len(),
            None => size_token_end(v@, i as int) is None,
        },
{
    let d = scan_digits_vec(v, i);
    if d == i {
        return None;
    }
    let f = if d < v.len() && v[d] == '.' {
        scan_digits_vec(v, d + 1)
    } else {
        d
    };
    let u = if f < v.len() && (v[f] == 'K' || v[f] == 'M' || v[f] == 'G' || v[f] == 'T') {
        f + 1
    } else {
        f
    };
    let w = if u < v.len() && v[u] == 'i' {
        u + 1
    } else {
        u
    };
    if w < v.len() && v[w] == 'B' {
        Some(w + 1)
    } else {
        None
    }
}

/// Start of the size word after the percent sign at `e`, if the line
/// carries one.
fn of_size_try(v: &Vec<char>, e: usize) -> (r: Option<usize>)
    requires
        e < v@.len(),
    ensures
        match r {
            Some(s0) => of_size_start(v@, e as int) == Some(s0 as int) && s0 < v@.len(),
            None => of_size_start(v@, e as int) is None,
        },
{
    let n = v.len();
    let a = e + 1;
    let w = scan_ws(v, a);
    if !(w > a && w <= n - 2 && v[w] == 'o' && v[w + 1] == 'f') {
        return None;
    }
    let a2 = w + 2;
    let w2 = scan_ws(v, a2);
    if !(w2 > a2 && w2 < v.len()) {
        return None;
    }
    let s0 = if v[w2] == '~' {
        w2 + 1
    } else {
        w2
    };
    if s0 > v.len() {
        return None;
    }
    match size_token_try(v, s0) {
        Some(_) => Some(s0),
        None => None,
    }
}

/// Whether a full progress match starts at `i`.
fn dl_try_at(v: &Vec<char>, i: usize) -> (b: bool)
    requires
        i <= v@.len(),
    ensures
        b == dl_match_at(v@, i as int),
{
    proof {
        reveal_strlit("[download]");
    }
    if !vec_occurs_at(v, i, "[download]") {
        return false;
    }
    let n = v.len();
    let a = i + 10;
    let w = scan_ws(v, a);
    if w == a {
        return false;
    }
    match pct_try_at(v, w) {
        None => false,
        Some((_, e)) => match of_size_try(v, e) {
            None => false,
            Some(_) => true,
        },
    }
}

/// Read one raw output line of the external fetch tool: strip its
/// terminal control sequences, then take the percent it reports (in
/// tenths, clipped) and the size in bytes it counts against — the
/// line's own size word on a fully tagged line, the default size for a
/// bare percent reading — or nothing when no percent stands in it.
pub fn parse_progress_line(line: &str) -> (r: Option<(u64, u64)>)
    ensures
        match spec_parse_progress(spec_strip_ansi(line@, 0)) {
            Some((tn, sz)) => r == Some((sat64(tn), sat64(sz))),
            None => r is None,
        },
{
    let raw = str_chars(line);
    let v = remove_ansi_codes(&raw);
    let n = v.len();
    let mut i: usize = 0;
    while i < n
        invariant
            v@ == spec_strip_ansi(line@, 0),
            n == v@.len(),
            i <= n,
            dl_scan(v@, 0) == dl_scan(v@, i as int),
        decreases n - i,
    {
        if dl_try_at(&v, i) {
            let w = scan_ws(&v, i + 10);
            proof {
                reveal_strlit("[download]");
            }
            let pct = pct_try_at(&v, w);
            match pct {
                Some((tn, e)) => {
                    match of_size_try(&v, e) {
                        Some(s0) => {
                            match size_token_try(&v, s0) {
                                Some(s1) => {
                                    let mut token: Vec<char> = Vec::new();
                                    let mut k: usize = s0;
                                    while k < s1
                                        invariant
                                            s0 <= k <= s1 <= v@.len(),
                                            token@ == v@.subrange(s0 as int, k as int),
                                        decreases s1 - k,
                                    {
                                        token.push(v[k]);
                                        proof {
                                            assert(token@ =~= v@.subrange(s0 as int, k + 1));
                                        }
                                        k += 1;
                                    }
                                    let size = parse_size_chars(&token);
                                    return Some((tn, size));
                                },
                                None => {
                                    proof {
                                        assert(false);
                                    }
                                },
                            }
                        },
                        None => {
                            proof {
                                assert(false);
                            }
                        },
                    }
                },
                None => {
                    proof {
                        assert(false);
                    }
                },
            }
        }
        i += 1;
    }
    let mut j: usize = 0;
    while j < n
        invariant
            v@ == spec_strip_ansi(line@, 0),
            n == v@.len(),
            j <= n,
            dl_scan(v@, 0) is None,
            pct_scan(v@, 0) == pct_scan(v@, j as int),
        decreases n - j,
    {
        match pct_try_at(&v, j) {
            Some((tn, _)) => {
                return Some((tn, DEFAULT_PROGRESS_SIZE));
            },
            None => {},
        }
        j += 1;
    }
    None
}

} // verus!
