use vstd::prelude::*;

verus! {

/// An ASCII decimal digit.
pub open spec fn is_digit(c: char) -> bool {
    '0' <= c && c <= '9'
}

/// Numeric value of one decimal digit.
pub open spec fn digit_val(c: char) -> nat
    recommends
        is_digit(c),
{
    (c as nat - '0' as nat) as nat
}

/// Value of `t[from..to)` read as a decimal number, most significant digit first.
pub open spec fn digits_val(t: Seq<char>, from: int, to: int) -> nat
    decreases to - from,
{
    if from >= to {
        0
    } else {
        digits_val(t, from, to - 1) * 10 + digit_val(t[to - 1])
    }
}

/// Index just past the run of digits that starts at `i`.
pub open spec fn digit_run_end(t: Seq<char>, i: int) -> int
    decreases t.len() - i,
{
    if 0 <= i && i < t.len() && is_digit(t[i]) {
        digit_run_end(t, i + 1)
    } else {
        i
    }
}

/// `pat` occurs in `t` starting at position `i`.
pub open spec fn occurs_at(t: Seq<char>, pat: Seq<char>, i: int) -> bool {
    0 <= i && i + pat.len() <= t.len() && t.subrange(i, i + pat.len()) =~= pat
}

/// `pat` occurs somewhere in `t`.
pub open spec fn contains_seq(t: Seq<char>, pat: Seq<char>) -> bool {
    exists|i: int| occurs_at(t, pat, i)
}

/// Reading more digits never makes the value smaller.
pub proof fn lemma_digits_val_mono(t: Seq<char>, from: int, k: int, to: int)
    requires
        from <= k <= to,
    ensures
        digits_val(t, from, to) >= digits_val(t, from, k),
    decreases to - k,
{
    if k < to {
        lemma_digits_val_mono(t, from, k, to - 1);
    }
}

/// Whether `pat` occurs in `s` at character position `i`.
fn occurs_at_exec(s: &str, pat: &str, i: usize) -> (b: bool)
    requires
        s@.len() <= usize::MAX,
        i + pat@.len() <= s@.len(),
    ensures
        b == occurs_at(s@, pat@, i as int),
{
    let plen = pat.unicode_len();
    let mut k: usize = 0;
    while k < plen
        invariant
            plen == pat@.len(),
            s@.len() <= usize::MAX,
            i + plen <= s@.len(),
            k <= plen,
            forall|j: int| 0 <= j < k ==> s@[i + j] == pat@[j],
        decreases plen - k,
    {
        if s.get_char(i + k) != pat.get_char(k) {
            assert(s@[i + k] != pat@[k as int]);
            assert(!occurs_at(s@, pat@, i as int));
            return false;
        }
        k += 1;
    }
    assert(s@.subrange(i as int, i + pat@.len()) =~= pat@);
    true
}

/// Whether `pat` occurs anywhere in `s`.
pub fn contains_str(s: &str, pat: &str) -> (b: bool)
    ensures
        b == contains_seq(s@, pat@),
{
    let slen = s.unicode_len();
    let plen = pat.unicode_len();
    if plen > slen {
        assert(forall|i: int| !occurs_at(s@, pat@, i));
        return false;
    }
    let mut i: usize = 0;
    loop
        invariant
            slen == s@.len(),
            plen == pat@.len(),
            plen <= slen,
            i <= slen - plen + 1,
            forall|j: int| 0 <= j < i ==> !occurs_at(s@, pat@, j),
        decreases slen - plen + 1 - i,
    {
        if i > slen - plen {
            assert(forall|j: int| !occurs_at(s@, pat@, j));
            return false;
        }
        if occurs_at_exec(s, pat, i) {
            return true;
        }
        i += 1;
    }
}

/// Parse the decimal run `s[from..end)`; `None` when the value exceeds `u64::MAX`.
pub fn parse_digit_run(s: &str, from: usize, end: usize) -> (r: Option<u64>)
    requires
        s@.len() <= usize::MAX,
        from <= end <= s@.len(),
        forall|j: int| from <= j < end ==> is_digit(s@[j]),
    ensures
        match r {
            Some(v) => v == digits_val(s@, from as int, end as int),
            None => digits_val(s@, from as int, end as int) > u64::MAX,
        },
{
    let mut acc: u64 = 0;
    let mut k: usize = from;
    while k < end
        invariant
            s@.len() <= usize::MAX,
            from <= k <= end <= s@.len(),
            forall|j: int| from <= j < end ==> is_digit(s@[j]),
            acc == digits_val(s@, from as int, k as int),
        decreases end - k,
    {
        let c = s.get_char(k);
        assert(is_digit(s@[k as int]));
        let d: u64 = (c as u32 as u64) - 48;
        if acc > (u64::MAX - d) / 10 {
            proof {
                assert(acc * 10 + d > u64::MAX) by (nonlinear_arith)
                    requires
                        acc > (u64::MAX - d) / 10,
                        d <= 9,
                ;
                lemma_digits_val_mono(s@, from as int, k + 1, end as int);
            }
            return None;
        }
        proof {
            assert(acc * 10 + d <= u64::MAX) by (nonlinear_arith)
                requires
                    acc <= (u64::MAX - d) / 10,
                    d <= 9,
            ;
        }
        acc = acc * 10 + d;
        k += 1;
    }
    Some(acc)
}

/// Index just past the digit run starting at `i`, as executable code.
pub fn scan_digit_run(s: &str, i: usize) -> (e: usize)
    requires
        s@.len() <= usize::MAX,
        i <= s@.len(),
    ensures
        e == digit_run_end(s@, i as int),
        i <= e <= s@.len(),
        forall|j: int| i <= j < e ==> is_digit(s@[j]),
{
    let slen = s.unicode_len();
    let mut k: usize = i;
    loop
        invariant
            slen == s@.len(),
            i <= k <= slen,
            digit_run_end(s@, i as int) == digit_run_end(s@, k as int),
            forall|j: int| i <= j < k ==> is_digit(s@[j]),
        decreases slen - k,
    {
        if k == slen {
            return k;
        }
        let c = s.get_char(k);
        if c < '0' || c > '9' {
            return k;
        }
        k += 1;
    }
}

/// Whether two strings hold the same characters.
pub fn str_eq(s: &str, pat: &str) -> (b: bool)
    ensures
        b == (s@ == pat@),
{
    let slen = s.unicode_len();
    let plen = pat.unicode_len();
    if slen != plen {
        return false;
    }
    let mut k: usize = 0;
    while k < slen
        invariant
            slen == s@.len(),
            plen == pat@.len(),
            slen == plen,
            k <= slen,
            forall|j: int| 0 <= j < k ==> s@[j] == pat@[j],
        decreases slen - k,
    {
        if s.get_char(k) != pat.get_char(k) {
            return false;
        }
        k += 1;
    }
    assert(s@ =~= pat@);
    true
}

/// ASCII lower-casing of one character; all others unchanged.
pub open spec fn lower_char(c: char) -> char {
    if 'A' <= c && c <= 'Z' {
        ((c as u8) + 32) as char
    } else {
        c
    }
}

/// ASCII lower-casing of a character sequence.
pub open spec fn lower_seq(s: Seq<char>) -> Seq<char> {
    s.map_values(|c: char| lower_char(c))
}

/// Compare `s` against `pat`, lower-casing `s`'s ASCII letters first.
pub fn lower_eq(s: &str, pat: &str) -> (b: bool)
    ensures
        b == (lower_seq(s@) =~= pat@),
{
    let slen = s.unicode_len();
    let plen = pat.unicode_len();
    if slen != plen {
        return false;
    }
    let mut k: usize = 0;
    while k < slen
        invariant
            slen == s@.len(),
            plen == pat@.len(),
            slen == plen,
            k <= slen,
            forall|j: int| 0 <= j < k ==> lower_char(s@[j]) == pat@[j],
        decreases slen - k,
    {
        let c = s.get_char(k);
        let low = if c >= 'A' && c <= 'Z' {
            ((c as u8) + 32) as char
        } else {
            c
        };
        if low != pat.get_char(k) {
            assert(lower_seq(s@)[k as int] != pat@[k as int]);
            return false;
        }
        k += 1;
    }
    assert(lower_seq(s@) =~= pat@);
    true
}

} // verus!
