//! Versioned key paths: a key name followed by `@<timestamp>`.
use vstd::prelude::*;
use vstd::string::*;

verus! {

pub open spec fn is_digit(c: char) -> bool {
    '0' <= c && c <= '9'
}

pub open spec fn digit_value(c: char) -> int {
    c as int - '0' as int
}

pub open spec fn all_digits(s: Seq<char>) -> bool {
    forall|i: int| 0 <= i < s.len() ==> is_digit(#[trigger] s[i])
}

/// The value of a run of decimal digits, most significant first.
pub open spec fn digits_value(s: Seq<char>) -> int
    decreases s.len(),
{
    if s.len() == 0 {
        0
    } else {
        digits_value(s.drop_last()) * 10 + digit_value(s.last())
    }
}

/// A decimal numeral with an optional leading sign, read as an integer.
pub open spec fn signed_decimal(s: Seq<char>) -> Option<int> {
    if s.len() > 0 && (s[0] == '-' || s[0] == '+') {
        let d = s.subrange(1, s.len() as int);
        if d.len() > 0 && all_digits(d) {
            Some(if s[0] == '-' { -digits_value(d) } else { digits_value(d) })
        } else {
            None
        }
    } else if s.len() > 0 && all_digits(s) {
        Some(digits_value(s))
    } else {
        None
    }
}

/// Index of the last occurrence of `c` in `s`, or -1 when there is none.
pub open spec fn last_index_of(s: Seq<char>, c: char) -> int
    decreases s.len(),
{
    if s.len() == 0 {
        -1
    } else if s.last() == c {
        s.len() - 1
    } else {
        last_index_of(s.drop_last(), c)
    }
}

/// The text after the last `@` of a key path.
pub open spec fn timestamp_text(path: Seq<char>) -> Seq<char> {
    path.subrange(last_index_of(path, '@') + 1, path.len() as int)
}

pub open spec fn fits_i64(v: int) -> bool {
    i64::MIN <= v && v <= i64::MAX
}

/// The timestamp that a key path carries after its last `@`, when there is
/// one and it is a numeral that fits in 64 signed bits.
pub open spec fn path_timestamp(path: Seq<char>) -> Option<i64> {
    if last_index_of(path, '@') >= 0 {
        match signed_decimal(timestamp_text(path)) {
            Some(v) => if fits_i64(v) { Some(v as i64) } else { None },
            None => None,
        }
    } else {
        None
    }
}

pub proof fn lemma_last_index_bounds(s: Seq<char>, c: char)
    ensures
        -1 <= last_index_of(s, c) < s.len(),
        last_index_of(s, c) >= 0 ==> s[last_index_of(s, c)] == c,
        forall|j: int| last_index_of(s, c) < j < s.len() ==> s[j] != c,
    decreases s.len(),
{
    if s.len() > 0 && s.last() != c {
        let t = s.drop_last();
        lemma_last_index_bounds(t, c);
        assert forall|j: int| last_index_of(s, c) < j < s.len() implies s[j] != c by {
            if j < t.len() {
                assert(t[j] == s[j]);
            }
        }
    }
}

/// Finds the last occurrence of `c` in `s`.
pub fn find_last_char(s: &str, c: char) -> (r: Option<usize>)
    ensures
        match r {
            Some(i) => i as int == last_index_of(s@, c),
            None => last_index_of(s@, c) == -1,
        },
{
    let n = s.unicode_len();
    let mut i: usize = n;
    assert(s@.subrange(0, n as int) =~= s@);
    while i > 0
        invariant
            i <= n == s@.len(),
            last_index_of(s@, c) == last_index_of(s@.subrange(0, i as int), c),
        decreases i,
    {
        let ch = s.get_char(i - 1);
        let ghost pre = s@.subrange(0, i as int);
        if ch == c {
            return Some(i - 1);
        }
        assert(pre.drop_last() =~= s@.subrange(0, i - 1));
        i = i - 1;
    }
    assert(s@.subrange(0, 0).len() == 0);
    None
}

/// Reads the digits of `s` from index `start` on, as an unsigned magnitude no
/// larger than `limit`.
fn read_magnitude(s: &str, start: usize, limit: u64) -> (r: Option<u64>)
    requires
        start <= s@.len(),
    ensures
        match r {
            Some(v) => all_digits(s@.subrange(start as int, s@.len() as int))
                && v as int == digits_value(s@.subrange(start as int, s@.len() as int))
                && v <= limit,
            None => !all_digits(s@.subrange(start as int, s@.len() as int))
                || digits_value(s@.subrange(start as int, s@.len() as int)) > limit,
        },
{
    let n = s.unicode_len();
    let mut i: usize = start;
    let mut acc: u64 = 0;
    while i < n
        invariant
            start <= i <= n == s@.len(),
            all_digits(s@.subrange(start as int, i as int)),
            acc as int == digits_value(s@.subrange(start as int, i as int)),
            acc <= limit,
        decreases n - i,
    {
        let ch = s.get_char(i);
        let ghost done = s@.subrange(start as int, i as int);
        let ghost next = s@.subrange(start as int, i + 1);
        assert(next.drop_last() =~= done);
        if !('0' <= ch && ch <= '9') {
            proof {
                let k = i - start;
                assert(!is_digit(s@.subrange(start as int, n as int)[k]));
            }
            return None;
        }
        let d = (ch as u32 - '0' as u32) as u64;
        if d > limit || acc > (limit - d) / 10 {
            proof {
                assert(acc * 10 + d > limit) by (nonlinear_arith)
                    requires d > limit || acc > (limit - d) / 10, acc >= 0, d >= 0, limit >= 0;
                lemma_digits_monotone(s@.subrange(start as int, n as int), (i + 1 - start) as int);
                assert(s@.subrange(start as int, n as int).subrange(0, i + 1 - start) =~= next);
            }
            return None;
        }
        assert(acc * 10 + d <= limit) by (nonlinear_arith)
            requires acc <= (limit - d) / 10, d <= limit;
        acc = acc * 10 + d;
        assert(all_digits(next)) by {
            assert forall|j: int| 0 <= j < next.len() implies is_digit(#[trigger] next[j]) by {
                if j < done.len() {
                    assert(next[j] == done[j]);
                }
            }
        }
        i = i + 1;
    }
    Some(acc)
}

/// A prefix of a digit run is worth no more than the whole run.
proof fn lemma_digits_monotone(s: Seq<char>, k: int)
    requires
        0 <= k <= s.len(),
        all_digits(s.subrange(0, k)),
    ensures
        all_digits(s) ==> digits_value(s.subrange(0, k)) <= digits_value(s),
    decreases s.len() - k,
{
    if k < s.len() && all_digits(s) {
        let t = s.subrange(0, k + 1);
        assert(t.drop_last() =~= s.subrange(0, k));
        assert(all_digits(s.subrange(0, k + 1)));
        lemma_digits_monotone(s, k + 1);
        lemma_digits_nonneg(s.subrange(0, k));
        assert(is_digit(s[k]));
    } else if k == s.len() {
        assert(s.subrange(0, k) =~= s);
    }
}

proof fn lemma_digits_nonneg(s: Seq<char>)
    requires
        all_digits(s),
    ensures
        digits_value(s) >= 0,
    decreases s.len(),
{
    if s.len() > 0 {
        assert(all_digits(s.drop_last()));
        assert(is_digit(s[s.len() - 1]));
        lemma_digits_nonneg(s.drop_last());
    }
}

/// Reads the timestamp of a versioned key path, if it carries a well-formed one.
pub fn parse_path_timestamp(key_path: &str) -> (r: Option<i64>)
    ensures
        r == path_timestamp(key_path@),
{
    let n = key_path.unicode_len();
    let pos = match find_last_char(key_path, '@') {
        Some(p) => p,
        None => return None,
    };
    proof { lemma_last_index_bounds(key_path@, '@'); }
    let start = pos + 1;
    let ghost text = timestamp_text(key_path@);
    assert(text =~= key_path@.subrange(start as int, n as int));
    if start == n {
        return None;
    }
    let first = key_path.get_char(start);
    assert(text[0] == first);
    if first == '-' || first == '+' {
        if start + 1 == n {
            return None;
        }
        assert(text.subrange(1, text.len() as int) =~= key_path@.subrange(start + 1, n as int));
        let limit: u64 = if first == '-' { 0x8000_0000_0000_0000u64 } else { 0x7fff_ffff_ffff_ffffu64 };
        match read_magnitude(key_path, start + 1, limit) {
            Some(m) => {
                if first == '-' {
                    if m == 0x8000_0000_0000_0000u64 {
                        Some(i64::MIN)
                    } else {
                        Some(-(m as i64))
                    }
                } else {
                    Some(m as i64)
                }
            },
            None => None,
        }
    } else {
        match read_magnitude(key_path, start, 0x7fff_ffff_ffff_ffffu64) {
            Some(m) => Some(m as i64),
            None => None,
        }
    }
}

/// Reads the timestamp of a versioned key path known to carry one.
pub fn get_path_timestamp(key_path: &str) -> (r: i64)
    requires
        path_timestamp(key_path@).is_some(),
    ensures
        path_timestamp(key_path@) == Some(r),
{
    match parse_path_timestamp(key_path) {
        Some(t) => t,
        None => 0,
    }
}

} // verus!
