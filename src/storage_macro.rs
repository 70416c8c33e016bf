//! Storage macros: a key segment holding `$` (such as `$chunk`, `$redis`,
//! `$fs`) routes the entry to another storage backend. The key name is cut
//! around the last such segment.
use vstd::prelude::*;
use vstd::string::*;
use crate::key_path::{find_last_char, last_index_of, lemma_last_index_bounds};
use crate::text::str_eq;

verus! {

/// The index of the first `c` in `s` at or after `from`, or `s.len()`.
pub open spec fn next_index_of(s: Seq<char>, c: char, from: int) -> int
    decreases s.len() - from,
{
    if from >= s.len() {
        s.len() as int
    } else if s[from] == c {
        from
    } else {
        next_index_of(s, c, from + 1)
    }
}

/// The last key segment that holds a `$`, or nothing.
pub open spec fn macro_segment(s: Seq<char>) -> Seq<char> {
    let p = last_index_of(s, '$');
    if p < 0 {
        Seq::empty()
    } else {
        s.subrange(last_index_of(s.subrange(0, p), ':') + 1, next_index_of(s, ':', p))
    }
}

pub open spec fn occurs_at(s: Seq<char>, pat: Seq<char>, i: int) -> bool {
    0 <= i && i + pat.len() <= s.len() && s.subrange(i, i + pat.len()) == pat
}

/// The last start at or below `k` where `pat` occurs in `s`, or -1.
pub open spec fn last_occurrence_upto(s: Seq<char>, pat: Seq<char>, k: int) -> int
    decreases k + 1,
{
    if k < 0 {
        -1
    } else if occurs_at(s, pat, k) {
        k
    } else {
        last_occurrence_upto(s, pat, k - 1)
    }
}

pub open spec fn last_occurrence(s: Seq<char>, pat: Seq<char>) -> int {
    last_occurrence_upto(s, pat, s.len() - pat.len())
}

/// `s` without any `c`.
pub open spec fn without_char(s: Seq<char>, c: char) -> Seq<char>
    decreases s.len(),
{
    if s.len() == 0 {
        s
    } else if s.last() == c {
        without_char(s.drop_last(), c)
    } else {
        without_char(s.drop_last(), c).push(s.last())
    }
}

/// The three parts of a key name around its storage macro: the text before
/// the last `:<macro segment>`, the macro's name without `$`, and the text
/// after it without one leading `:`.
pub open spec fn parse_macro_spec(s: Seq<char>) -> (Seq<char>, Seq<char>, Seq<char>) {
    let m = macro_segment(s);
    let splitter = seq![':'] + m;
    let occ = last_occurrence(s, splitter);
    let before = if occ >= 0 { s.subrange(0, occ) } else { Seq::empty() };
    let rest = if occ >= 0 { s.subrange(occ + splitter.len(), s.len() as int) } else { s };
    let after = if rest.len() > 0 && rest[0] == ':' { rest.subrange(1, rest.len() as int) } else { rest };
    (before, without_char(m, '$'), after)
}

/// A key name cut around its storage macro.
pub struct MacroKey {
    pub before: String,
    pub macro_type: String,
    pub after: String,
}

fn next_char_index(s: &str, c: char, from: usize) -> (r: usize)
    requires
        from <= s@.len(),
    ensures
        r as int == next_index_of(s@, c, from as int),
        from <= r <= s@.len(),
{
    let n = s.unicode_len();
    let mut i = from;
    while i < n
        invariant
            from <= i <= n == s@.len(),
            next_index_of(s@, c, from as int) == next_index_of(s@, c, i as int),
        decreases n - i,
    {
        if s.get_char(i) == c {
            return i;
        }
        i = i + 1;
    }
    i
}

fn last_occurrence_of(s: &str, pat: &str) -> (r: Option<usize>)
    ensures
        match r {
            Some(i) => i as int == last_occurrence(s@, pat@) && occurs_at(s@, pat@, i as int),
            None => last_occurrence(s@, pat@) == -1,
        },
{
    let n = s.unicode_len();
    let m = pat.unicode_len();
    if m > n {
        assert(last_occurrence(s@, pat@) == -1);
        return None;
    }
    let mut k: usize = n - m;
    loop
        invariant
            m <= n == s@.len(),
            m == pat@.len(),
            k <= n - m,
            last_occurrence(s@, pat@) == last_occurrence_upto(s@, pat@, k as int),
        decreases k,
    {
        if str_eq(s.substring_char(k, k + m), pat) {
            return Some(k);
        }
        assert(!occurs_at(s@, pat@, k as int));
        if k == 0 {
            assert(last_occurrence_upto(s@, pat@, -1) == -1);
            return None;
        }
        k = k - 1;
    }
}

fn remove_char(s: &str, c: char) -> (r: String)
    ensures
        r@ == without_char(s@, c),
{
    let n = s.unicode_len();
    let mut out = String::new();
    let mut i: usize = 0;
    while i < n
        invariant
            i <= n == s@.len(),
            out@ == without_char(s@.subrange(0, i as int), c),
        decreases n - i,
    {
        assert(s@.subrange(0, i + 1).drop_last() =~= s@.subrange(0, i as int));
        if s.get_char(i) != c {
            out = out.concat(s.substring_char(i, i + 1));
        }
        i = i + 1;
    }
    assert(s@.subrange(0, n as int) =~= s@);
    out
}

/// Cuts a key name around its storage macro.
pub fn parse_macro(key_name: &str) -> (r: MacroKey)
    ensures
        (r.before@, r.macro_type@, r.after@) == parse_macro_spec(key_name@),
{
    let n = key_name.unicode_len();
    proof { lemma_last_index_bounds(key_name@, '$'); }
    let segment: &str = match find_last_char(key_name, '$') {
        None => {
            proof { reveal_strlit(""); }
            ""
        },
        Some(p) => {
            let head = key_name.substring_char(0, p);
            proof { lemma_last_index_bounds(head@, ':'); }
            let start = match find_last_char(head, ':') {
                Some(c) => c + 1,
                None => 0,
            };
            let end = next_char_index(key_name, ':', p);
            key_name.substring_char(start, end)
        },
    };
    assert(segment@ == macro_segment(key_name@));
    let splitter = String::from_str(":").concat(segment);
    proof { reveal_strlit(":"); }
    assert(splitter@ =~= seq![':'] + segment@);
    let sl = splitter.unicode_len();
    let (before, rest): (&str, &str) = match last_occurrence_of(key_name, splitter.as_str()) {
        Some(o) => (key_name.substring_char(0, o), key_name.substring_char(o + sl, n)),
        None => {
            proof { reveal_strlit(""); }
            ("", key_name)
        },
    };
    let rn = rest.unicode_len();
    let after: &str = if rn > 0 && rest.get_char(0) == ':' { rest.substring_char(1, rn) } else { rest };
    MacroKey {
        before: String::from_str(before),
        macro_type: remove_char(segment, '$'),
        after: String::from_str(after),
    }
}

/// Whether `s` holds `::`.
pub open spec fn has_double_colon(s: Seq<char>) -> bool {
    exists|i: int| 0 <= i && i + 1 < s.len() && s[i] == ':' && #[trigger] s[i + 1] == ':'
}

/// The key name inside a full path `<user>::<key name>@<timestamp>`: the text
/// from two past the first `:` up to the last `@` (or the end). A name
/// without `::` is kept as it is; `None` when the last `@` comes too early.
pub open spec fn macro_key_name_spec(s: Seq<char>) -> Option<Seq<char>> {
    if has_double_colon(s) {
        let from = next_index_of(s, ':', 0) + 2;
        let to = if last_index_of(s, '@') >= 0 { last_index_of(s, '@') } else { s.len() as int };
        if from <= to { Some(s.subrange(from, to)) } else { None }
    } else {
        Some(s)
    }
}

fn find_double_colon(key: &str) -> (r: Option<usize>)
    ensures
        match r {
            Some(i) => i + 1 < key@.len() && key@[i as int] == ':' && key@[i + 1] == ':',
            None => !has_double_colon(key@),
        },
{
    let n = key.unicode_len();
    let mut i: usize = 0;
    while i + 1 < n
        invariant
            i <= n == key@.len(),
            n > 0 ==> i < n,
            forall|j: int| 0 <= j < i ==> !(key@[j] == ':' && #[trigger] key@[j + 1] == ':'),
        decreases n - i,
    {
        if key.get_char(i) == ':' && key.get_char(i + 1) == ':' {
            return Some(i);
        }
        i = i + 1;
    }
    proof {
        if has_double_colon(key@) {
            let w = choose|w: int| 0 <= w && w + 1 < key@.len() && key@[w] == ':' && #[trigger] key@[w + 1] == ':';
            assert(!(key@[w] == ':' && key@[w + 1] == ':'));
        }
    }
    None
}

/// Takes the key name out of a full path before its macro is parsed.
pub fn macro_key_name(key: &str) -> (r: Option<String>)
    ensures
        match r {
            Some(k) => macro_key_name_spec(key@) == Some(k@),
            None => macro_key_name_spec(key@) is None,
        },
{
    let n = key.unicode_len();
    let i = match find_double_colon(key) {
        Some(i) => i,
        None => return Some(String::from_str(key)),
    };
    assert(key@[i as int] == ':' && key@[i + 1] == ':');
    let first = next_char_index(key, ':', 0);
    proof { lemma_next_index_bound(key@, ':', 0, i as int); }
    let from = first + 2;
    proof { lemma_last_index_bounds(key@, '@'); }
    let to = match find_last_char(key, '@') {
        Some(a) => a,
        None => n,
    };
    if from <= to {
        Some(String::from_str(key.substring_char(from, to)))
    } else {
        None
    }
}

proof fn lemma_next_index_bound(s: Seq<char>, c: char, from: int, w: int)
    requires
        0 <= from <= w < s.len(),
        s[w] == c,
    ensures
        next_index_of(s, c, from) <= w,
    decreases w - from,
{
    if s[from] != c {
        lemma_next_index_bound(s, c, from + 1, w);
    }
}

} // verus!
