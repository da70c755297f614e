//! Character-sequence helpers shared by the path, name and command rules.
//!
//! Text is handled as `Vec<char>` in the computations; the specifications speak
//! of the `Seq<char>` views.

use vstd::prelude::*;

verus! {

/// ASCII lowercase of one character; other characters are unchanged.
pub open spec fn lower_char(c: char) -> char {
    if 'A' <= c && c <= 'Z' {
        ((c as u32) + 32) as char
    } else {
        c
    }
}

/// ASCII uppercase of one character; other characters are unchanged.
pub open spec fn upper_char(c: char) -> char {
    if 'a' <= c && c <= 'z' {
        ((c as u32) - 32) as char
    } else {
        c
    }
}

/// ASCII uppercase of a sequence.
pub open spec fn ascii_upper(s: Seq<char>) -> Seq<char> {
    s.map_values(|c: char| upper_char(c))
}

/// Every character is ASCII.
pub open spec fn is_ascii_text(s: Seq<char>) -> bool {
    forall|i: int| 0 <= i < s.len() ==> (#[trigger] s[i] as u32) < 128
}

/// ASCII lowercase of a sequence.
pub open spec fn ascii_lower(s: Seq<char>) -> Seq<char> {
    s.map_values(|c: char| lower_char(c))
}

/// `p` occurs in `s` starting at index `i`.
pub open spec fn occurs_at(s: Seq<char>, p: Seq<char>, i: int) -> bool {
    0 <= i && i + p.len() <= s.len() && s.subrange(i, i + p.len()) == p
}

pub open spec fn starts_with(s: Seq<char>, p: Seq<char>) -> bool {
    occurs_at(s, p, 0)
}

pub open spec fn ends_with(s: Seq<char>, p: Seq<char>) -> bool {
    occurs_at(s, p, s.len() - p.len())
}

pub open spec fn contains(s: Seq<char>, p: Seq<char>) -> bool {
    exists|i: int| occurs_at(s, p, i)
}

/// Index of the first occurrence of `p` in `s` at or after `from`, if any.
pub open spec fn first_occurrence_from(s: Seq<char>, p: Seq<char>, from: int) -> Option<int>
    decreases s.len() + 1 - from,
{
    if from < 0 || from > s.len() || from + p.len() > s.len() {
        None
    } else if occurs_at(s, p, from) {
        Some(from)
    } else {
        first_occurrence_from(s, p, from + 1)
    }
}

pub open spec fn first_occurrence(s: Seq<char>, p: Seq<char>) -> Option<int> {
    first_occurrence_from(s, p, 0)
}

/// Copies the characters of a string slice.
pub fn chars_of(s: &str) -> (v: Vec<char>)
    ensures
        v@ == s@,
{
    let mut v: Vec<char> = Vec::new();
    for c in it: s.chars()
        invariant
            v@ == it.seq().subrange(0, it.index() as int),
            it.seq() == s@,
    {
        v.push(c);
    }
    assert(v@ =~= s@);
    v
}

/// Builds a `String` from characters (`FromIterator<char>` of std).
#[verifier::external_body]
pub(crate) fn string_of(v: &[char]) -> (s: String)
    ensures
        s@ == v@,
{
    v.iter().collect()
}

/// Builds a `String` from a string slice.
pub fn string_from(s: &str) -> (r: String)
    ensures
        r@ == s@,
{
    s.to_owned()
}

/// Appends the characters of `s` to `v`.
pub fn push_str(v: &mut Vec<char>, s: &str)
    ensures
        final(v)@ == old(v)@ + s@,
{
    let w = chars_of(s);
    push_all(v, &w);
}

/// Appends `w` to `v`.
pub fn push_all(v: &mut Vec<char>, w: &[char])
    ensures
        final(v)@ == old(v)@ + w@,
{
    let ghost start = v@;
    let mut i: usize = 0;
    while i < w.len()
        invariant
            i <= w@.len(),
            v@ == start + w@.subrange(0, i as int),
        decreases w@.len() - i,
    {
        v.push(w[i]);
        i = i + 1;
        assert(v@ == start + w@.subrange(0, i as int));
    }
    assert(w@.subrange(0, w@.len() as int) =~= w@);
}

/// ASCII lowercase of one character.
pub fn lower(c: char) -> (r: char)
    ensures
        r == lower_char(c),
{
    if 'A' <= c && c <= 'Z' {
        let code: u32 = c as u32;
        let b: u8 = (code + 32) as u8;
        proof {
            assert(b as u32 == (c as u32) + 32);
        }
        b as char
    } else {
        c
    }
}

/// ASCII lowercase copy.
pub fn to_ascii_lower(s: &[char]) -> (r: Vec<char>)
    ensures
        r@ == ascii_lower(s@),
{
    let mut r: Vec<char> = Vec::new();
    let mut i: usize = 0;
    while i < s.len()
        invariant
            i <= s@.len(),
            r@ == ascii_lower(s@.subrange(0, i as int)),
        decreases s@.len() - i,
    {
        let c = lower(s[i]);
        r.push(c);
        i = i + 1;
        assert(r@ =~= ascii_lower(s@.subrange(0, i as int)));
    }
    assert(s@.subrange(0, s@.len() as int) =~= s@);
    r
}

/// Whether `p` occurs in `s` at index `i`.
pub fn matches_at(s: &[char], p: &[char], i: usize) -> (b: bool)
    ensures
        b == occurs_at(s@, p@, i as int),
{
    if i > s.len() || p.len() > s.len() - i {
        return false;
    }
    let n = s.len();
    let mut k: usize = 0;
    while k < p.len()
        invariant
            n == s@.len(),
            k <= p@.len(),
            i + p@.len() <= s@.len(),
            forall|j: int| 0 <= j < k ==> s@[i + j] == p@[j],
        decreases p@.len() - k,
    {
        assert(i + k < s@.len());
        if s[i + k] != p[k] {
            proof {
                if s@.subrange(i as int, i + p@.len()) == p@ {
                    assert(s@.subrange(i as int, i + p@.len())[k as int] == s@[i + k]);
                }
            }
            return false;
        }
        k = k + 1;
    }
    assert(s@.subrange(i as int, i + p@.len()) =~= p@);
    true
}

pub fn has_prefix(s: &[char], p: &[char]) -> (b: bool)
    ensures
        b == starts_with(s@, p@),
{
    matches_at(s, p, 0)
}

pub fn has_suffix(s: &[char], p: &[char]) -> (b: bool)
    ensures
        b == ends_with(s@, p@),
{
    if p.len() > s.len() {
        return false;
    }
    matches_at(s, p, s.len() - p.len())
}

/// First occurrence of `p` in `s`.
pub fn find(s: &[char], p: &[char]) -> (r: Option<usize>)
    ensures
        r matches Some(i) ==> first_occurrence(s@, p@) == Some(i as int),
        r is None ==> first_occurrence(s@, p@) is None,
        r is None <==> !contains(s@, p@),
{
    if p.len() > s.len() {
        proof { lemma_no_occurrence_from(s@, p@, 0); }
        return None;
    }
    let last = s.len() - p.len();
    let mut i: usize = 0;
    loop
        invariant
            last + p@.len() == s@.len(),
            i <= last,
            first_occurrence(s@, p@) == first_occurrence_from(s@, p@, i as int),
            forall|j: int| 0 <= j < i ==> !occurs_at(s@, p@, j),
        decreases last - i,
    {
        if matches_at(s, p, i) {
            return Some(i);
        }
        if i == last {
            proof { lemma_no_occurrence_from(s@, p@, i + 1); }
            return None;
        }
        i = i + 1;
    }
}

proof fn lemma_no_occurrence_from(s: Seq<char>, p: Seq<char>, from: int)
    requires
        from >= 0,
        from + p.len() > s.len(),
        forall|j: int| 0 <= j < from ==> !occurs_at(s, p, j),
    ensures
        first_occurrence_from(s, p, from) is None,
        !contains(s, p),
{
}

pub fn has_sub(s: &[char], p: &[char]) -> (b: bool)
    ensures
        b == contains(s@, p@),
{
    find(s, p).is_some()
}

/// Equality of two character sequences.
pub fn same(a: &[char], b: &[char]) -> (r: bool)
    ensures
        r == (a@ == b@),
{
    if a.len() != b.len() {
        return false;
    }
    let r = matches_at(a, b, 0);
    proof {
        if r {
            assert(a@.subrange(0, b@.len() as int) =~= a@);
        } else {
            if a@ == b@ {
                assert(a@.subrange(0, b@.len() as int) =~= a@);
            }
        }
    }
    r
}

/// Whether `a` and `b` are equal ignoring ASCII case.
pub fn eq_ignore_ascii_case(a: &[char], b: &[char]) -> (r: bool)
    ensures
        r == (ascii_lower(a@) == ascii_lower(b@)),
{
    let la = to_ascii_lower(a);
    let lb = to_ascii_lower(b);
    same(&la, &lb)
}

/// Copy of `s[from..to]`.
pub fn slice_copy(s: &[char], from: usize, to: usize) -> (r: Vec<char>)
    requires
        from <= to <= s@.len(),
    ensures
        r@ == s@.subrange(from as int, to as int),
{
    let mut r: Vec<char> = Vec::new();
    let mut i: usize = from;
    while i < to
        invariant
            from <= i <= to,
            to <= s@.len(),
            r@ == s@.subrange(from as int, i as int),
        decreases to - i,
    {
        r.push(s[i]);
        i = i + 1;
        assert(r@ =~= s@.subrange(from as int, i as int));
    }
    r
}


/// Strips every leading repetition of `p` (nothing when `p` is empty).
pub open spec fn trim_start_all(s: Seq<char>, p: Seq<char>) -> Seq<char>
    decreases s.len(),
{
    if p.len() > 0 && starts_with(s, p) {
        trim_start_all(s.subrange(p.len() as int, s.len() as int), p)
    } else {
        s
    }
}

/// Strips every trailing character that belongs to `set`.
pub open spec fn trim_end_any(s: Seq<char>, set: Seq<char>) -> Seq<char>
    decreases s.len(),
{
    if s.len() > 0 && set.contains(s.last()) {
        trim_end_any(s.drop_last(), set)
    } else {
        s
    }
}

/// Strips every leading character that belongs to `set`.
pub open spec fn trim_start_any(s: Seq<char>, set: Seq<char>) -> Seq<char>
    decreases s.len(),
{
    if s.len() > 0 && set.contains(s[0]) {
        trim_start_any(s.drop_first(), set)
    } else {
        s
    }
}

/// Replaces every occurrence of character `from` by `to`.
pub open spec fn replace_char(s: Seq<char>, from: char, to: char) -> Seq<char> {
    s.map_values(|c: char| if c == from { to } else { c })
}

/// Replaces the non-overlapping occurrences of the non-empty `from`, left to right.
pub open spec fn replace_all(s: Seq<char>, from: Seq<char>, to: Seq<char>) -> Seq<char>
    decreases s.len(),
{
    if from.len() == 0 {
        s
    } else {
        proof {
            lemma_first_occurrence(s, from);
        }
        match first_occurrence(s, from) {
            Some(i) => s.subrange(0, i) + to + replace_all(
                s.subrange(i + from.len(), s.len() as int),
                from,
                to,
            ),
            None => s,
        }
    }
}

/// Replaces the first occurrence of `from` (an empty `from` occurs at 0).
pub open spec fn replace_first(s: Seq<char>, from: Seq<char>, to: Seq<char>) -> Seq<char> {
    match first_occurrence(s, from) {
        Some(i) => s.subrange(0, i) + to + s.subrange(i + from.len(), s.len() as int),
        None => s,
    }
}

proof fn lemma_first_occurrence_in_range(s: Seq<char>, p: Seq<char>, from: int)
    ensures
        first_occurrence_from(s, p, from) matches Some(i) ==> from <= i && occurs_at(s, p, i)
            && i + p.len() <= s.len() && forall|j: int| from <= j < i ==> !occurs_at(s, p, j),
    decreases s.len() + 1 - from,
{
    if from < 0 || from > s.len() || from + p.len() > s.len() {
    } else if occurs_at(s, p, from) {
    } else {
        lemma_first_occurrence_in_range(s, p, from + 1);
    }
}

pub proof fn lemma_first_occurrence(s: Seq<char>, p: Seq<char>)
    ensures
        first_occurrence(s, p) matches Some(i) ==> 0 <= i && occurs_at(s, p, i) && i + p.len()
            <= s.len(),
{
    lemma_first_occurrence_in_range(s, p, 0);
}

pub(crate) proof fn lemma_trim_start_all_suffix(s: Seq<char>, p: Seq<char>)
    ensures
        trim_start_all(s, p).len() <= s.len(),
        trim_start_all(s, p) == s.subrange(s.len() - trim_start_all(s, p).len(), s.len() as int),
    decreases s.len(),
{
    if p.len() > 0 && starts_with(s, p) {
        let rest = s.subrange(p.len() as int, s.len() as int);
        lemma_trim_start_all_suffix(rest, p);
        assert(rest.subrange(rest.len() - trim_start_all(rest, p).len(), rest.len() as int)
            =~= s.subrange(s.len() - trim_start_all(rest, p).len(), s.len() as int));
    } else {
        assert(s.subrange(0, s.len() as int) =~= s);
    }
}

/// `s` with every leading repetition of `p` removed.
pub fn strip_prefix_all(s: &[char], p: &[char]) -> (r: Vec<char>)
    ensures
        r@ == trim_start_all(s@, p@),
{
    let n = s.len();
    let mut start: usize = 0;
    assert(s@.subrange(0, s@.len() as int) =~= s@);
    if p.len() > 0 {
        loop
            invariant
                n == s@.len(),
                start <= s@.len(),
                p@.len() > 0,
                trim_start_all(s@, p@) == trim_start_all(
                    s@.subrange(start as int, s@.len() as int),
                    p@,
                ),
            ensures
                start <= s@.len(),
                trim_start_all(s@, p@) == s@.subrange(start as int, s@.len() as int),
            decreases s@.len() - start,
        {
            let ghost rest = s@.subrange(start as int, s@.len() as int);
            if matches_at(s, p, start) {
                assert(rest.subrange(0, p@.len() as int) =~= s@.subrange(
                    start as int,
                    start + p@.len(),
                ));
                assert(rest.subrange(p@.len() as int, rest.len() as int) =~= s@.subrange(
                    start + p@.len(),
                    s@.len() as int,
                ));
                start = start + p.len();
            } else {
                proof {
                    if starts_with(rest, p@) {
                        assert(rest.subrange(0, p@.len() as int) =~= s@.subrange(
                            start as int,
                            start + p@.len(),
                        ));
                    }
                    assert(trim_start_all(rest, p@) == rest);
                }
                break;
            }
        }
    } else {
        assert(s@.subrange(0, s@.len() as int) =~= s@);
    }
    slice_copy(s, start, s.len())
}

/// `s` with every trailing character of `set` removed.
pub fn strip_suffix_any(s: &[char], set: &[char]) -> (r: Vec<char>)
    ensures
        r@ == trim_end_any(s@, set@),
{
    let mut end: usize = s.len();
    assert(s@.subrange(0, s@.len() as int) =~= s@);
    loop
        invariant
            end <= s@.len(),
            trim_end_any(s@, set@) == trim_end_any(s@.subrange(0, end as int), set@),
        ensures
            end <= s@.len(),
            trim_end_any(s@, set@) == s@.subrange(0, end as int),
        decreases end,
    {
        let ghost pre = s@.subrange(0, end as int);
        if end > 0 && char_in(s[end - 1], set) {
            assert(pre.drop_last() =~= s@.subrange(0, end - 1));
            end = end - 1;
        } else {
            assert(trim_end_any(pre, set@) == pre);
            break;
        }
    }
    slice_copy(s, 0, end)
}

/// `s` with every leading character of `set` removed.
pub fn strip_prefix_any(s: &[char], set: &[char]) -> (r: Vec<char>)
    ensures
        r@ == trim_start_any(s@, set@),
{
    let mut start: usize = 0;
    assert(s@.subrange(0, s@.len() as int) =~= s@);
    loop
        invariant
            start <= s@.len(),
            trim_start_any(s@, set@) == trim_start_any(
                s@.subrange(start as int, s@.len() as int),
                set@,
            ),
        ensures
            start <= s@.len(),
            trim_start_any(s@, set@) == s@.subrange(start as int, s@.len() as int),
        decreases s@.len() - start,
    {
        let ghost rest = s@.subrange(start as int, s@.len() as int);
        if start < s.len() && char_in(s[start], set) {
            assert(rest.drop_first() =~= s@.subrange(start + 1, s@.len() as int));
            start = start + 1;
        } else {
            assert(trim_start_any(rest, set@) == rest);
            break;
        }
    }
    slice_copy(s, start, s.len())
}

/// Whether `c` belongs to `set`.
pub fn char_in(c: char, set: &[char]) -> (b: bool)
    ensures
        b == set@.contains(c),
{
    let mut i: usize = 0;
    while i < set.len()
        invariant
            i <= set@.len(),
            forall|j: int| 0 <= j < i ==> set@[j] != c,
        decreases set@.len() - i,
    {
        if set[i] == c {
            return true;
        }
        i = i + 1;
    }
    false
}

/// `s` with every `from` character replaced by `to`.
pub fn map_char(s: &[char], from: char, to: char) -> (r: Vec<char>)
    ensures
        r@ == replace_char(s@, from, to),
{
    let mut r: Vec<char> = Vec::new();
    let mut i: usize = 0;
    while i < s.len()
        invariant
            i <= s@.len(),
            r@ == replace_char(s@.subrange(0, i as int), from, to),
        decreases s@.len() - i,
    {
        let c = s[i];
        if c == from {
            r.push(to);
        } else {
            r.push(c);
        }
        i = i + 1;
        assert(r@ =~= replace_char(s@.subrange(0, i as int), from, to));
    }
    assert(s@.subrange(0, s@.len() as int) =~= s@);
    r
}

/// `s` with every non-overlapping occurrence of the non-empty `from` replaced by `to`.
pub fn replace_seq(s: &[char], from: &[char], to: &[char]) -> (r: Vec<char>)
    requires
        from@.len() > 0,
    ensures
        r@ == replace_all(s@, from@, to@),
{
    let mut r: Vec<char> = Vec::new();
    let mut rest = slice_copy(s, 0, s.len());
    assert(rest@ =~= s@);
    assert(r@ + replace_all(rest@, from@, to@) =~= replace_all(s@, from@, to@));
    loop
        invariant
            from@.len() > 0,
            r@ + replace_all(rest@, from@, to@) == replace_all(s@, from@, to@),
        decreases rest@.len(),
    {
        proof { lemma_first_occurrence(rest@, from@); }
        let rl = rest.len();
        match find(&rest, from) {
            Some(i) => {
                assert(i + from@.len() <= rl);
                let head = slice_copy(&rest, 0, i);
                let tail = slice_copy(&rest, i + from.len(), rest.len());
                let ghost old_r = r@;
                push_all(&mut r, &head);
                push_all(&mut r, to);
                assert(r@ == old_r + rest@.subrange(0, i as int) + to@);
                assert(r@ + replace_all(tail@, from@, to@) =~= old_r + replace_all(rest@, from@, to@));
                rest = tail;
            },
            None => {
                push_all(&mut r, &rest);
                return r;
            },
        }
    }
}

/// Replaces, left to right, the non-overlapping occurrences of the non-empty `from`
/// found ignoring ASCII case.
pub open spec fn replace_all_ci(s: Seq<char>, from: Seq<char>, to: Seq<char>) -> Seq<char>
    decreases s.len(),
{
    if from.len() == 0 || s.len() < from.len() {
        s
    } else if ascii_lower(s.subrange(0, from.len() as int)) == ascii_lower(from) {
        to + replace_all_ci(s.subrange(from.len() as int, s.len() as int), from, to)
    } else {
        seq![s[0]] + replace_all_ci(s.drop_first(), from, to)
    }
}

/// Whether `p` occurs in `s` at index `i`, ignoring ASCII case.
fn matches_at_ci(s: &[char], p: &[char], i: usize) -> (b: bool)
    requires
        i + p@.len() <= s@.len(),
    ensures
        b == (ascii_lower(s@.subrange(i as int, i + p@.len())) == ascii_lower(p@)),
{
    let n = s.len();
    let mut k: usize = 0;
    while k < p.len()
        invariant
            n == s@.len(),
            i + p@.len() <= s@.len(),
            k <= p@.len(),
            forall|j: int| 0 <= j < k ==> lower_char(s@[i + j]) == lower_char(p@[j]),
        decreases p@.len() - k,
    {
        if lower(s[i + k]) != lower(p[k]) {
            proof {
                let a = ascii_lower(s@.subrange(i as int, i + p@.len()));
                assert(a[k as int] != ascii_lower(p@)[k as int]);
            }
            return false;
        }
        k = k + 1;
    }
    assert(ascii_lower(s@.subrange(i as int, i + p@.len())) =~= ascii_lower(p@));
    true
}

/// `s` with every non-overlapping occurrence of the non-empty `from`, found ignoring
/// ASCII case, replaced by `to`.
pub fn replace_seq_ci(s: &[char], from: &[char], to: &[char]) -> (r: Vec<char>)
    requires
        from@.len() > 0,
    ensures
        r@ == replace_all_ci(s@, from@, to@),
{
    let n = s.len();
    let m = from.len();
    let mut r: Vec<char> = Vec::new();
    let mut i: usize = 0;
    assert(s@.subrange(0, n as int) =~= s@);
    while i < n
        invariant
            n == s@.len(),
            m == from@.len(),
            m > 0,
            i <= n,
            r@ + replace_all_ci(s@.subrange(i as int, n as int), from@, to@) == replace_all_ci(s@, from@, to@),
        decreases n - i,
    {
        let ghost rest = s@.subrange(i as int, n as int);
        let ghost old_r = r@;
        if n - i < m {
            assert(replace_all_ci(rest, from@, to@) == rest);
            let tail = slice_copy(s, i, n);
            push_all(&mut r, &tail);
            assert(r@ + replace_all_ci(s@.subrange(n as int, n as int), from@, to@) =~= old_r + rest);
            i = n;
        } else if matches_at_ci(s, from, i) {
            assert(rest.subrange(0, m as int) =~= s@.subrange(i as int, i + m));
            assert(rest.subrange(m as int, rest.len() as int) =~= s@.subrange(i + m, n as int));
            push_all(&mut r, to);
            i = i + m;
            assert(r@ + replace_all_ci(s@.subrange(i as int, n as int), from@, to@) =~= old_r + replace_all_ci(rest, from@, to@));
        } else {
            assert(rest.subrange(0, m as int) =~= s@.subrange(i as int, i + m));
            assert(rest.drop_first() =~= s@.subrange(i + 1, n as int));
            r.push(s[i]);
            i = i + 1;
            assert(r@ + replace_all_ci(s@.subrange(i as int, n as int), from@, to@) =~= old_r + replace_all_ci(rest, from@, to@));
        }
    }
    assert(replace_all_ci(s@.subrange(n as int, n as int), from@, to@) =~= Seq::<char>::empty());
    assert(r@ =~= replace_all_ci(s@, from@, to@));
    r
}

/// `s` with the first occurrence of `from` replaced by `to`.
pub fn replace_once(s: &[char], from: &[char], to: &[char]) -> (r: Vec<char>)
    ensures
        r@ == replace_first(s@, from@, to@),
{
    proof { lemma_first_occurrence(s@, from@); }
    let n = s.len();
    match find(s, from) {
        Some(i) => {
            assert(i + from@.len() <= n);
            let mut r = slice_copy(s, 0, i);
            push_all(&mut r, to);
            let tail = slice_copy(s, i + from.len(), s.len());
            push_all(&mut r, &tail);
            r
        },
        None => slice_copy(s, 0, s.len()),
    }
}

/// Characters before the first `c` (all of `s` when there is none).
pub open spec fn before_char(s: Seq<char>, c: char) -> Seq<char> {
    match first_occurrence(s, seq![c]) {
        Some(i) => s.subrange(0, i),
        None => s,
    }
}

pub fn take_before(s: &[char], c: char) -> (r: Vec<char>)
    ensures
        r@ == before_char(s@, c),
{
    let pat = vec![c];
    assert(pat@ =~= seq![c]);
    proof { lemma_first_occurrence(s@, seq![c]); }
    match find(s, &pat) {
        Some(i) => slice_copy(s, 0, i),
        None => slice_copy(s, 0, s.len()),
    }
}

} // verus!
