//! Searching and cutting character sequences.
//!
//! The wire format is cut at single characters (space, slash, line break) and
//! at one fixed separator. Every spec function here works with absolute
//! positions in the sequence, so that cuts compose without shifting indices.

use vstd::prelude::*;

verus! {

/// The position of the first `c` in `s` at or after `from`; `s.len()` when
/// there is none.
pub open spec fn find_from(s: Seq<char>, c: char, from: int) -> int
    decreases s.len() - from,
{
    if from < 0 || from >= s.len() {
        s.len() as int
    } else if s[from] == c {
        from
    } else {
        find_from(s, c, from + 1)
    }
}

/// `find_from` stays inside the sequence, stops on `c`, and skips nothing.
pub proof fn lemma_find_from(s: Seq<char>, c: char, from: int)
    requires
        0 <= from <= s.len(),
    ensures
        from <= find_from(s, c, from) <= s.len(),
        find_from(s, c, from) < s.len() ==> s[find_from(s, c, from)] == c,
        forall|j: int| from <= j < find_from(s, c, from) ==> s[j] != c,
    decreases s.len() - from,
{
    if from < s.len() && s[from] != c {
        lemma_find_from(s, c, from + 1);
    }
}

/// Whether `pat` stands in `s` at position `at`.
pub open spec fn occurs_at(s: Seq<char>, pat: Seq<char>, at: int) -> bool {
    0 <= at && at + pat.len() <= s.len() && s.subrange(at, at + pat.len()) == pat
}

/// The position of the first occurrence of `pat` in `s` at or after `from`;
/// `s.len()` when there is none.
pub open spec fn find_seq_from(s: Seq<char>, pat: Seq<char>, from: int) -> int
    decreases s.len() - from,
{
    if from < 0 || from >= s.len() || from + pat.len() > s.len() {
        s.len() as int
    } else if occurs_at(s, pat, from) {
        from
    } else {
        find_seq_from(s, pat, from + 1)
    }
}

/// `find_seq_from` reports the leftmost occurrence, or the length when `pat`
/// (not empty) occurs nowhere at or after `from`.
pub proof fn lemma_find_seq_from(s: Seq<char>, pat: Seq<char>, from: int)
    requires
        0 <= from <= s.len(),
        pat.len() > 0,
    ensures
        from <= find_seq_from(s, pat, from) <= s.len(),
        find_seq_from(s, pat, from) < s.len() ==> occurs_at(s, pat, find_seq_from(s, pat, from)),
        forall|j: int| from <= j < find_seq_from(s, pat, from) ==> !occurs_at(s, pat, j),
    decreases s.len() - from,
{
    if from < s.len() && from + pat.len() <= s.len() && !occurs_at(s, pat, from) {
        lemma_find_seq_from(s, pat, from + 1);
    }
}

/// Whether `s` begins with `prefix`.
pub open spec fn starts_with(s: Seq<char>, prefix: Seq<char>) -> bool {
    occurs_at(s, prefix, 0)
}

/// Where piece number `k` of `s` begins when `s` is cut at every `c`;
/// `s.len() + 1` when `s` has `k` pieces or fewer.
pub open spec fn piece_start(s: Seq<char>, c: char, k: nat) -> int
    decreases k,
{
    if k == 0 {
        0
    } else {
        let before = piece_start(s, c, (k - 1) as nat);
        if before > s.len() || find_from(s, c, before) >= s.len() {
            (s.len() + 1) as int
        } else {
            find_from(s, c, before) + 1
        }
    }
}

/// Piece number `k` (counted from 0) of `s` cut at every `c`; empty when `s`
/// has no such piece.
pub open spec fn piece(s: Seq<char>, c: char, k: nat) -> Seq<char> {
    let start = piece_start(s, c, k);
    if start > s.len() {
        Seq::empty()
    } else {
        s.subrange(start, find_from(s, c, start))
    }
}

/// The characters that count as white space: the Unicode property
/// `White_Space`.
pub open spec fn is_space(c: char) -> bool {
    let n = c as u32;
    ||| 0x09 <= n <= 0x0d
    ||| n == 0x20
    ||| n == 0x85
    ||| n == 0xa0
    ||| n == 0x1680
    ||| 0x2000 <= n <= 0x200a
    ||| n == 0x2028
    ||| n == 0x2029
    ||| n == 0x202f
    ||| n == 0x205f
    ||| n == 0x3000
}

/// The length of `s` without its trailing white space.
pub open spec fn trimmed_len(s: Seq<char>) -> int
    decreases s.len(),
{
    if s.len() == 0 {
        0
    } else if is_space(s.last()) {
        trimmed_len(s.drop_last())
    } else {
        s.len() as int
    }
}

/// `s` without its trailing white space.
pub open spec fn trim_end(s: Seq<char>) -> Seq<char> {
    s.take(trimmed_len(s))
}

/// What is left of `s` ends in no white space, and only white space was cut.
pub proof fn lemma_trimmed_len(s: Seq<char>)
    ensures
        0 <= trimmed_len(s) <= s.len(),
        trimmed_len(s) > 0 ==> !is_space(s[trimmed_len(s) - 1]),
        forall|j: int| trimmed_len(s) <= j < s.len() ==> is_space(s[j]),
    decreases s.len(),
{
    if s.len() > 0 && is_space(s.last()) {
        let t = s.drop_last();
        lemma_trimmed_len(t);
        assert forall|j: int| trimmed_len(s) <= j < s.len() implies is_space(s[j]) by {
            if j < t.len() {
                assert(s[j] == t[j]);
            }
        }
    }
}

/// The characters of `s`, in order.
pub fn chars_of(s: &str) -> (v: Vec<char>)
    ensures
        v@ == s@,
{
    let mut v: Vec<char> = Vec::new();
    for c in it: s.chars()
        invariant
            it.seq() == s@,
            v@ == it.seq().take(it.index() as int),
    {
        v.push(c);
    }
    v
}

/// Finds the first `c` in `s` at or after `from`.
pub fn find_char(s: &Vec<char>, c: char, from: usize) -> (at: usize)
    requires
        from <= s.len(),
    ensures
        at == find_from(s@, c, from as int),
        from <= at <= s.len(),
{
    let mut i: usize = from;
    while i < s.len() && s[i] != c
        invariant
            from <= i <= s.len(),
            find_from(s@, c, from as int) == find_from(s@, c, i as int),
        decreases s.len() - i,
    {
        i += 1;
    }
    i
}

/// Tells whether `pat` stands in `s` at position `at`.
pub fn matches_at(s: &Vec<char>, pat: &Vec<char>, at: usize) -> (b: bool)
    ensures
        b == occurs_at(s@, pat@, at as int),
{
    if at > s.len() || pat.len() > s.len() - at {
        return false;
    }
    let mut k: usize = 0;
    while k < pat.len()
        invariant
            k <= pat.len(),
            at + pat.len() <= s.len(),
            forall|j: int| 0 <= j < k ==> s@[at + j] == pat@[j],
        decreases pat.len() - k,
    {
        if s[at + k] != pat[k] {
            assert(s@.subrange(at as int, at + pat.len())[k as int] != pat@[k as int]);
            return false;
        }
        k += 1;
    }
    assert(s@.subrange(at as int, at + pat.len()) =~= pat@);
    true
}

/// Tells whether `s` begins with `prefix`.
pub fn has_prefix(s: &Vec<char>, prefix: &Vec<char>) -> (b: bool)
    ensures
        b == starts_with(s@, prefix@),
{
    matches_at(s, prefix, 0)
}

/// Finds the first occurrence of `pat` in `s` at or after `from`.
pub fn find_seq(s: &Vec<char>, pat: &Vec<char>, from: usize) -> (at: usize)
    requires
        from <= s.len(),
    ensures
        at == find_seq_from(s@, pat@, from as int),
        from <= at <= s.len(),
{
    let mut i: usize = from;
    while pat.len() <= s.len() - i
        invariant
            from <= i <= s.len(),
            find_seq_from(s@, pat@, from as int) == find_seq_from(s@, pat@, i as int),
        decreases s.len() - i,
    {
        if matches_at(s, pat, i) {
            return i;
        }
        assert(i < s.len()) by {
            if i == s.len() {
                assert(s@.subrange(i as int, i as int) =~= pat@);
            }
        }
        i += 1;
    }
    s.len()
}

/// Tells whether `c` is white space.
pub fn is_space_char(c: char) -> (b: bool)
    ensures
        b == is_space(c),
{
    let n: u32 = c as u32;
    (0x09 <= n && n <= 0x0d) || n == 0x20 || n == 0x85 || n == 0xa0 || n == 0x1680 || (0x2000 <= n
        && n <= 0x200a) || n == 0x2028 || n == 0x2029 || n == 0x202f || n == 0x205f || n == 0x3000
}

/// The end of the part of `s[from..to]` that is left once its trailing white
/// space is cut.
pub fn trim_end_at(s: &Vec<char>, from: usize, to: usize) -> (end: usize)
    requires
        from <= to <= s.len(),
    ensures
        end == from + trimmed_len(s@.subrange(from as int, to as int)),
        from <= end <= to,
{
    let mut j: usize = to;
    while j > from && is_space_char(s[j - 1])
        invariant
            from <= j <= to <= s.len(),
            trimmed_len(s@.subrange(from as int, to as int)) == trimmed_len(
                s@.subrange(from as int, j as int),
            ),
        decreases j,
    {
        assert(s@.subrange(from as int, j as int).drop_last() =~= s@.subrange(
            from as int,
            j - 1,
        ));
        j -= 1;
    }
    proof {
        lemma_trimmed_len(s@.subrange(from as int, j as int));
    }
    j
}

/// The bounds of piece number `k` of `s` cut at every `c`: its start and its
/// end, or `None` when `s` has no such piece.
pub fn piece_bounds(s: &Vec<char>, c: char, k: usize) -> (r: Option<(usize, usize)>)
    ensures
        match r {
            Some((start, end)) => {
                &&& start == piece_start(s@, c, k as nat)
                &&& end == find_from(s@, c, start as int)
                &&& start <= end <= s.len()
            },
            None => piece_start(s@, c, k as nat) > s.len(),
        },
{
    let mut start: usize = 0;
    let mut n: usize = 0;
    while n < k
        invariant
            n <= k,
            start <= s.len(),
            start == piece_start(s@, c, n as nat),
        decreases k - n,
    {
        let stop = find_char(s, c, start);
        if stop >= s.len() {
            proof {
                lemma_piece_start_absent(s@, c, (n + 1) as nat, k as nat);
            }
            return None;
        }
        start = stop + 1;
        n += 1;
    }
    let end = find_char(s, c, start);
    Some((start, end))
}

/// Once a piece is missing, every later piece is missing too.
pub proof fn lemma_piece_start_absent(s: Seq<char>, c: char, k: nat, later: nat)
    requires
        k <= later,
        piece_start(s, c, k) > s.len(),
    ensures
        piece_start(s, c, later) > s.len(),
    decreases later,
{
    if k < later {
        lemma_piece_start_absent(s, c, k, (later - 1) as nat);
    }
}

} // verus!
