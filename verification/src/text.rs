//! Character-sequence model of the string operations the library relies on.
//!
//! Every operation here is specified over `Seq<char>` and implemented over
//! `&[char]` / `Vec<char>`; `str_to_chars` and `chars_to_string` move between
//! those and Rust strings.

use vstd::prelude::*;

verus! {

broadcast use vstd::string::group_string_axioms;

/// Appending one character to a `String` extends its character sequence by it.
pub assume_specification[ std::string::String::push ](s: &mut std::string::String, ch: char)
    ensures
        final(s)@ == old(s)@.push(ch),
;

/// The characters of a string slice, in order.
pub fn str_to_chars(s: &str) -> (v: Vec<char>)
    ensures
        v@ == s@,
{
    let mut v: Vec<char> = Vec::new();
    for c in it: s.chars()
        invariant
            v@ == it.seq().take(it.index() as int),
    {
        v.push(c);
    }
    v
}

/// A string holding exactly the given characters.
pub fn chars_to_string(cs: &[char]) -> (s: String)
    ensures
        s@ == cs@,
{
    let mut s = String::new();
    let mut i: usize = 0;
    while i < cs.len()
        invariant
            i <= cs.len(),
            s@ == cs@.take(i as int),
        decreases cs.len() - i,
    {
        s.push(cs[i]);
        i = i + 1;
        assert(s@ =~= cs@.take(i as int));
    }
    assert(cs@.take(i as int) =~= cs@);
    s
}

/// A copy of a string as a character vector.
pub fn string_chars(s: &String) -> (v: Vec<char>)
    ensures
        v@ == s@,
{
    str_to_chars(s.as_str())
}

// ---------------------------------------------------------------------------
// Whitespace
// ---------------------------------------------------------------------------

/// The Unicode `White_Space` property, which `char::is_whitespace`, `str::trim`
/// and `str::split_whitespace` use.
pub open spec fn is_ws(c: char) -> bool {
    let u = c as u32;
    (0x9 <= u && u <= 0xd) || u == 0x20 || u == 0x85 || u == 0xa0 || u == 0x1680
        || (0x2000 <= u && u <= 0x200a) || u == 0x2028 || u == 0x2029 || u == 0x202f
        || u == 0x205f || u == 0x3000
}

pub fn char_is_ws(c: char) -> (b: bool)
    ensures
        b == is_ws(c),
{
    let u = c as u32;
    (0x9 <= u && u <= 0xd) || u == 0x20 || u == 0x85 || u == 0xa0 || u == 0x1680
        || (0x2000 <= u && u <= 0x200a) || u == 0x2028 || u == 0x2029 || u == 0x202f
        || u == 0x205f || u == 0x3000
}

/// `s` with leading whitespace removed.
pub open spec fn trim_start(s: Seq<char>) -> Seq<char>
    decreases s.len(),
{
    if s.len() > 0 && is_ws(s[0]) {
        trim_start(s.drop_first())
    } else {
        s
    }
}

/// `s` with trailing whitespace removed.
pub open spec fn trim_end(s: Seq<char>) -> Seq<char>
    decreases s.len(),
{
    if s.len() > 0 && is_ws(s.last()) {
        trim_end(s.drop_last())
    } else {
        s
    }
}

/// `s` with whitespace removed at both ends, as `str::trim` does.
pub open spec fn trim(s: Seq<char>) -> Seq<char> {
    trim_end(trim_start(s))
}

proof fn lemma_trim_start_skip(s: Seq<char>, i: int)
    requires
        0 <= i < s.len(),
        is_ws(s[i]),
    ensures
        trim_start(s.skip(i)) == trim_start(s.skip(i + 1)),
{
    assert(s.skip(i).drop_first() =~= s.skip(i + 1));
}

proof fn lemma_trim_end_take(s: Seq<char>, j: int)
    requires
        0 < j <= s.len(),
        is_ws(s[j - 1]),
    ensures
        trim_end(s.take(j)) == trim_end(s.take(j - 1)),
{
    assert(s.take(j).drop_last() =~= s.take(j - 1));
}

/// Index of the first non-whitespace character (or the length).
pub fn trim_start_index(s: &[char]) -> (i: usize)
    ensures
        i <= s@.len(),
        trim_start(s@) == s@.skip(i as int),
{
    let mut i: usize = 0;
    assert(s@.skip(0) =~= s@);
    while i < s.len() && char_is_ws(s[i])
        invariant
            i <= s@.len(),
            trim_start(s@) == trim_start(s@.skip(i as int)),
        decreases s.len() - i,
    {
        proof {
            lemma_trim_start_skip(s@, i as int);
        }
        i = i + 1;
    }
    i
}

/// `s` with whitespace removed at both ends.
pub fn trim_chars(s: &[char]) -> (r: Vec<char>)
    ensures
        r@ == trim(s@),
{
    let start = trim_start_index(s);
    let mut end: usize = s.len();
    let ghost t = s@.skip(start as int);
    assert(t.take(t.len() as int) =~= t);
    while end > start && char_is_ws(s[end - 1])
        invariant
            start <= end <= s@.len(),
            t == s@.skip(start as int),
            trim_end(t) == trim_end(t.take(end - start)),
        decreases end,
    {
        proof {
            lemma_trim_end_take(t, (end - start) as int);
        }
        end = end - 1;
    }
    let mut r: Vec<char> = Vec::new();
    let mut k: usize = start;
    while k < end
        invariant
            start <= k <= end <= s@.len(),
            r@ == s@.subrange(start as int, k as int),
        decreases end - k,
    {
        r.push(s[k]);
        k = k + 1;
        assert(r@ =~= s@.subrange(start as int, k as int));
    }
    assert(t.take(end - start) =~= s@.subrange(start as int, end as int));
    r
}

/// `str::trim` on a string.
pub fn trim_str(s: &str) -> (r: String)
    ensures
        r@ == trim(s@),
{
    let cs = str_to_chars(s);
    let t = trim_chars(cs.as_slice());
    chars_to_string(t.as_slice())
}

// ---------------------------------------------------------------------------
// Prefixes, suffixes, occurrences
// ---------------------------------------------------------------------------

pub open spec fn starts_with(s: Seq<char>, p: Seq<char>) -> bool {
    p.len() <= s.len() && s.take(p.len() as int) == p
}

pub open spec fn ends_with(s: Seq<char>, p: Seq<char>) -> bool {
    p.len() <= s.len() && s.skip(s.len() - p.len()) == p
}

/// `p` occurs in `s` starting at position `i`.
pub open spec fn occurs_at(s: Seq<char>, p: Seq<char>, i: int) -> bool {
    0 <= i && i + p.len() <= s.len() && s.subrange(i, i + p.len()) == p
}

pub open spec fn contains(s: Seq<char>, p: Seq<char>) -> bool {
    exists|i: int| occurs_at(s, p, i)
}

pub open spec fn contains_char(s: Seq<char>, c: char) -> bool {
    exists|i: int| 0 <= i < s.len() && s[i] == c
}

/// Does `p` occur in `s` at position `i`?
pub fn occurs_at_exec(s: &[char], p: &[char], i: usize) -> (b: bool)
    ensures
        b == occurs_at(s@, p@, i as int),
{
    if i > s.len() || p.len() > s.len() - i {
        return false;
    }
    let mut k: usize = 0;
    while k < p.len()
        invariant
            i + p@.len() <= s@.len(),
            i + p.len() <= s.len(),
            k <= p@.len(),
            forall|j: int| 0 <= j < k ==> s@[i + j] == p@[j],
        decreases p.len() - k,
    {
        if s[i + k] != p[k] {
            assert(s@.subrange(i as int, i + p@.len())[k as int] != p@[k as int]);
            return false;
        }
        k = k + 1;
    }
    assert(s@.subrange(i as int, i + p@.len()) =~= p@);
    true
}

pub fn starts_with_exec(s: &[char], p: &[char]) -> (b: bool)
    ensures
        b == starts_with(s@, p@),
{
    let r = occurs_at_exec(s, p, 0);
    proof {
        if p@.len() <= s@.len() {
            assert(s@.subrange(0, p@.len() as int) =~= s@.take(p@.len() as int));
        }
    }
    r
}

pub fn ends_with_exec(s: &[char], p: &[char]) -> (b: bool)
    ensures
        b == ends_with(s@, p@),
{
    if p.len() > s.len() {
        return false;
    }
    let r = occurs_at_exec(s, p, s.len() - p.len());
    assert(s@.subrange(s@.len() - p@.len(), s@.len() as int) =~= s@.skip(s@.len() - p@.len()));
    r
}

/// The first position at which `p` occurs in `s`, if any.
pub fn find_exec(s: &[char], p: &[char]) -> (r: Option<usize>)
    ensures
        r matches Some(i) ==> occurs_at(s@, p@, i as int)
            && forall|j: int| 0 <= j < i ==> !occurs_at(s@, p@, j),
        r is None ==> !contains(s@, p@),
{
    if p.len() > s.len() {
        return None;
    }
    let last = s.len() - p.len();
    let mut i: usize = 0;
    while i <= last
        invariant
            p@.len() <= s@.len(),
            last == s@.len() - p@.len(),
            i <= last + 1,
            forall|j: int| 0 <= j < i ==> !occurs_at(s@, p@, j),
        decreases last + 1 - i,
    {
        if occurs_at_exec(s, p, i) {
            return Some(i);
        }
        if i == last {
            return None;
        }
        i = i + 1;
    }
    None
}

pub fn contains_exec(s: &[char], p: &[char]) -> (b: bool)
    ensures
        b == contains(s@, p@),
{
    find_exec(s, p).is_some()
}

pub fn contains_char_exec(s: &[char], c: char) -> (b: bool)
    ensures
        b == contains_char(s@, c),
{
    let mut i: usize = 0;
    while i < s.len()
        invariant
            i <= s@.len(),
            forall|j: int| 0 <= j < i ==> s@[j] != c,
        decreases s.len() - i,
    {
        if s[i] == c {
            return true;
        }
        i = i + 1;
    }
    false
}

/// Number of non-overlapping occurrences of `p`, scanning left to right,
/// as `str::matches(p).count()` counts them (for a non-empty `p`).
pub open spec fn count_matches(s: Seq<char>, p: Seq<char>) -> nat
    recommends
        p.len() > 0,
    decreases s.len(),
{
    if p.len() == 0 || s.len() < p.len() {
        0
    } else if s.take(p.len() as int) == p {
        1 + count_matches(s.skip(p.len() as int), p)
    } else {
        count_matches(s.drop_first(), p)
    }
}

/// `s` with every non-overlapping occurrence of `p` (left to right) replaced
/// by `r`, as `str::replace` does for a non-empty `p`.
pub open spec fn replace_all(s: Seq<char>, p: Seq<char>, r: Seq<char>) -> Seq<char>
    recommends
        p.len() > 0,
    decreases s.len(),
{
    if p.len() == 0 || s.len() < p.len() {
        s
    } else if s.take(p.len() as int) == p {
        r + replace_all(s.skip(p.len() as int), p, r)
    } else {
        seq![s[0]] + replace_all(s.drop_first(), p, r)
    }
}

proof fn lemma_skip_skip(s: Seq<char>, i: int, k: int)
    requires
        0 <= i,
        0 <= k,
        i + k <= s.len(),
    ensures
        s.skip(i).skip(k) == s.skip(i + k),
{
    assert(s.skip(i).skip(k) =~= s.skip(i + k));
}

proof fn lemma_occurs_at_skip(s: Seq<char>, p: Seq<char>, i: int)
    requires
        0 <= i <= s.len(),
    ensures
        occurs_at(s, p, i) == (p.len() <= s.skip(i).len() && s.skip(i).take(p.len() as int)
            == p),
{
    if i + p.len() <= s.len() {
        assert(s.skip(i).take(p.len() as int) =~= s.subrange(i, i + p.len()));
    }
}

pub fn count_matches_exec(s: &[char], p: &[char]) -> (n: usize)
    requires
        p@.len() > 0,
    ensures
        n == count_matches(s@, p@),
{
    let mut i: usize = 0;
    let mut n: usize = 0;
    assert(s@.skip(0) =~= s@);
    while i < s.len()
        invariant
            p@.len() > 0,
            i <= s@.len(),
            n <= i,
            n + count_matches(s@.skip(i as int), p@) == count_matches(s@, p@),
        decreases s.len() - i,
    {
        proof {
            lemma_occurs_at_skip(s@, p@, i as int);
        }
        if occurs_at_exec(s, p, i) {
            proof {
                lemma_skip_skip(s@, i as int, p@.len() as int);
            }
            n = n + 1;
            i = i + p.len();
        } else {
            proof {
                assert(s@.skip(i as int).drop_first() =~= s@.skip(i + 1));
            }
            i = i + 1;
        }
    }
    n
}

pub fn replace_exec(s: &[char], p: &[char], r: &[char]) -> (out: Vec<char>)
    requires
        p@.len() > 0,
    ensures
        out@ == replace_all(s@, p@, r@),
{
    let mut i: usize = 0;
    let mut out: Vec<char> = Vec::new();
    assert(s@.skip(0) =~= s@);
    while i < s.len()
        invariant
            p@.len() > 0,
            i <= s@.len(),
            out@ + replace_all(s@.skip(i as int), p@, r@) == replace_all(s@, p@, r@),
        decreases s.len() - i,
    {
        proof {
            lemma_occurs_at_skip(s@, p@, i as int);
        }
        let ghost before = out@;
        if occurs_at_exec(s, p, i) {
            proof {
                lemma_skip_skip(s@, i as int, p@.len() as int);
            }
            let mut k: usize = 0;
            while k < r.len()
                invariant
                    k <= r@.len(),
                    out@ == before + r@.take(k as int),
                decreases r.len() - k,
            {
                out.push(r[k]);
                k = k + 1;
                assert(out@ =~= before + r@.take(k as int));
            }
            assert(r@.take(k as int) =~= r@);
            assert(before + (r@ + replace_all(s@.skip(i + p@.len()), p@, r@)) =~= out@
                + replace_all(s@.skip(i + p@.len()), p@, r@));
            i = i + p.len();
        } else {
            proof {
                assert(s@.skip(i as int).drop_first() =~= s@.skip(i + 1));
                let rest = replace_all(s@.skip(i + 1), p@, r@);
                assert(before + (seq![s@[i as int]] + rest) =~= before.push(s@[i as int])
                    + rest);
            }
            out.push(s[i]);
            i = i + 1;
        }
    }
    assert(s@.skip(i as int) =~= Seq::<char>::empty());
    assert(out@ + Seq::<char>::empty() =~= out@);
    out
}

// ---------------------------------------------------------------------------
// Lines and splitting
// ---------------------------------------------------------------------------

/// A line with a carriage return before its newline dropped.
pub open spec fn strip_cr(line: Seq<char>) -> Seq<char> {
    if line.len() > 0 && line.last() == '\r' {
        line.drop_last()
    } else {
        line
    }
}

/// The lines of `cur + rest` where `cur` is the beginning of a line already
/// read: `str::lines` splits at each `\n`, drops a `\r` right before it, and
/// yields no empty line after a final `\n`.
pub open spec fn lines_from(cur: Seq<char>, rest: Seq<char>) -> Seq<Seq<char>>
    decreases rest.len(),
{
    if rest.len() == 0 {
        if cur.len() == 0 {
            seq![]
        } else {
            seq![cur]
        }
    } else if rest[0] == '\n' {
        seq![strip_cr(cur)] + lines_from(Seq::empty(), rest.drop_first())
    } else {
        lines_from(cur.push(rest[0]), rest.drop_first())
    }
}

/// The lines of `s`, as `str::lines` yields them.
pub open spec fn lines(s: Seq<char>) -> Seq<Seq<char>> {
    lines_from(Seq::empty(), s)
}

fn strip_cr_exec(line: Vec<char>) -> (r: Vec<char>)
    ensures
        r@ == strip_cr(line@),
{
    let mut line = line;
    if line.len() > 0 && line[line.len() - 1] == '\r' {
        line.pop();
    }
    line
}

pub fn lines_exec(s: &[char]) -> (out: Vec<Vec<char>>)
    ensures
        out@.map_values(|l: Vec<char>| l@) == lines(s@),
{
    let mut out: Vec<Vec<char>> = Vec::new();
    let mut cur: Vec<char> = Vec::new();
    let mut i: usize = 0;
    assert(s@.skip(0) =~= s@);
    assert(out@.map_values(|l: Vec<char>| l@) =~= Seq::<Seq<char>>::empty());
    while i < s.len()
        invariant
            i <= s@.len(),
            out@.map_values(|l: Vec<char>| l@) + lines_from(cur@, s@.skip(i as int)) == lines(
                s@,
            ),
        decreases s.len() - i,
    {
        let ghost before = out@.map_values(|l: Vec<char>| l@);
        let ghost c = cur@;
        assert(s@.skip(i as int).drop_first() =~= s@.skip(i + 1));
        if s[i] == '\n' {
            let line = strip_cr_exec(cur);
            out.push(line);
            cur = Vec::new();
            proof {
                let rest = lines_from(Seq::empty(), s@.skip(i + 1));
                assert(out@.map_values(|l: Vec<char>| l@) =~= before.push(strip_cr(c)));
                assert(before + (seq![strip_cr(c)] + rest) =~= before.push(strip_cr(c)) + rest);
                assert(cur@ =~= Seq::<char>::empty());
            }
        } else {
            cur.push(s[i]);
        }
        i = i + 1;
    }
    let ghost before = out@.map_values(|l: Vec<char>| l@);
    assert(s@.skip(i as int) =~= Seq::<char>::empty());
    if cur.len() > 0 {
        let ghost c = cur@;
        out.push(cur);
        assert(out@.map_values(|l: Vec<char>| l@) =~= before + seq![c]);
    } else {
        assert(before + Seq::<Seq<char>>::empty() =~= before);
    }
    out
}

/// The whitespace-separated words of `cur + rest`, where `cur` is the
/// beginning of a word already read, as `str::split_whitespace` yields them.
pub open spec fn words_from(cur: Seq<char>, rest: Seq<char>) -> Seq<Seq<char>>
    decreases rest.len(),
{
    if rest.len() == 0 {
        if cur.len() == 0 {
            seq![]
        } else {
            seq![cur]
        }
    } else if is_ws(rest[0]) {
        (if cur.len() == 0 {
            Seq::empty()
        } else {
            seq![cur]
        }) + words_from(Seq::empty(), rest.drop_first())
    } else {
        words_from(cur.push(rest[0]), rest.drop_first())
    }
}

/// The words of `s`, as `str::split_whitespace` yields them.
pub open spec fn split_whitespace(s: Seq<char>) -> Seq<Seq<char>> {
    words_from(Seq::empty(), s)
}

pub fn split_whitespace_exec(s: &[char]) -> (out: Vec<Vec<char>>)
    ensures
        out@.map_values(|l: Vec<char>| l@) == split_whitespace(s@),
{
    let mut out: Vec<Vec<char>> = Vec::new();
    let mut cur: Vec<char> = Vec::new();
    let mut i: usize = 0;
    assert(s@.skip(0) =~= s@);
    assert(out@.map_values(|l: Vec<char>| l@) =~= Seq::<Seq<char>>::empty());
    while i < s.len()
        invariant
            i <= s@.len(),
            out@.map_values(|l: Vec<char>| l@) + words_from(cur@, s@.skip(i as int))
                == split_whitespace(s@),
        decreases s.len() - i,
    {
        let ghost before = out@.map_values(|l: Vec<char>| l@);
        let ghost c = cur@;
        assert(s@.skip(i as int).drop_first() =~= s@.skip(i + 1));
        if char_is_ws(s[i]) {
            let rest_words = Ghost(words_from(Seq::empty(), s@.skip(i + 1)));
            if cur.len() > 0 {
                out.push(cur);
                cur = Vec::new();
                assert(out@.map_values(|l: Vec<char>| l@) =~= before.push(c));
                assert(before + (seq![c] + rest_words@) =~= before.push(c) + rest_words@);
            } else {
                assert(before + (Seq::<Seq<char>>::empty() + rest_words@) =~= before
                    + rest_words@);
            }
            assert(cur@ =~= Seq::<char>::empty());
        } else {
            cur.push(s[i]);
        }
        i = i + 1;
    }
    let ghost before = out@.map_values(|l: Vec<char>| l@);
    assert(s@.skip(i as int) =~= Seq::<char>::empty());
    if cur.len() > 0 {
        let ghost c = cur@;
        out.push(cur);
        assert(out@.map_values(|l: Vec<char>| l@) =~= before + seq![c]);
    } else {
        assert(before + Seq::<Seq<char>>::empty() =~= before);
    }
    out
}

/// The pieces of `cur + rest` between occurrences of `sep`, where `cur` is
/// the beginning of a piece already read, as `str::split(char)` yields them.
pub open spec fn pieces_from(cur: Seq<char>, rest: Seq<char>, sep: char) -> Seq<Seq<char>>
    decreases rest.len(),
{
    if rest.len() == 0 {
        seq![cur]
    } else if rest[0] == sep {
        seq![cur] + pieces_from(Seq::empty(), rest.drop_first(), sep)
    } else {
        pieces_from(cur.push(rest[0]), rest.drop_first(), sep)
    }
}

/// The pieces of `s` between occurrences of `sep` (always at least one).
pub open spec fn split_char(s: Seq<char>, sep: char) -> Seq<Seq<char>> {
    pieces_from(Seq::empty(), s, sep)
}

proof fn lemma_pieces_nonempty(cur: Seq<char>, rest: Seq<char>, sep: char)
    ensures
        pieces_from(cur, rest, sep).len() >= 1,
    decreases rest.len(),
{
    if rest.len() > 0 {
        if rest[0] == sep {
            lemma_pieces_nonempty(Seq::empty(), rest.drop_first(), sep);
        } else {
            lemma_pieces_nonempty(cur.push(rest[0]), rest.drop_first(), sep);
        }
    }
}

/// Splitting yields at least one piece.
pub proof fn lemma_split_char_nonempty(s: Seq<char>, sep: char)
    ensures
        split_char(s, sep).len() >= 1,
{
    lemma_pieces_nonempty(Seq::empty(), s, sep);
}

pub fn split_char_exec(s: &[char], sep: char) -> (out: Vec<Vec<char>>)
    ensures
        out@.map_values(|l: Vec<char>| l@) == split_char(s@, sep),
{
    let mut out: Vec<Vec<char>> = Vec::new();
    let mut cur: Vec<char> = Vec::new();
    let mut i: usize = 0;
    assert(s@.skip(0) =~= s@);
    assert(out@.map_values(|l: Vec<char>| l@) =~= Seq::<Seq<char>>::empty());
    while i < s.len()
        invariant
            i <= s@.len(),
            out@.map_values(|l: Vec<char>| l@) + pieces_from(cur@, s@.skip(i as int), sep)
                == split_char(s@, sep),
        decreases s.len() - i,
    {
        let ghost before = out@.map_values(|l: Vec<char>| l@);
        let ghost c = cur@;
        assert(s@.skip(i as int).drop_first() =~= s@.skip(i + 1));
        if s[i] == sep {
            out.push(cur);
            cur = Vec::new();
            proof {
                let rest = pieces_from(Seq::empty(), s@.skip(i + 1), sep);
                assert(out@.map_values(|l: Vec<char>| l@) =~= before.push(c));
                assert(before + (seq![c] + rest) =~= before.push(c) + rest);
                assert(cur@ =~= Seq::<char>::empty());
            }
        } else {
            cur.push(s[i]);
        }
        i = i + 1;
    }
    let ghost before = out@.map_values(|l: Vec<char>| l@);
    let ghost c = cur@;
    assert(s@.skip(i as int) =~= Seq::<char>::empty());
    out.push(cur);
    assert(out@.map_values(|l: Vec<char>| l@) =~= before + seq![c]);
    out
}

/// The parts joined with `sep` between consecutive parts.
pub open spec fn join(parts: Seq<Seq<char>>, sep: Seq<char>) -> Seq<char>
    decreases parts.len(),
{
    if parts.len() == 0 {
        Seq::empty()
    } else if parts.len() == 1 {
        parts[0]
    } else {
        join(parts.drop_last(), sep) + sep + parts.last()
    }
}

/// Append `s` to `out`.
pub fn push_all(out: &mut Vec<char>, s: &[char])
    ensures
        final(out)@ == old(out)@ + s@,
{
    let mut k: usize = 0;
    let ghost start = out@;
    while k < s.len()
        invariant
            k <= s@.len(),
            out@ == start + s@.take(k as int),
        decreases s.len() - k,
    {
        out.push(s[k]);
        k = k + 1;
        assert(out@ =~= start + s@.take(k as int));
    }
    assert(s@.take(k as int) =~= s@);
}

/// Append the characters of `s` to `out`.
pub fn push_str(out: &mut Vec<char>, s: &str)
    ensures
        final(out)@ == old(out)@ + s@,
{
    let cs = str_to_chars(s);
    push_all(out, cs.as_slice());
}

pub fn join_exec(parts: &Vec<Vec<char>>, sep: &[char]) -> (out: Vec<char>)
    ensures
        out@ == join(parts@.map_values(|l: Vec<char>| l@), sep@),
{
    let ghost ps = parts@.map_values(|l: Vec<char>| l@);
    let mut out: Vec<char> = Vec::new();
    let mut i: usize = 0;
    while i < parts.len()
        invariant
            i <= parts@.len(),
            ps == parts@.map_values(|l: Vec<char>| l@),
            out@ == join(ps.take(i as int), sep@),
        decreases parts.len() - i,
    {
        if i > 0 {
            push_all(&mut out, sep);
        }
        push_all(&mut out, parts[i].as_slice());
        proof {
            let t = ps.take(i + 1);
            assert(t.drop_last() =~= ps.take(i as int));
            assert(t.last() == parts@[i as int]@);
            if i == 0 {
                assert(t.len() == 1);
                assert(Seq::<char>::empty() + parts@[0]@ =~= parts@[0]@);
            }
        }
        i = i + 1;
    }
    assert(ps.take(i as int) =~= ps);
    out
}

/// Does `a` hold the same characters as `b`?
pub fn chars_eq(a: &[char], b: &[char]) -> (r: bool)
    ensures
        r == (a@ == b@),
{
    if a.len() != b.len() {
        return false;
    }
    let r = occurs_at_exec(a, b, 0);
    proof {
        assert(a@.subrange(0, b@.len() as int) =~= a@);
    }
    r
}

// ---------------------------------------------------------------------------
// Decimal formatting
// ---------------------------------------------------------------------------

pub open spec fn digit_char(d: nat) -> char {
    ((d + 48) as u32) as char
}

/// The decimal representation of `n`, as `{}` formats an unsigned integer.
pub open spec fn decimal(n: nat) -> Seq<char>
    decreases n,
{
    if n < 10 {
        seq![digit_char(n)]
    } else {
        decimal(n / 10).push(digit_char(n % 10))
    }
}

/// Append the decimal representation of `n` to `out`.
pub fn push_decimal(out: &mut Vec<char>, n: u64)
    ensures
        final(out)@ == old(out)@ + decimal(n as nat),
    decreases n,
{
    if n >= 10 {
        push_decimal(out, n / 10);
    }
    let d = (n % 10) as u32;
    let c = char_from_digit(d);
    out.push(c);
    proof {
        if n >= 10 {
            assert(old(out)@ + decimal((n / 10) as nat) + seq![c] =~= old(out)@ + decimal(
                n as nat,
            ));
        } else {
            assert(old(out)@ + seq![c] =~= old(out)@ + decimal(n as nat));
        }
    }
}

fn char_from_digit(d: u32) -> (c: char)
    requires
        d < 10,
    ensures
        c == digit_char(d as nat),
{
    match d {
        0 => '0',
        1 => '1',
        2 => '2',
        3 => '3',
        4 => '4',
        5 => '5',
        6 => '6',
        7 => '7',
        8 => '8',
        _ => '9',
    }
}

/// The decimal representation of `n` as a string.
pub fn decimal_string(n: u64) -> (s: String)
    ensures
        s@ == decimal(n as nat),
{
    let mut v: Vec<char> = Vec::new();
    push_decimal(&mut v, n);
    assert(v@ =~= decimal(n as nat));
    chars_to_string(v.as_slice())
}

// ---------------------------------------------------------------------------
// Case mapping (std's Unicode tables)
// ---------------------------------------------------------------------------

/// What `str::to_lowercase` returns for a string with these characters.
pub uninterp spec fn lowercase(s: Seq<char>) -> Seq<char>;

/// What `str::to_uppercase` returns for a string with these characters.
pub uninterp spec fn uppercase(s: Seq<char>) -> Seq<char>;

/// Whether `char::is_uppercase` holds of a character.
pub uninterp spec fn is_uppercase(c: char) -> bool;

/// `str::to_lowercase`: the full Unicode lowercase mapping of a string. Its
/// result depends on the characters alone; it is named, not written out.
#[verifier::external_body]
pub fn to_lowercase_str(s: &str) -> (r: String)
    ensures
        r@ == lowercase(s@),
{
    s.to_lowercase()
}

/// `str::to_uppercase`: the full Unicode uppercase mapping of a string.
#[verifier::external_body]
pub fn to_uppercase_str(s: &str) -> (r: String)
    ensures
        r@ == uppercase(s@),
{
    s.to_uppercase()
}

/// The lowercase mapping of a character sequence.
pub fn to_lowercase_chars(s: &[char]) -> (r: Vec<char>)
    ensures
        r@ == lowercase(s@),
{
    let st = chars_to_string(s);
    let lo = to_lowercase_str(st.as_str());
    string_chars(&lo)
}

/// `char::is_uppercase`: the Unicode `Uppercase` property of a character.
#[verifier::external_body]
pub fn char_is_uppercase(c: char) -> (b: bool)
    ensures
        b == is_uppercase(c),
{
    c.is_uppercase()
}

/// What `{:?}` writes for a string: its text in double quotes, with std's
/// escapes (`str::escape_debug`). It depends on the characters alone.
pub uninterp spec fn debug_quoted(s: Seq<char>) -> Seq<char>;

/// `<str as Debug>::fmt`: the string quoted and escaped as `{:?}` writes it.
#[verifier::external_body]
pub fn debug_quoted_str(s: &str) -> (r: String)
    ensures
        r@ == debug_quoted(s@),
{
    format!("{:?}", s)
}

// ---------------------------------------------------------------------------
// Owned strings
// ---------------------------------------------------------------------------

/// The character sequences of a list of strings.
pub open spec fn strs(v: Seq<String>) -> Seq<Seq<char>> {
    v.map_values(|x: String| x@)
}

pub open spec fn opt_str(o: Option<String>) -> Option<Seq<char>> {
    match o {
        Some(s) => Some(s@),
        None => None,
    }
}

pub open spec fn opt_strs(o: Option<Vec<String>>) -> Option<Seq<Seq<char>>> {
    match o {
        Some(v) => Some(strs(v@)),
        None => None,
    }
}

/// A copy of a list of strings.
pub fn copy_strings(v: &Vec<String>) -> (r: Vec<String>)
    ensures
        strs(r@) == strs(v@),
{
    let mut r: Vec<String> = Vec::new();
    let mut i: usize = 0;
    while i < v.len()
        invariant
            i <= v@.len(),
            r@.len() == i,
            strs(r@) == strs(v@).take(i as int),
        decreases v.len() - i,
    {
        let ghost before = r@;
        let c = v[i].clone();
        assert(c@ == v@[i as int]@);
        r.push(c);
        assert(r@ == before.push(c));
        assert forall|k: int| 0 <= k < i + 1 implies #[trigger] strs(r@)[k] == strs(v@).take(i + 1)[k] by {
            if k < i {
                assert(strs(r@)[k] == r@[k]@);
                assert(r@[k] == before[k]);
                assert(strs(before)[k] == before[k]@);
            }
        }
        i = i + 1;
        assert(strs(r@) =~= strs(v@).take(i as int));
    }
    assert(strs(v@).take(i as int) =~= strs(v@));
    r
}

pub fn copy_opt_strings(o: &Option<Vec<String>>) -> (r: Option<Vec<String>>)
    ensures
        opt_strs(r) == opt_strs(*o),
{
    match o {
        Some(v) => Some(copy_strings(v)),
        None => None,
    }
}

pub fn copy_opt_string(o: &Option<String>) -> (r: Option<String>)
    ensures
        opt_str(r) == opt_str(*o),
{
    match o {
        Some(v) => Some(v.clone()),
        None => None,
    }
}

/// Is `s` one of the strings in `v`?
pub open spec fn str_in(v: Seq<String>, s: Seq<char>) -> bool {
    exists|i: int| 0 <= i < v.len() && #[trigger] v[i]@ == s
}

pub fn str_in_exec(v: &Vec<String>, s: &String) -> (b: bool)
    ensures
        b == str_in(v@, s@),
{
    let mut i: usize = 0;
    while i < v.len()
        invariant
            i <= v@.len(),
            forall|j: int| 0 <= j < i ==> #[trigger] v@[j]@ != s@,
        decreases v.len() - i,
    {
        if v[i] == *s {
            return true;
        }
        i = i + 1;
    }
    false
}

} // verus!
