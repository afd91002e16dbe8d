//! Lexicographic order on character sequences, as `str`'s `Ord` compares
//! (UTF-8 byte order coincides with code-point order).

use vstd::prelude::*;

verus! {

/// `a` comes before `b`, or equals it, in lexicographic order.
pub open spec fn lex_le(a: Seq<char>, b: Seq<char>) -> bool
    decreases a.len(),
{
    if a.len() == 0 {
        true
    } else if b.len() == 0 {
        false
    } else if (a[0] as int) < (b[0] as int) {
        true
    } else if a[0] == b[0] {
        lex_le(a.drop_first(), b.drop_first())
    } else {
        false
    }
}

pub proof fn lemma_lex_le_reflexive(a: Seq<char>)
    ensures
        lex_le(a, a),
    decreases a.len(),
{
    if a.len() > 0 {
        lemma_lex_le_reflexive(a.drop_first());
    }
}

pub proof fn lemma_lex_le_total(a: Seq<char>, b: Seq<char>)
    ensures
        lex_le(a, b) || lex_le(b, a),
    decreases a.len(),
{
    if a.len() > 0 && b.len() > 0 {
        if a[0] == b[0] {
            lemma_lex_le_total(a.drop_first(), b.drop_first());
        } else {
            assert((a[0] as int) != (b[0] as int));
        }
    }
}

pub proof fn lemma_lex_le_transitive(a: Seq<char>, b: Seq<char>, c: Seq<char>)
    requires
        lex_le(a, b),
        lex_le(b, c),
    ensures
        lex_le(a, c),
    decreases a.len(),
{
    if a.len() > 0 && b.len() > 0 && c.len() > 0 && a[0] == b[0] && b[0] == c[0] {
        lemma_lex_le_transitive(a.drop_first(), b.drop_first(), c.drop_first());
    }
}

pub proof fn lemma_lex_le_antisymmetric(a: Seq<char>, b: Seq<char>)
    requires
        lex_le(a, b),
        lex_le(b, a),
    ensures
        a == b,
    decreases a.len(),
{
    if a.len() > 0 && b.len() > 0 {
        lemma_lex_le_antisymmetric(a.drop_first(), b.drop_first());
        assert(a =~= seq![a[0]] + a.drop_first());
        assert(b =~= seq![b[0]] + b.drop_first());
    }
}

/// Two ascending lists without repeats that hold the same strings are the
/// same list.
pub proof fn lemma_sorted_unique_by_set(a: Seq<Seq<char>>, b: Seq<Seq<char>>)
    requires
        sorted_strs(a),
        sorted_strs(b),
        a.no_duplicates(),
        b.no_duplicates(),
        a.to_set() == b.to_set(),
    ensures
        a == b,
    decreases a.len(),
{
    if a.len() == 0 {
        if b.len() > 0 {
            assert(b.to_set().contains(b[0]));
            assert(a.to_set().contains(b[0]));
        }
        assert(a =~= b);
    } else {
        assert(a.to_set().contains(a[0]));
        assert(b.to_set().contains(a[0]));
        let j = choose|j: int| 0 <= j < b.len() && b[j] == a[0];
        assert(b.to_set().contains(b[0]));
        assert(a.to_set().contains(b[0]));
        let i = choose|i: int| 0 <= i < a.len() && a[i] == b[0];
        if i > 0 {
            assert(lex_le(a[0], a[i]));
        } else {
            lemma_lex_le_reflexive(a[0]);
        }
        if j > 0 {
            assert(lex_le(b[0], b[j]));
        } else {
            lemma_lex_le_reflexive(b[0]);
        }
        lemma_lex_le_antisymmetric(a[0], b[0]);
        let a1 = a.drop_first();
        let b1 = b.drop_first();
        assert forall|x: Seq<char>| a1.to_set().contains(x) <==> b1.to_set().contains(x) by {
            if a1.to_set().contains(x) {
                let k = choose|k: int| 0 <= k < a1.len() && a1[k] == x;
                assert(a[k + 1] == x);
                assert(x != a[0]);
                assert(b.to_set().contains(x));
                let m = choose|m: int| 0 <= m < b.len() && b[m] == x;
                assert(m != 0);
                assert(b1[m - 1] == x);
            }
            if b1.to_set().contains(x) {
                let k = choose|k: int| 0 <= k < b1.len() && b1[k] == x;
                assert(b[k + 1] == x);
                assert(x != b[0]);
                assert(a.to_set().contains(x));
                let m = choose|m: int| 0 <= m < a.len() && a[m] == x;
                assert(m != 0);
                assert(a1[m - 1] == x);
            }
        }
        assert(a1.to_set() =~= b1.to_set());
        assert forall|p: int, q: int| 0 <= p < q < a1.len() implies lex_le(#[trigger] a1[p], #[trigger] a1[q]) by {
            assert(a1[p] == a[p + 1] && a1[q] == a[q + 1]);
        }
        assert forall|p: int, q: int| 0 <= p < q < b1.len() implies lex_le(#[trigger] b1[p], #[trigger] b1[q]) by {
            assert(b1[p] == b[p + 1] && b1[q] == b[q + 1]);
        }
        assert(a1.no_duplicates()) by {
            assert forall|p: int, q: int| 0 <= p < a1.len() && 0 <= q < a1.len() && p != q implies a1[p] != a1[q] by {
                assert(a1[p] == a[p + 1] && a1[q] == a[q + 1]);
            }
        }
        assert(b1.no_duplicates()) by {
            assert forall|p: int, q: int| 0 <= p < b1.len() && 0 <= q < b1.len() && p != q implies b1[p] != b1[q] by {
                assert(b1[p] == b[p + 1] && b1[q] == b[q + 1]);
            }
        }
        lemma_sorted_unique_by_set(a1, b1);
        assert(a =~= seq![a[0]] + a1);
        assert(b =~= seq![b[0]] + b1);
    }
}

/// Lexicographic comparison of two character sequences.
pub fn lex_le_exec(a: &[char], b: &[char]) -> (r: bool)
    ensures
        r == lex_le(a@, b@),
{
    let mut i: usize = 0;
    assert(a@.skip(0) =~= a@);
    assert(b@.skip(0) =~= b@);
    while i < a.len() && i < b.len() && a[i] == b[i]
        invariant
            i <= a@.len(),
            i <= b@.len(),
            lex_le(a@, b@) == lex_le(a@.skip(i as int), b@.skip(i as int)),
        decreases a.len() - i,
    {
        assert(a@.skip(i as int).drop_first() =~= a@.skip(i + 1));
        assert(b@.skip(i as int).drop_first() =~= b@.skip(i + 1));
        i = i + 1;
    }
    if i == a.len() {
        true
    } else if i == b.len() {
        false
    } else {
        a[i] < b[i]
    }
}

/// Lexicographic comparison of two strings.
pub fn str_le(a: &String, b: &String) -> (r: bool)
    ensures
        r == lex_le(a@, b@),
{
    let x = crate::text::string_chars(a);
    let y = crate::text::string_chars(b);
    lex_le_exec(x.as_slice(), y.as_slice())
}

/// The strings are in ascending lexicographic order.
pub open spec fn sorted_strs(s: Seq<Seq<char>>) -> bool {
    forall|i: int, j: int| 0 <= i < j < s.len() ==> lex_le(#[trigger] s[i], #[trigger] s[j])
}

/// The strings of `v` in ascending order, as `sort` on a `Vec<String>`
/// leaves them.
pub fn sort_strings(v: Vec<String>) -> (out: Vec<String>)
    ensures
        sorted_strs(crate::text::strs(out@)),
        crate::text::strs(out@).to_multiset() == crate::text::strs(v@).to_multiset(),
{
    broadcast use vstd::seq_lib::group_to_multiset_ensures;
    let ghost orig = crate::text::strs(v@);
    let mut rest = v;
    let mut out: Vec<String> = Vec::new();
    while rest.len() > 0
        invariant
            sorted_strs(crate::text::strs(out@)),
            crate::text::strs(out@).to_multiset().add(crate::text::strs(rest@).to_multiset()) == orig.to_multiset(),
        decreases rest.len(),
    {
        let ghost old_rest = rest@;
        let x = rest.pop().unwrap();
        let ghost xs = crate::text::strs(rest@);
        proof {
            assert(old_rest == rest@.push(x));
            assert(crate::text::strs(old_rest) =~= xs.push(x@));
        }
        let mut j: usize = 0;
        while j < out.len() && str_le(&out[j], &x)
            invariant
                j <= out@.len(),
                forall|k: int| 0 <= k < j ==> lex_le(#[trigger] out@[k]@, x@),
            decreases out.len() - j,
        {
            j = j + 1;
        }
        let ghost before = crate::text::strs(out@);
        out.insert(j, x);
        proof {
            let after = crate::text::strs(out@);
            assert(after =~= before.insert(j as int, x@));
            vstd::seq_lib::to_multiset_insert(before, j as int, x@);
            if j < before.len() {
                lemma_lex_le_total(before[j as int], x@);
            }
            assert forall|a: int, b: int| 0 <= a < b < after.len() implies lex_le(#[trigger] after[a], #[trigger] after[b]) by {
                if a < j && b == j {
                } else if a == j && b > j {
                    if b - 1 == j {
                        lemma_lex_le_reflexive(before[j as int]);
                    }
                    lemma_lex_le_transitive(x@, before[j as int], before[b - 1]);
                } else if a < j && b > j {
                } else {
                }
            }
            vstd::seq_lib::to_multiset_build(xs, x@);
            assert(after.to_multiset().add(xs.to_multiset()) =~= before.to_multiset().add(xs.push(x@).to_multiset()));
        }
    }
    assert(crate::text::strs(rest@).to_multiset() =~= vstd::multiset::Multiset::empty());
    out
}

} // verus!
