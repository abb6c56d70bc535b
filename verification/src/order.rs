//! The order of `str` (lexicographic by character), and sorting a list of
//! strings with repeats removed, as `sort` followed by `dedup` does.

use vstd::prelude::*;
use crate::text::vviews;

verus! {

/// `a < b` for strings: the first differing character decides, and a proper
/// prefix comes first. (UTF-8 keeps code point order, so this is also the
/// byte order that `str` compares by.)
pub open spec fn lex_lt(a: Seq<char>, b: Seq<char>) -> bool
    decreases a.len(),
{
    if b.len() == 0 {
        false
    } else if a.len() == 0 {
        true
    } else if a[0] != b[0] {
        a[0] < b[0]
    } else {
        lex_lt(a.drop_first(), b.drop_first())
    }
}

/// Each string is smaller than every later one: sorted, with no repeats.
pub open spec fn strictly_sorted(s: Seq<Seq<char>>) -> bool {
    forall|i: int, j: int| 0 <= i < j < s.len() ==> lex_lt(#[trigger] s[i], #[trigger] s[j])
}

/// `a` and `b` hold the same strings, whatever their order and repeats.
pub open spec fn same_elements(a: Seq<Seq<char>>, b: Seq<Seq<char>>) -> bool {
    forall|x: Seq<char>| a.contains(x) <==> b.contains(x)
}

pub proof fn lemma_lex_irreflexive(a: Seq<char>)
    ensures
        !lex_lt(a, a),
    decreases a.len(),
{
    if a.len() > 0 {
        lemma_lex_irreflexive(a.drop_first());
    }
}

pub proof fn lemma_lex_transitive(a: Seq<char>, b: Seq<char>, c: Seq<char>)
    requires
        lex_lt(a, b),
        lex_lt(b, c),
    ensures
        lex_lt(a, c),
    decreases a.len(),
{
    if a.len() > 0 && b.len() > 0 && c.len() > 0 && a[0] == b[0] && b[0] == c[0] {
        lemma_lex_transitive(a.drop_first(), b.drop_first(), c.drop_first());
    }
}

pub proof fn lemma_lex_total(a: Seq<char>, b: Seq<char>)
    requires
        a != b,
    ensures
        lex_lt(a, b) || lex_lt(b, a),
    decreases a.len(),
{
    if a.len() > 0 && b.len() > 0 && a[0] == b[0] {
        if a.drop_first() == b.drop_first() {
            assert(a == seq![a[0]] + a.drop_first());
            assert(b == seq![b[0]] + b.drop_first());
        }
        lemma_lex_total(a.drop_first(), b.drop_first());
    } else if a.len() == 0 && b.len() == 0 {
        assert(a == b);
    } else if a.len() > 0 && b.len() > 0 {
    }
}

/// `a < b`.
pub fn lex_less(a: &Vec<char>, b: &Vec<char>) -> (r: bool)
    ensures
        r == lex_lt(a@, b@),
{
    let mut i: usize = 0;
    assert(a@.skip(0) == a@ && b@.skip(0) == b@);
    while i < a.len() && i < b.len() && a[i] == b[i]
        invariant
            i <= a.len(),
            i <= b.len(),
            lex_lt(a@, b@) == lex_lt(a@.skip(i as int), b@.skip(i as int)),
        decreases a.len() - i,
    {
        assert(a@.skip(i as int).drop_first() == a@.skip(i + 1));
        assert(b@.skip(i as int).drop_first() == b@.skip(i + 1));
        i = i + 1;
    }
    if i == b.len() {
        false
    } else if i == a.len() {
        true
    } else {
        a[i] < b[i]
    }
}

/// `a == b`.
pub fn same_text(a: &Vec<char>, b: &Vec<char>) -> (r: bool)
    ensures
        r == (a@ == b@),
{
    if a.len() != b.len() {
        return false;
    }
    let mut i: usize = 0;
    while i < a.len()
        invariant
            a.len() == b.len(),
            i <= a.len(),
            forall|j: int| 0 <= j < i ==> a@[j] == b@[j],
        decreases a.len() - i,
    {
        if a[i] != b[i] {
            return false;
        }
        i = i + 1;
    }
    assert(a@ == b@);
    true
}

/// Adds `x` to a sorted list without repeats, keeping it so.
fn insert_sorted(out: &mut Vec<Vec<char>>, x: Vec<char>)
    requires
        strictly_sorted(vviews(old(out)@)),
    ensures
        strictly_sorted(vviews(final(out)@)),
        forall|y: Seq<char>| vviews(final(out)@).contains(y) <==> (vviews(old(out)@).contains(y) || y == x@),
        final(out)@.len() <= old(out)@.len() + 1,
{
    let ghost old_v = vviews(out@);
    let mut p: usize = 0;
    while p < out.len() && lex_less(&out[p], &x)
        invariant
            old_v == vviews(out@),
            p <= out.len(),
            forall|j: int| 0 <= j < p ==> lex_lt(#[trigger] old_v[j], x@),
        decreases out.len() - p,
    {
        p = p + 1;
    }
    if p < out.len() && same_text(&out[p], &x) {
        assert(old_v[p as int] == x@);
        return;
    }
    let ghost xv = x@;
    out.insert(p, x);
    let ghost new_v = vviews(out@);
    assert(new_v == old_v.take(p as int) + seq![xv] + old_v.skip(p as int));
    proof {
        if p < old_v.len() {
            assert(!lex_lt(old_v[p as int], xv));
            assert(old_v[p as int] != xv);
            lemma_lex_total(old_v[p as int], xv);
        }
        assert forall|i: int, j: int| 0 <= i < j < new_v.len() implies lex_lt(
            #[trigger] new_v[i],
            #[trigger] new_v[j],
        ) by {
            if j < p {
                assert(new_v[i] == old_v[i] && new_v[j] == old_v[j]);
            } else if j == p {
                assert(new_v[i] == old_v[i]);
            } else if i < p {
                assert(new_v[i] == old_v[i] && new_v[j] == old_v[j - 1]);
                assert(lex_lt(old_v[i], old_v[j - 1]));
            } else if i == p {
                assert(new_v[j] == old_v[j - 1]);
                if j - 1 > p {
                    assert(lex_lt(old_v[p as int], old_v[j - 1]));
                    lemma_lex_transitive(xv, old_v[p as int], old_v[j - 1]);
                }
            } else {
                assert(new_v[i] == old_v[i - 1] && new_v[j] == old_v[j - 1]);
            }
        }
        assert forall|y: Seq<char>| new_v.contains(y) <==> (old_v.contains(y) || y == xv) by {
            if new_v.contains(y) {
                let k = choose|k: int| 0 <= k < new_v.len() && new_v[k] == y;
                if k < p {
                    assert(old_v[k] == y);
                } else if k > p {
                    assert(old_v[k - 1] == y);
                }
            }
            if old_v.contains(y) {
                let k = choose|k: int| 0 <= k < old_v.len() && old_v[k] == y;
                if k < p {
                    assert(new_v[k] == y);
                } else {
                    assert(new_v[k + 1] == y);
                }
            }
            if y == xv {
                assert(new_v[p as int] == y);
            }
        }
    }
}

/// `items.sort(); items.dedup();`: the strings in increasing order, each once.
pub fn sorted_distinct(items: Vec<Vec<char>>) -> (r: Vec<Vec<char>>)
    ensures
        strictly_sorted(vviews(r@)),
        same_elements(vviews(r@), vviews(items@)),
        r@.len() <= items@.len(),
{
    let mut out: Vec<Vec<char>> = Vec::new();
    let n = items.len();
    let ghost all = vviews(items@);
    let mut rest = items;
    let mut i: usize = 0;
    while i < n
        invariant
            n == all.len(),
            i <= n,
            vviews(rest@) == all,
            strictly_sorted(vviews(out@)),
            same_elements(vviews(out@), all.take(i as int)),
            out@.len() <= i,
        decreases n - i,
    {
        let x = rest[i].clone();
        assert(x@ == all[i as int]);
        let ghost before = vviews(out@);
        insert_sorted(&mut out, x);
        assert(all.take(i + 1) == all.take(i as int).push(all[i as int]));
        assert forall|y: Seq<char>| vviews(out@).contains(y) <==> all.take(i + 1).contains(y) by {
            if all.take(i + 1).contains(y) {
                let k = choose|k: int| 0 <= k < i + 1 && #[trigger] all.take(i + 1)[k] == y;
                if k < i {
                    assert(all.take(i as int)[k] == y);
                    assert(all.take(i as int).contains(y));
                    assert(before.contains(y));
                } else {
                    assert(y == x@);
                }
            }
            if vviews(out@).contains(y) {
                if before.contains(y) {
                    assert(all.take(i as int).contains(y));
                } else {
                    assert(y == all[i as int]);
                    assert(all.take(i + 1)[i as int] == y);
                }
            }
            if all.take(i as int).contains(y) {
                let k = choose|k: int| 0 <= k < i && #[trigger] all.take(i as int)[k] == y;
                assert(all.take(i + 1)[k] == y);
            }
        }
        i = i + 1;
    }
    assert(all.take(n as int) == all);
    out
}

/// A sorted list without repeats is fixed by the strings it holds: two such
/// lists with the same strings are the same list.
pub proof fn law_sorted_list_unique(a: Seq<Seq<char>>, b: Seq<Seq<char>>)
    requires
        strictly_sorted(a),
        strictly_sorted(b),
        same_elements(a, b),
    ensures
        a == b,
    decreases a.len(),
{
    if a.len() == 0 {
        if b.len() > 0 {
            assert(b.contains(b[0]));
        }
        assert(b.len() == 0);
    } else {
        assert(a.contains(a[0]));
        let k = choose|k: int| 0 <= k < b.len() && b[k] == a[0];
        assert(b.contains(b[0]));
        let m = choose|m: int| 0 <= m < a.len() && a[m] == b[0];
        if k > 0 {
            assert(lex_lt(b[0], b[k]));
            if m > 0 {
                assert(lex_lt(a[0], a[m]));
                lemma_lex_transitive(b[0], a[0], b[0]);
            }
            lemma_lex_irreflexive(b[0]);
        }
        assert(a[0] == b[0]);
        let a1 = a.drop_first();
        let b1 = b.drop_first();
        assert forall|x: Seq<char>| a1.contains(x) <==> b1.contains(x) by {
            if a1.contains(x) {
                let i = choose|i: int| 0 <= i < a1.len() && a1[i] == x;
                assert(a[i + 1] == x);
                assert(lex_lt(a[0], x));
                assert(b.contains(x));
                let j = choose|j: int| 0 <= j < b.len() && b[j] == x;
                if j == 0 {
                    lemma_lex_irreflexive(x);
                }
                assert(b1[j - 1] == x);
            }
            if b1.contains(x) {
                let i = choose|i: int| 0 <= i < b1.len() && b1[i] == x;
                assert(b[i + 1] == x);
                assert(lex_lt(b[0], x));
                assert(a.contains(x));
                let j = choose|j: int| 0 <= j < a.len() && a[j] == x;
                if j == 0 {
                    lemma_lex_irreflexive(x);
                }
                assert(a1[j - 1] == x);
            }
        }
        assert forall|i: int, j: int| 0 <= i < j < a1.len() implies lex_lt(
            #[trigger] a1[i],
            #[trigger] a1[j],
        ) by {
            assert(a1[i] == a[i + 1] && a1[j] == a[j + 1]);
        }
        assert forall|i: int, j: int| 0 <= i < j < b1.len() implies lex_lt(
            #[trigger] b1[i],
            #[trigger] b1[j],
        ) by {
            assert(b1[i] == b[i + 1] && b1[j] == b[j + 1]);
        }
        law_sorted_list_unique(a1, b1);
        assert(a == seq![a[0]] + a1);
        assert(b == seq![b[0]] + b1);
    }
}

} // verus!
