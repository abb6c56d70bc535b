//! Character-level string helpers shared by the command modules.

use vstd::prelude::*;
use vstd::string::StringExecFns;

verus! {

/// The characters of each string of a sequence.
pub open spec fn views(v: Seq<String>) -> Seq<Seq<char>> {
    v.map_values(|s: String| s@)
}

/// The pieces joined with `sep` between each neighbouring pair
/// (`[].join(sep)` is empty, `[a].join(sep)` is `a`).
pub open spec fn join_spec(pieces: Seq<Seq<char>>, sep: Seq<char>) -> Seq<char>
    decreases pieces.len(),
{
    if pieces.len() == 0 {
        Seq::empty()
    } else if pieces.len() == 1 {
        pieces[0]
    } else {
        join_spec(pieces.drop_last(), sep) + sep + pieces.last()
    }
}

/// Appends one character to a `String` (`String::push`).
#[verifier::external_body]
pub fn push_char(s: &mut String, c: char)
    ensures
        final(s)@ == old(s)@.push(c),
{
    s.push(c)
}

/// The characters of a string slice, in order.
pub fn chars_of(s: &str) -> (v: Vec<char>)
    ensures
        v@ == s@,
{
    broadcast use vstd::string::group_string_axioms;

    let mut v: Vec<char> = Vec::new();
    for c in it: s.chars()
        invariant
            v@ == it.seq().take(it.index() as int),
    {
        v.push(c);
    }
    v
}

/// A `String` holding the given characters.
pub fn string_of(v: &Vec<char>) -> (s: String)
    ensures
        s@ == v@,
{
    let mut s = String::new();
    for i in 0..v.len()
        invariant
            s@ == v@.take(i as int),
    {
        push_char(&mut s, v[i]);
        assert(v@.take(i + 1) == v@.take(i as int).push(v@[i as int]));
    }
    assert(v@.take(v.len() as int) == v@);
    s
}

/// An owned copy of a string slice.
pub fn owned(s: &str) -> (r: String)
    ensures
        r@ == s@,
{
    String::from_str(s)
}

/// `a == b` for string slices.
pub fn text_eq(a: &str, b: &str) -> (r: bool)
    ensures
        r == (a@ == b@),
{
    let x = owned(a);
    let y = owned(b);
    x == y
}

/// `args.join(sep)`: the strings with `sep` between neighbours.
pub fn join(args: &Vec<String>, sep: &str) -> (r: String)
    ensures
        r@ == join_spec(views(args@), sep@),
{
    let mut r = String::new();
    let ghost all = views(args@);
    for i in 0..args.len()
        invariant
            all == views(args@),
            r@ == join_spec(all.take(i as int), sep@),
    {
        assert(all.take(i + 1).drop_last() == all.take(i as int));
        if i > 0 {
            r.append(sep);
        } else {
            assert(all.take(0) == Seq::<Seq<char>>::empty());
        }
        r.append(args[i].as_str());
    }
    assert(all.take(args.len() as int) == all);
    r
}


/// The character contents of each vector of a sequence.
pub open spec fn vviews(v: Seq<Vec<char>>) -> Seq<Seq<char>> {
    v.map_values(|x: Vec<char>| x@)
}

/// `sep` occurs in `s` at position `i`.
pub open spec fn occurs_at(s: Seq<char>, sep: Seq<char>, i: int) -> bool {
    0 <= i && i + sep.len() <= s.len() && s.subrange(i, i + sep.len()) == sep
}

/// Splitting `s` at each occurrence of `sep`, scanning from position `i`
/// with `cur` the part of the current piece read so far; occurrences are
/// taken leftmost first and do not overlap.
pub open spec fn split_from(s: Seq<char>, sep: Seq<char>, i: int, cur: Seq<char>) -> Seq<Seq<char>>
    decreases s.len() - i,
{
    if sep.len() == 0 || i >= s.len() {
        seq![cur]
    } else if occurs_at(s, sep, i) {
        seq![cur] + split_from(s, sep, i + sep.len(), Seq::empty())
    } else {
        split_from(s, sep, i + 1, cur.push(s[i]))
    }
}

/// `s.split(sep)` for a nonempty separator: the pieces between the
/// occurrences of `sep`, empty pieces included.
pub open spec fn split_spec(s: Seq<char>, sep: Seq<char>) -> Seq<Seq<char>> {
    split_from(s, sep, 0, Seq::empty())
}

fn occurs_at_exec(s: &Vec<char>, sep: &Vec<char>, i: usize) -> (r: bool)
    requires
        i <= s.len(),
    ensures
        r == occurs_at(s@, sep@, i as int),
{
    if sep.len() > s.len() - i {
        return false;
    }
    let mut k: usize = 0;
    while k < sep.len()
        invariant
            i + sep.len() <= s.len(),
            k <= sep.len(),
            forall|j: int| 0 <= j < k ==> s@[i + j] == sep@[j],
        decreases sep.len() - k,
    {
        if s[i + k] != sep[k] {
            assert(s@.subrange(i as int, i + sep.len())[k as int] != sep@[k as int]);
            return false;
        }
        k = k + 1;
    }
    assert(s@.subrange(i as int, i + sep.len()) == sep@);
    true
}

/// `s.split(sep)`.
pub fn split(s: &Vec<char>, sep: &Vec<char>) -> (r: Vec<Vec<char>>)
    requires
        sep.len() > 0,
    ensures
        vviews(r@) == split_spec(s@, sep@),
{
    let mut out: Vec<Vec<char>> = Vec::new();
    let mut cur: Vec<char> = Vec::new();
    let mut i: usize = 0;
    while i < s.len()
        invariant
            sep.len() > 0,
            i <= s.len(),
            vviews(out@) + split_from(s@, sep@, i as int, cur@) == split_spec(s@, sep@),
        decreases s.len() - i,
    {
        if occurs_at_exec(s, sep, i) {
            let ghost before = vviews(out@);
            let piece = cur;
            cur = Vec::new();
            out.push(piece);
            assert(vviews(out@) == before.push(piece@));
            assert(before + split_from(s@, sep@, i as int, piece@) == vviews(out@) + split_from(
                s@,
                sep@,
                i + sep.len(),
                cur@,
            ));
            i = i + sep.len();
        } else {
            cur.push(s[i]);
            i = i + 1;
        }
    }
    let ghost before = vviews(out@);
    out.push(cur);
    assert(vviews(out@) == before.push(cur@));
    out
}

proof fn lemma_join_prepend(a: Seq<char>, rest: Seq<Seq<char>>, sep: Seq<char>)
    requires
        rest.len() > 0,
    ensures
        join_spec(seq![a] + rest, sep) == a + sep + join_spec(rest, sep),
    decreases rest.len(),
{
    let all = seq![a] + rest;
    if rest.len() == 1 {
        assert(all.drop_last() == seq![a]);
        assert(join_spec(seq![a], sep) == a);
    } else {
        lemma_join_prepend(a, rest.drop_last(), sep);
        assert(all.drop_last() == seq![a] + rest.drop_last());
        assert(all.last() == rest.last());
        assert(a + sep + join_spec(rest, sep) == a + sep + join_spec(rest.drop_last(), sep) + sep
            + rest.last());
    }
}

proof fn lemma_join_split_from(s: Seq<char>, sep: Seq<char>, i: int, cur: Seq<char>)
    requires
        0 <= i <= s.len(),
        sep.len() > 0,
    ensures
        join_spec(split_from(s, sep, i, cur), sep) == cur + s.subrange(i, s.len() as int),
    decreases s.len() - i,
{
    if i >= s.len() {
        assert(s.subrange(i, s.len() as int) == Seq::<char>::empty());
        assert(cur + Seq::<char>::empty() == cur);
    } else if occurs_at(s, sep, i) {
        lemma_join_split_from(s, sep, i + sep.len(), Seq::empty());
        let rest = split_from(s, sep, i + sep.len(), Seq::empty());
        assert(rest.len() > 0) by {
            lemma_split_from_nonempty(s, sep, i + sep.len(), Seq::empty());
        }
        lemma_join_prepend(cur, rest, sep);
        assert(Seq::<char>::empty() + s.subrange(i + sep.len(), s.len() as int) == s.subrange(
            i + sep.len(),
            s.len() as int,
        ));
        assert(s.subrange(i, s.len() as int) == sep + s.subrange(i + sep.len(), s.len() as int));
    } else {
        lemma_join_split_from(s, sep, i + 1, cur.push(s[i]));
        assert(cur.push(s[i]) + s.subrange(i + 1, s.len() as int) == cur + s.subrange(
            i,
            s.len() as int,
        ));
    }
}

proof fn lemma_split_from_nonempty(s: Seq<char>, sep: Seq<char>, i: int, cur: Seq<char>)
    ensures
        split_from(s, sep, i, cur).len() > 0,
    decreases s.len() - i,
{
    if sep.len() == 0 || i >= s.len() {
    } else if occurs_at(s, sep, i) {
    } else {
        lemma_split_from_nonempty(s, sep, i + 1, cur.push(s[i]));
    }
}

/// Splitting loses nothing: joining the pieces of `s.split(sep)` with `sep`
/// gives back `s`.
pub proof fn law_join_of_split(s: Seq<char>, sep: Seq<char>)
    requires
        sep.len() > 0,
    ensures
        join_spec(split_spec(s, sep), sep) == s,
{
    lemma_join_split_from(s, sep, 0, Seq::empty());
    assert(s.subrange(0, s.len() as int) == s);
    assert(Seq::<char>::empty() + s == s);
}

/// Splitting looks only at what lies ahead of the scan.
pub proof fn lemma_split_from_skip(s: Seq<char>, sep: Seq<char>, i: int, cur: Seq<char>)
    requires
        0 <= i <= s.len(),
    ensures
        split_from(s, sep, i, cur) == split_from(s.skip(i), sep, 0, cur),
    decreases s.len() - i,
{
    let t = s.skip(i);
    if sep.len() == 0 || i >= s.len() {
    } else {
        if i + sep.len() <= s.len() {
            assert(s.subrange(i, i + sep.len()) == t.subrange(0, sep.len() as int));
        }
        if occurs_at(s, sep, i) {
            assert(occurs_at(t, sep, 0));
            lemma_split_from_skip(s, sep, i + sep.len(), Seq::empty());
            lemma_split_from_skip(t, sep, sep.len() as int, Seq::empty());
            assert(t.skip(sep.len() as int) == s.skip(i + sep.len()));
        } else {
            assert(!occurs_at(t, sep, 0));
            assert(t[0] == s[i]);
            lemma_split_from_skip(s, sep, i + 1, cur.push(s[i]));
            lemma_split_from_skip(t, sep, 1, cur.push(s[i]));
            assert(t.skip(1) == s.skip(i + 1));
        }
    }
}

/// Scanning a stretch in which `sep` does not start adds the stretch to the
/// current piece.
pub proof fn lemma_split_from_scan(s: Seq<char>, sep: Seq<char>, i: int, j: int, cur: Seq<char>)
    requires
        0 <= i <= j <= s.len(),
        sep.len() > 0,
        forall|k: int| i <= k < j ==> !occurs_at(s, sep, k),
    ensures
        split_from(s, sep, i, cur) == split_from(s, sep, j, cur + s.subrange(i, j)),
    decreases j - i,
{
    if i == j {
        assert(cur + s.subrange(i, j) == cur);
    } else {
        assert(!occurs_at(s, sep, i));
        lemma_split_from_scan(s, sep, i + 1, j, cur.push(s[i]));
        assert(cur.push(s[i]) + s.subrange(i + 1, j) == cur + s.subrange(i, j));
    }
}

/// A text in which the separator never occurs is one piece.
pub proof fn lemma_split_without_separator(s: Seq<char>, sep: Seq<char>)
    requires
        sep.len() > 0,
        forall|k: int| 0 <= k < s.len() ==> !occurs_at(s, sep, k),
    ensures
        split_spec(s, sep) == seq![s],
{
    lemma_split_from_scan(s, sep, 0, s.len() as int, Seq::empty());
    assert(Seq::<char>::empty() + s.subrange(0, s.len() as int) == s);
}

/// Arguments joined with a one-character separator that none of them
/// holds split back into the same arguments.
pub proof fn law_split_of_join(pieces: Seq<Seq<char>>, c: char)
    requires
        pieces.len() > 0,
        forall|i: int, k: int| 0 <= i < pieces.len() && 0 <= k < pieces[i].len() ==> pieces[i][k] != c,
    ensures
        split_spec(join_spec(pieces, seq![c]), seq![c]) == pieces,
    decreases pieces.len(),
{
    let sep = seq![c];
    let a = pieces[0];
    if pieces.len() == 1 {
        let s = join_spec(pieces, sep);
        assert(s == a);
        assert forall|k: int| 0 <= k < s.len() implies !occurs_at(s, sep, k) by {
            if occurs_at(s, sep, k) {
                assert(s.subrange(k, k + 1)[0] == s[k]);
                assert(a[k] != c);
            }
        }
        lemma_split_from_scan(s, sep, 0, s.len() as int, Seq::empty());
        assert(Seq::<char>::empty() + s.subrange(0, s.len() as int) == s);
    } else {
        let rest = pieces.drop_first();
        assert(pieces == seq![a] + rest);
        lemma_join_prepend(a, rest, sep);
        let j = join_spec(rest, sep);
        let s = join_spec(pieces, sep);
        assert(s == a + sep + j);
        let n = a.len() as int;
        assert forall|k: int| 0 <= k < n implies !occurs_at(s, sep, k) by {
            if occurs_at(s, sep, k) {
                assert(s.subrange(k, k + 1)[0] == s[k]);
                assert(s[k] == a[k]);
                assert(pieces[0][k] != c);
            }
        }
        lemma_split_from_scan(s, sep, 0, n, Seq::empty());
        assert(Seq::<char>::empty() + s.subrange(0, n) == a);
        assert(s.subrange(n, n + 1) == sep);
        assert(occurs_at(s, sep, n));
        lemma_split_from_skip(s, sep, n + 1, Seq::empty());
        assert(s.skip(n + 1) == j);
        assert forall|i: int, k: int| 0 <= i < rest.len() && 0 <= k < rest[i].len() implies rest[i][k]
            != c by {
            assert(rest[i] == pieces[i + 1]);
        }
        law_split_of_join(rest, c);
        assert(split_spec(s, sep) == seq![a] + rest);
    }
}

} // verus!
