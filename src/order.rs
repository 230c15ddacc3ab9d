//! Code-point order on lines, and sorted sequences of distinct lines.

use vstd::prelude::*;

verus! {

/// Code-point (lexicographic) order: `a` sorts strictly before `b`.
pub open spec fn lex_lt(a: Seq<char>, b: Seq<char>) -> bool
    decreases a.len(),
{
    if a.len() == 0 {
        b.len() > 0
    } else if b.len() == 0 {
        false
    } else if a[0] != b[0] {
        a[0] < b[0]
    } else {
        lex_lt(a.drop_first(), b.drop_first())
    }
}

/// Each line sorts strictly before every later one.
pub open spec fn sorted_strict(ls: Seq<Seq<char>>) -> bool {
    forall|i: int, j: int| 0 <= i < j < ls.len() ==> lex_lt(#[trigger] ls[i], #[trigger] ls[j])
}

/// The lines written one after another.
pub open spec fn concat(ls: Seq<Seq<char>>) -> Seq<char>
    decreases ls.len(),
{
    if ls.len() == 0 {
        seq![]
    } else {
        concat(ls.drop_last()) + ls.last()
    }
}

/// The lines of a set in code-point order, each once, written one after
/// another.
pub open spec fn sorted_text(s: Set<Seq<char>>) -> Seq<char> {
    concat(choose|ls: Seq<Seq<char>>| sorted_strict(ls) && ls.to_set() == s)
}

pub proof fn lemma_lex_irreflexive(a: Seq<char>)
    ensures
        !lex_lt(a, a),
    decreases a.len(),
{
    if a.len() > 0 {
        lemma_lex_irreflexive(a.drop_first());
    }
}

pub proof fn lemma_lex_transitive(a: Seq<char>, b: Seq<char>, c: Seq<char>)
    requires
        lex_lt(a, b),
        lex_lt(b, c),
    ensures
        lex_lt(a, c),
    decreases a.len(),
{
    if a.len() > 0 && a[0] == b[0] && b[0] == c[0] {
        lemma_lex_transitive(a.drop_first(), b.drop_first(), c.drop_first());
    }
}

pub proof fn lemma_lex_total(a: Seq<char>, b: Seq<char>)
    ensures
        a == b || lex_lt(a, b) || lex_lt(b, a),
    decreases a.len(),
{
    if a.len() == 0 || b.len() == 0 {
        if a.len() == 0 && b.len() == 0 {
            assert(a =~= b);
        }
    } else if a[0] == b[0] {
        lemma_lex_total(a.drop_first(), b.drop_first());
        if a.drop_first() == b.drop_first() {
            assert(a =~= seq![a[0]] + a.drop_first());
            assert(b =~= seq![b[0]] + b.drop_first());
        }
    } else {
        assert(a[0] < b[0] || b[0] < a[0]);
    }
}

/// Two sorted sequences of distinct lines with the same lines are equal.
pub proof fn lemma_sorted_unique(a: Seq<Seq<char>>, b: Seq<Seq<char>>)
    requires
        sorted_strict(a),
        sorted_strict(b),
        a.to_set() == b.to_set(),
    ensures
        a == b,
    decreases a.len(),
{
    if a.len() == 0 || b.len() == 0 {
        if a.len() > 0 {
            assert(a.to_set().contains(a[0]));
        }
        if b.len() > 0 {
            assert(b.to_set().contains(b[0]));
        }
        assert(a =~= b);
    } else {
        assert(a.to_set().contains(a[0]));
        assert(b.to_set().contains(b[0]));
        let j = choose|j: int| 0 <= j < b.len() && b[j] == a[0];
        let i = choose|i: int| 0 <= i < a.len() && a[i] == b[0];
        if a[0] != b[0] {
            assert(lex_lt(b[0], b[j]));
            assert(lex_lt(a[0], a[i]));
            lemma_lex_transitive(a[0], b[0], a[0]);
            lemma_lex_irreflexive(a[0]);
        }
        let ta = a.drop_first();
        let tb = b.drop_first();
        assert forall|x: Seq<char>| ta.to_set().contains(x) implies tb.to_set().contains(x) by {
            let k = choose|k: int| 0 <= k < ta.len() && ta[k] == x;
            assert(a[k + 1] == x);
            assert(lex_lt(a[0], x));
            lemma_lex_irreflexive(x);
            assert(b.to_set().contains(x));
            let m = choose|m: int| 0 <= m < b.len() && b[m] == x;
            assert(m != 0);
            assert(tb[m - 1] == x);
        }
        assert forall|x: Seq<char>| tb.to_set().contains(x) implies ta.to_set().contains(x) by {
            let k = choose|k: int| 0 <= k < tb.len() && tb[k] == x;
            assert(b[k + 1] == x);
            assert(lex_lt(b[0], x));
            lemma_lex_irreflexive(x);
            assert(a.to_set().contains(x));
            let m = choose|m: int| 0 <= m < a.len() && a[m] == x;
            assert(m != 0);
            assert(ta[m - 1] == x);
        }
        assert(ta.to_set() =~= tb.to_set());
        assert(sorted_strict(ta)) by {
            assert forall|p: int, q: int| 0 <= p < q < ta.len() implies lex_lt(ta[p], ta[q]) by {
                assert(ta[p] == a[p + 1] && ta[q] == a[q + 1]);
            }
        }
        assert(sorted_strict(tb)) by {
            assert forall|p: int, q: int| 0 <= p < q < tb.len() implies lex_lt(tb[p], tb[q]) by {
                assert(tb[p] == b[p + 1] && tb[q] == b[q + 1]);
            }
        }
        lemma_sorted_unique(ta, tb);
        assert(a =~= seq![a[0]] + ta);
        assert(b =~= seq![b[0]] + tb);
    }
}

/// A sorted sequence of distinct lines is the one that `sorted_text` writes
/// for its set.
pub proof fn lemma_sorted_text(ls: Seq<Seq<char>>)
    requires
        sorted_strict(ls),
    ensures
        sorted_text(ls.to_set()) == concat(ls),
{
    let c = choose|c: Seq<Seq<char>>| sorted_strict(c) && c.to_set() == ls.to_set();
    assert(sorted_strict(ls) && ls.to_set() == ls.to_set());
    lemma_sorted_unique(c, ls);
}

} // verus!

verus! {

/// The characters of each line.
pub open spec fn views(ls: Seq<Vec<char>>) -> Seq<Seq<char>> {
    ls.map_values(|v: Vec<char>| v@)
}

/// Whether `a` sorts strictly before `b` in code-point order.
pub fn lex_less(a: &Vec<char>, b: &Vec<char>) -> (r: bool)
    ensures
        r == lex_lt(a@, b@),
{
    let mut i: usize = 0;
    assert(a@.skip(0) =~= a@);
    assert(b@.skip(0) =~= b@);
    while i < a.len() && i < b.len()
        invariant
            i <= a@.len(),
            i <= b@.len(),
            lex_lt(a@, b@) == lex_lt(a@.skip(i as int), b@.skip(i as int)),
        decreases a@.len() - i,
    {
        if a[i] != b[i] {
            return a[i] < b[i];
        }
        assert(a@.skip(i as int).drop_first() =~= a@.skip(i + 1));
        assert(b@.skip(i as int).drop_first() =~= b@.skip(i + 1));
        i = i + 1;
    }
    i < b.len()
}

/// Puts a line into a sorted sequence of distinct lines, where it is not
/// there yet.
pub fn insert_line(ls: &mut Vec<Vec<char>>, x: Vec<char>)
    requires
        sorted_strict(views(old(ls)@)),
    ensures
        sorted_strict(views(final(ls)@)),
        views(final(ls)@).to_set() == views(old(ls)@).to_set().insert(x@),
{
    let ghost old_v = views(ls@);
    let n = ls.len();
    let mut k: usize = 0;
    while k < n
        invariant
            n == ls@.len(),
            old_v == views(ls@),
            k <= n,
            forall|i: int| 0 <= i < k ==> lex_lt(#[trigger] old_v[i], x@),
        ensures
            k <= n,
            forall|i: int| 0 <= i < k ==> lex_lt(#[trigger] old_v[i], x@),
            k < n ==> !lex_lt(old_v[k as int], x@),
        decreases n - k,
    {
        if !lex_less(&ls[k], &x) {
            break;
        }
        k = k + 1;
    }
    if k < n && !lex_less(&x, &ls[k]) {
        proof {
            lemma_lex_total(old_v[k as int], x@);
            assert(old_v[k as int] == x@);
            assert(old_v.to_set().contains(old_v[k as int]));
            assert(old_v.to_set().insert(x@) =~= old_v.to_set());
        }
        return;
    }
    ls.insert(k, x);
    proof {
        let nv = views(ls@);
        assert(nv =~= old_v.insert(k as int, x@));
        if k < n {
            lemma_lex_total(old_v[k as int], x@);
        }
        assert forall|i: int, j: int| 0 <= i < j < nv.len() implies lex_lt(
            #[trigger] nv[i],
            #[trigger] nv[j],
        ) by {
            if j < k {
            } else if j == k {
            } else if i < k {
                assert(lex_lt(old_v[i], x@));
                assert(lex_lt(x@, old_v[k as int]));
                if j - 1 > k {
                    lemma_lex_transitive(x@, old_v[k as int], old_v[j - 1]);
                }
                lemma_lex_transitive(old_v[i], x@, old_v[j - 1]);
            } else if i == k {
                if j - 1 > k {
                    lemma_lex_transitive(x@, old_v[k as int], old_v[j - 1]);
                }
            } else {
                assert(nv[i] == old_v[i - 1] && nv[j] == old_v[j - 1]);
            }
        }
        assert forall|y: Seq<char>| nv.to_set().contains(y) <==> old_v.to_set().insert(
            x@,
        ).contains(y) by {
            if nv.to_set().contains(y) {
                let m = choose|m: int| 0 <= m < nv.len() && nv[m] == y;
                if m < k {
                    assert(old_v[m] == y);
                } else if m > k {
                    assert(old_v[m - 1] == y);
                }
            }
            if old_v.to_set().contains(y) {
                let m = choose|m: int| 0 <= m < old_v.len() && old_v[m] == y;
                if m < k {
                    assert(nv[m] == y);
                } else {
                    assert(nv[m + 1] == y);
                }
            }
            if y == x@ {
                assert(nv[k as int] == y);
            }
        }
        assert(nv.to_set() =~= old_v.to_set().insert(x@));
    }
}

/// The lines written one after another.
pub fn join_lines(ls: &Vec<Vec<char>>) -> (r: Vec<char>)
    ensures
        r@ == concat(views(ls@)),
{
    let mut out: Vec<char> = Vec::new();
    let mut i: usize = 0;
    while i < ls.len()
        invariant
            i <= ls@.len(),
            out@ == concat(views(ls@).subrange(0, i as int)),
        decreases ls@.len() - i,
    {
        let line = &ls[i];
        let mut j: usize = 0;
        while j < line.len()
            invariant
                j <= line@.len(),
                i < ls@.len(),
                line == ls@[i as int],
                out@ == concat(views(ls@).subrange(0, i as int)) + line@.subrange(0, j as int),
            decreases line@.len() - j,
        {
            out.push(line[j]);
            j = j + 1;
            assert(out@ =~= concat(views(ls@).subrange(0, i as int)) + line@.subrange(0, j as int));
        }
        assert(views(ls@).subrange(0, i + 1).drop_last() =~= views(ls@).subrange(0, i as int));
        assert(line@.subrange(0, j as int) =~= line@);
        i = i + 1;
    }
    assert(views(ls@).subrange(0, ls@.len() as int) =~= views(ls@));
    out
}

} // verus!
