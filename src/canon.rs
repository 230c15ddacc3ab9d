//! Datasets, the algorithm name, and the canonical form of datasets whose
//! quads name no blank node.

use vstd::prelude::*;
use crate::nquads::{quad_chars, quad_line};
use crate::order::{insert_line, join_lines, lemma_sorted_text, sorted_strict, sorted_text, views};
use crate::term::{CanonError, Quad, QuadV, Term, TermV};
use crate::text::{str_eq, string_of};

verus! {

/// The one algorithm name that is accepted: RDF dataset normalization of
/// 2015, with SHA-256.
pub const URDNA2015: &'static str = "URDNA2015";

/// A set of quads, held in the order they were added; a quad added twice
/// counts once.
#[derive(Clone, Debug)]
pub struct Dataset {
    pub quads: Vec<Quad>,
}

impl View for Dataset {
    type V = Seq<QuadV>;

    open spec fn view(&self) -> Seq<QuadV> {
        self.quads@.map_values(|q: Quad| q@)
    }
}

impl Dataset {
    /// A dataset with no quad.
    pub fn new() -> (r: Dataset)
        ensures
            r@ == Seq::<QuadV>::empty(),
    {
        let r = Dataset { quads: Vec::new() };
        assert(r@ =~= Seq::<QuadV>::empty());
        r
    }

    /// Adds a quad.
    pub fn add(&mut self, q: Quad)
        ensures
            final(self)@ == old(self)@.push(q@),
    {
        self.quads.push(q);
        assert(self@ =~= old(self)@.push(q@));
    }

    /// The number of quads added.
    pub fn len(&self) -> (r: usize)
        ensures
            r == self@.len(),
    {
        self.quads.len()
    }
}

/// Whether a quad names a blank node, as subject, object or graph name.
pub open spec fn has_blank(q: QuadV) -> bool {
    q.subject is Blank || q.object is Blank || q.graph is Blank
}

/// Whether no quad of a dataset names a blank node.
pub open spec fn ground(d: Seq<QuadV>) -> bool {
    forall|i: int| 0 <= i < d.len() ==> !has_blank(#[trigger] d[i])
}

/// The lines of the first `n` quads.
pub open spec fn lines_upto(d: Seq<QuadV>, n: int) -> Set<Seq<char>> {
    Set::new(|l: Seq<char>| exists|k: int| 0 <= k < n && #[trigger] quad_line(d[k]) == l)
}

/// The set of lines of a dataset's quads.
pub open spec fn line_set(d: Seq<QuadV>) -> Set<Seq<char>> {
    lines_upto(d, d.len() as int)
}

/// Whether a quad names a blank node.
pub fn quad_has_blank(q: &Quad) -> (r: bool)
    ensures
        r == has_blank(q@),
{
    let s = match &q.subject {
        Term::Blank(_) => true,
        _ => false,
    };
    let o = match &q.object {
        Term::Blank(_) => true,
        _ => false,
    };
    let g = match &q.graph {
        Term::Blank(_) => true,
        _ => false,
    };
    s || o || g
}

/// Accepts the supported algorithm name and refuses any other.
pub fn check_algorithm(algorithm: &str) -> (r: Result<(), CanonError>)
    ensures
        r is Ok <==> algorithm@ == URDNA2015@,
        r is Err ==> r->Err_0 == CanonError::UnsupportedAlgorithm,
{
    if str_eq(algorithm, URDNA2015) {
        Ok(())
    } else {
        Err(CanonError::UnsupportedAlgorithm)
    }
}

/// The canonical form of a dataset whose quads name no blank node: its
/// lines, sorted in code-point order, each once, written one after another,
/// with no hashing. `Ok(None)` where a quad names a blank node: such a
/// dataset needs blank-node labelling first.
pub fn canonize_ground(dataset: &Dataset, algorithm: &str) -> (r: Result<Option<String>, CanonError>)
    ensures
        r is Err <==> algorithm@ != URDNA2015@,
        r is Err ==> r->Err_0 == CanonError::UnsupportedAlgorithm,
        r matches Ok(o) ==> (o is Some <==> ground(dataset@)),
        r matches Ok(Some(t)) ==> t@ == sorted_text(line_set(dataset@)),
{
    match check_algorithm(algorithm) {
        Err(e) => {
            return Err(e);
        },
        Ok(()) => {},
    }
    let ghost d = dataset@;
    let mut ls: Vec<Vec<char>> = Vec::new();
    let n = dataset.quads.len();
    let mut i: usize = 0;
    proof {
        assert(views(ls@) =~= Seq::<Seq<char>>::empty());
        assert(views(ls@).to_set() =~= lines_upto(d, 0));
    }
    while i < n
        invariant
            n == d.len(),
            d == dataset@,
            algorithm@ == URDNA2015@,
            i <= n,
            sorted_strict(views(ls@)),
            views(ls@).to_set() == lines_upto(d, i as int),
            forall|k: int| 0 <= k < i ==> !has_blank(#[trigger] d[k]),
        decreases n - i,
    {
        let q = &dataset.quads[i];
        assert(q@ == d[i as int]);
        if quad_has_blank(q) {
            return Ok(None);
        }
        let line = quad_chars(q);
        insert_line(&mut ls, line);
        proof {
            assert forall|l: Seq<char>| lines_upto(d, i + 1).contains(l) <==> lines_upto(
                d,
                i as int,
            ).insert(quad_line(d[i as int])).contains(l) by {
                if lines_upto(d, i + 1).contains(l) {
                    let k = choose|k: int| 0 <= k < i + 1 && #[trigger] quad_line(d[k]) == l;
                    if k < i {
                        assert(lines_upto(d, i as int).contains(l));
                    }
                }
                if lines_upto(d, i as int).contains(l) {
                    let k = choose|k: int| 0 <= k < i && #[trigger] quad_line(d[k]) == l;
                    assert(0 <= k < i + 1 && quad_line(d[k]) == l);
                }
                if l == quad_line(d[i as int]) {
                    assert(0 <= i < i + 1 && quad_line(d[i as int]) == l);
                }
            }
            assert(lines_upto(d, i + 1) =~= lines_upto(d, i as int).insert(quad_line(d[i as int])));
        }
        i = i + 1;
    }
    let text = join_lines(&ls);
    proof {
        lemma_sorted_text(views(ls@));
    }
    Ok(Some(string_of(&text)))
}

} // verus!

verus! {

/// Canonical output does not depend on the order in which quads were added,
/// nor on a quad added twice: two datasets with the same set of quads are
/// both free of blank nodes or both not, have the same lines, and so the same
/// canonical text.
pub proof fn lemma_order_invariant(d1: Seq<QuadV>, d2: Seq<QuadV>)
    requires
        d1.to_set() == d2.to_set(),
    ensures
        ground(d1) == ground(d2),
        line_set(d1) == line_set(d2),
        sorted_text(line_set(d1)) == sorted_text(line_set(d2)),
{
    assert forall|l: Seq<char>| line_set(d1).contains(l) implies line_set(d2).contains(l) by {
        let k = choose|k: int| 0 <= k < d1.len() && #[trigger] quad_line(d1[k]) == l;
        assert(d1.to_set().contains(d1[k]));
        let m = choose|m: int| 0 <= m < d2.len() && d2[m] == d1[k];
        assert(0 <= m < d2.len() && quad_line(d2[m]) == l);
    }
    assert forall|l: Seq<char>| line_set(d2).contains(l) implies line_set(d1).contains(l) by {
        let k = choose|k: int| 0 <= k < d2.len() && #[trigger] quad_line(d2[k]) == l;
        assert(d2.to_set().contains(d2[k]));
        let m = choose|m: int| 0 <= m < d1.len() && d1[m] == d2[k];
        assert(0 <= m < d1.len() && quad_line(d1[m]) == l);
    }
    assert(line_set(d1) =~= line_set(d2));
    if ground(d1) && !ground(d2) {
        let k = choose|k: int| 0 <= k < d2.len() && has_blank(#[trigger] d2[k]);
        assert(d2.to_set().contains(d2[k]));
        let m = choose|m: int| 0 <= m < d1.len() && d1[m] == d2[k];
        assert(!has_blank(d1[m]));
    }
    if ground(d2) && !ground(d1) {
        let k = choose|k: int| 0 <= k < d1.len() && has_blank(#[trigger] d1[k]);
        assert(d1.to_set().contains(d1[k]));
        let m = choose|m: int| 0 <= m < d2.len() && d2[m] == d1[k];
        assert(!has_blank(d2[m]));
    }
}

} // verus!
