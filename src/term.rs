//! RDF terms and quads.

use vstd::prelude::*;
use crate::text::str_eq;
use vstd::string::*;

verus! {

/// The kind of an RDF term, as a host names it.
#[derive(Clone, Copy, Debug, PartialEq, Eq, Structural)]
pub enum TermType {
    BlankNode,
    NamedNode,
    Literal,
    DefaultGraph,
}

/// The term kind that a host's name stands for, if any.
pub open spec fn term_type_of(t: Seq<char>) -> Option<TermType> {
    if t == "BlankNode"@ {
        Some(TermType::BlankNode)
    } else if t == "NamedNode"@ {
        Some(TermType::NamedNode)
    } else if t == "Literal"@ {
        Some(TermType::Literal)
    } else if t == "DefaultGraph"@ {
        Some(TermType::DefaultGraph)
    } else {
        None
    }
}

/// Reads a host's name for a term kind.
pub fn match_term_type(t: &str) -> (r: Option<TermType>)
    ensures
        r == term_type_of(t@),
{
    if str_eq(t, "BlankNode") {
        Some(TermType::BlankNode)
    } else if str_eq(t, "NamedNode") {
        Some(TermType::NamedNode)
    } else if str_eq(t, "Literal") {
        Some(TermType::Literal)
    } else if str_eq(t, "DefaultGraph") {
        Some(TermType::DefaultGraph)
    } else {
        None
    }
}

} // verus!

verus! {

/// The datatype that a literal without one carries.
pub const XSD_STRING: &'static str = "http://www.w3.org/2001/XMLSchema#string";

/// The datatype of a literal with a language tag.
pub const RDF_LANG_STRING: &'static str = "http://www.w3.org/1999/02/22-rdf-syntax-ns#langString";

/// Why a term, a quad or a canonicalization request was refused.
#[derive(Clone, Copy, Debug, PartialEq, Eq, Structural)]
pub enum CanonError {
    /// An empty IRI or blank-node label, a literal whose datatype and
    /// language tag disagree, or a term in a position that does not admit it.
    MalformedTerm,
    /// An algorithm name other than the one supported.
    UnsupportedAlgorithm,
    /// The search among tied blank nodes went past its budget.
    TooComplex,
    /// Two blank nodes stayed tied after the full relational hashing.
    Ambiguous,
}

/// A literal: its lexical value, an optional datatype IRI and an optional
/// language tag.
#[derive(Clone, Debug)]
pub struct Literal {
    pub value: String,
    pub datatype: Option<String>,
    pub language: Option<String>,
}

/// An RDF term.
#[derive(Clone, Debug)]
pub enum Term {
    Iri(String),
    Blank(String),
    Literal(Literal),
    DefaultGraph,
}

/// A term as characters.
pub enum TermV {
    Iri(Seq<char>),
    Blank(Seq<char>),
    Literal(Seq<char>, Option<Seq<char>>, Option<Seq<char>>),
    DefaultGraph,
}

pub open spec fn opt_view(o: Option<String>) -> Option<Seq<char>> {
    match o {
        Some(s) => Some(s@),
        None => None,
    }
}

impl View for Term {
    type V = TermV;

    open spec fn view(&self) -> TermV {
        match self {
            Term::Iri(s) => TermV::Iri(s@),
            Term::Blank(l) => TermV::Blank(l@),
            Term::Literal(l) => TermV::Literal(l.value@, opt_view(l.datatype), opt_view(l.language)),
            Term::DefaultGraph => TermV::DefaultGraph,
        }
    }
}

/// Whether a literal's datatype and language tag agree: with a tag the
/// datatype is absent, the string type or the language-string type; without
/// one it is absent or a non-empty IRI other than the language-string type.
pub open spec fn literal_ok(datatype: Option<Seq<char>>, language: Option<Seq<char>>) -> bool {
    match language {
        Some(_) => match datatype {
            None => true,
            Some(d) => d == XSD_STRING@ || d == RDF_LANG_STRING@,
        },
        None => match datatype {
            None => true,
            Some(d) => d.len() > 0 && d != RDF_LANG_STRING@,
        },
    }
}

/// Whether a term is well formed.
pub open spec fn term_ok(t: TermV) -> bool {
    match t {
        TermV::Iri(s) => s.len() > 0,
        TermV::Blank(l) => l.len() > 0,
        TermV::Literal(_, d, g) => literal_ok(d, g),
        TermV::DefaultGraph => true,
    }
}

/// Well-formed subjects: IRIs and blank nodes.
pub open spec fn subject_ok(t: TermV) -> bool {
    term_ok(t) && (t is Iri || t is Blank)
}

/// Well-formed predicates: IRIs.
pub open spec fn predicate_ok(t: TermV) -> bool {
    term_ok(t) && t is Iri
}

/// Well-formed objects: IRIs, blank nodes and literals.
pub open spec fn object_ok(t: TermV) -> bool {
    term_ok(t) && !(t is DefaultGraph)
}

/// Well-formed graph names: IRIs, blank nodes and the default graph.
pub open spec fn graph_ok(t: TermV) -> bool {
    term_ok(t) && !(t is Literal)
}

pub open spec fn checked(ok: bool, t: TermV) -> Result<TermV, CanonError> {
    if ok {
        Ok(t)
    } else {
        Err(CanonError::MalformedTerm)
    }
}

pub open spec fn result_view(r: Result<Term, CanonError>) -> Result<TermV, CanonError> {
    match r {
        Ok(t) => Ok(t@),
        Err(e) => Err(e),
    }
}

/// Whether an optional IRI names the literal's language-string type.
fn is_lang_string(d: &Option<String>) -> (r: bool)
    ensures
        r == (d is Some && d->0@ == RDF_LANG_STRING@),
{
    match d {
        Some(s) => str_eq(s.as_str(), RDF_LANG_STRING),
        None => false,
    }
}

impl Term {
    /// An IRI term; an empty IRI is malformed.
    pub fn iri(value: String) -> (r: Result<Term, CanonError>)
        ensures
            result_view(r) == checked(value@.len() > 0, TermV::Iri(value@)),
    {
        if value.as_str().unicode_len() == 0 {
            Err(CanonError::MalformedTerm)
        } else {
            Ok(Term::Iri(value))
        }
    }

    /// A blank node with its local label; an empty label is malformed.
    pub fn blank(label: String) -> (r: Result<Term, CanonError>)
        ensures
            result_view(r) == checked(label@.len() > 0, TermV::Blank(label@)),
    {
        if label.as_str().unicode_len() == 0 {
            Err(CanonError::MalformedTerm)
        } else {
            Ok(Term::Blank(label))
        }
    }

    /// A literal; it is malformed where its datatype and language tag
    /// disagree.
    pub fn literal(value: String, datatype: Option<String>, language: Option<String>) -> (r:
        Result<Term, CanonError>)
        ensures
            result_view(r) == checked(
                literal_ok(opt_view(datatype), opt_view(language)),
                TermV::Literal(value@, opt_view(datatype), opt_view(language)),
            ),
    {
        let ok = match &language {
            Some(_) => match &datatype {
                None => true,
                Some(d) => str_eq(d.as_str(), XSD_STRING) || str_eq(d.as_str(), RDF_LANG_STRING),
            },
            None => match &datatype {
                None => true,
                Some(d) => d.as_str().unicode_len() > 0 && !is_lang_string(&datatype),
            },
        };
        if ok {
            Ok(Term::Literal(Literal { value, datatype, language }))
        } else {
            Err(CanonError::MalformedTerm)
        }
    }

    /// The marker of the default graph.
    pub fn default_graph() -> (r: Term)
        ensures
            r@ == TermV::DefaultGraph,
    {
        Term::DefaultGraph
    }
}

} // verus!

verus! {

/// A statement: subject, predicate, object and graph name.
#[derive(Clone, Debug)]
pub struct Quad {
    pub subject: Term,
    pub predicate: Term,
    pub object: Term,
    pub graph: Term,
}

/// A quad as characters.
pub struct QuadV {
    pub subject: TermV,
    pub predicate: TermV,
    pub object: TermV,
    pub graph: TermV,
}

impl View for Quad {
    type V = QuadV;

    open spec fn view(&self) -> QuadV {
        QuadV {
            subject: self.subject@,
            predicate: self.predicate@,
            object: self.object@,
            graph: self.graph@,
        }
    }
}

/// Whether each term of a quad is well formed and admitted in its position.
pub open spec fn quad_ok(q: QuadV) -> bool {
    subject_ok(q.subject) && predicate_ok(q.predicate) && object_ok(q.object) && graph_ok(
        q.graph,
    )
}

/// Whether a term is well formed.
fn term_is_ok(t: &Term) -> (r: bool)
    ensures
        r == term_ok(t@),
{
    match t {
        Term::Iri(s) => s.as_str().unicode_len() > 0,
        Term::Blank(l) => l.as_str().unicode_len() > 0,
        Term::Literal(l) => {
            let v = Term::literal(l.value.clone(), l.datatype.clone(), l.language.clone());
            v.is_ok()
        },
        Term::DefaultGraph => true,
    }
}

impl Quad {
    /// A quad, refused where a term is malformed or stands in a position
    /// that does not admit it.
    pub fn new(subject: Term, predicate: Term, object: Term, graph: Term) -> (r: Result<
        Quad,
        CanonError,
    >)
        ensures
            r is Ok <==> quad_ok(QuadV { subject: subject@, predicate: predicate@, object: object@, graph: graph@ }),
            r is Ok ==> r->Ok_0@ == (QuadV { subject: subject@, predicate: predicate@, object: object@, graph: graph@ }),
            r is Err ==> r->Err_0 == CanonError::MalformedTerm,
    {
        let s_ok = term_is_ok(&subject) && match &subject {
            Term::Iri(_) | Term::Blank(_) => true,
            _ => false,
        };
        let p_ok = term_is_ok(&predicate) && match &predicate {
            Term::Iri(_) => true,
            _ => false,
        };
        let o_ok = term_is_ok(&object) && match &object {
            Term::DefaultGraph => false,
            _ => true,
        };
        let g_ok = term_is_ok(&graph) && match &graph {
            Term::Literal(_) => false,
            _ => true,
        };
        if s_ok && p_ok && o_ok && g_ok {
            Ok(Quad { subject, predicate, object, graph })
        } else {
            Err(CanonError::MalformedTerm)
        }
    }
}

/// The subject that a host's term kind and value describe.
pub open spec fn subject_spec(tt: Seq<char>, v: Seq<char>) -> Result<TermV, CanonError> {
    match term_type_of(tt) {
        Some(TermType::NamedNode) => checked(v.len() > 0, TermV::Iri(v)),
        Some(TermType::BlankNode) => checked(v.len() > 0, TermV::Blank(v)),
        _ => Err(CanonError::MalformedTerm),
    }
}

/// The predicate that a host's term kind and value describe.
pub open spec fn predicate_spec(tt: Seq<char>, v: Seq<char>) -> Result<TermV, CanonError> {
    match term_type_of(tt) {
        Some(TermType::NamedNode) => checked(v.len() > 0, TermV::Iri(v)),
        _ => Err(CanonError::MalformedTerm),
    }
}

/// A host's language tag, where an empty one stands for no tag.
pub open spec fn host_language(language: Option<Seq<char>>) -> Option<Seq<char>> {
    match language {
        Some(l) => if l.len() == 0 {
            None
        } else {
            Some(l)
        },
        None => None,
    }
}

/// The object that a host's term kind, value, datatype and language tag
/// describe; the datatype and tag are read for literals only, and an empty
/// tag stands for none.
pub open spec fn object_spec(
    tt: Seq<char>,
    v: Seq<char>,
    datatype: Option<Seq<char>>,
    language: Option<Seq<char>>,
) -> Result<TermV, CanonError> {
    match term_type_of(tt) {
        Some(TermType::NamedNode) => checked(v.len() > 0, TermV::Iri(v)),
        Some(TermType::BlankNode) => checked(v.len() > 0, TermV::Blank(v)),
        Some(TermType::Literal) => checked(
            literal_ok(datatype, host_language(language)),
            TermV::Literal(v, datatype, host_language(language)),
        ),
        _ => Err(CanonError::MalformedTerm),
    }
}

/// The graph name that a host's term kind and value describe.
pub open spec fn graph_spec(tt: Seq<char>, v: Seq<char>) -> Result<TermV, CanonError> {
    match term_type_of(tt) {
        Some(TermType::NamedNode) => checked(v.len() > 0, TermV::Iri(v)),
        Some(TermType::BlankNode) => checked(v.len() > 0, TermV::Blank(v)),
        Some(TermType::DefaultGraph) => Ok(TermV::DefaultGraph),
        _ => Err(CanonError::MalformedTerm),
    }
}

/// Builds a subject from a host's term kind and value.
pub fn parse_subject(term_type: &str, value: &str) -> (r: Result<Term, CanonError>)
    ensures
        result_view(r) == subject_spec(term_type@, value@),
{
    match match_term_type(term_type) {
        Some(TermType::NamedNode) => Term::iri(String::from_str(value)),
        Some(TermType::BlankNode) => Term::blank(String::from_str(value)),
        _ => Err(CanonError::MalformedTerm),
    }
}

/// Builds a predicate from a host's term kind and value.
pub fn parse_predicate(term_type: &str, value: &str) -> (r: Result<Term, CanonError>)
    ensures
        result_view(r) == predicate_spec(term_type@, value@),
{
    match match_term_type(term_type) {
        Some(TermType::NamedNode) => Term::iri(String::from_str(value)),
        _ => Err(CanonError::MalformedTerm),
    }
}

/// Builds an object from a host's term kind, value, datatype and language
/// tag; an empty tag stands for none.
pub fn parse_object(
    term_type: &str,
    value: &str,
    datatype: Option<String>,
    language: Option<String>,
) -> (r: Result<Term, CanonError>)
    ensures
        result_view(r) == object_spec(term_type@, value@, opt_view(datatype), opt_view(language)),
{
    match match_term_type(term_type) {
        Some(TermType::NamedNode) => Term::iri(String::from_str(value)),
        Some(TermType::BlankNode) => Term::blank(String::from_str(value)),
        Some(TermType::Literal) => {
            let language = match language {
                Some(l) => if l.as_str().unicode_len() == 0 {
                    None
                } else {
                    Some(l)
                },
                None => None,
            };
            Term::literal(String::from_str(value), datatype, language)
        },
        _ => Err(CanonError::MalformedTerm),
    }
}

/// Builds a graph name from a host's term kind and value.
pub fn parse_graph(term_type: &str, value: &str) -> (r: Result<Term, CanonError>)
    ensures
        result_view(r) == graph_spec(term_type@, value@),
{
    match match_term_type(term_type) {
        Some(TermType::NamedNode) => Term::iri(String::from_str(value)),
        Some(TermType::BlankNode) => Term::blank(String::from_str(value)),
        Some(TermType::DefaultGraph) => Ok(Term::default_graph()),
        _ => Err(CanonError::MalformedTerm),
    }
}

} // verus!
