use rdf_canon::canon::{canonize_ground, check_algorithm, quad_has_blank, Dataset, URDNA2015};
use rdf_canon::nquads::serialize_quad;
use rdf_canon::term::{
    match_term_type, parse_graph, parse_object, parse_predicate, parse_subject, CanonError, Quad,
    Term, TermType, RDF_LANG_STRING, XSD_STRING,
};

fn iri(s: &str) -> Term {
    Term::iri(s.to_string()).unwrap()
}

fn blank(s: &str) -> Term {
    Term::blank(s.to_string()).unwrap()
}

fn lit(v: &str, dt: Option<&str>, lang: Option<&str>) -> Term {
    Term::literal(v.to_string(), dt.map(|d| d.to_string()), lang.map(|l| l.to_string())).unwrap()
}

fn quad(s: Term, p: Term, o: Term, g: Term) -> Quad {
    Quad::new(s, p, o, g).unwrap()
}

fn dataset(quads: Vec<Quad>) -> Dataset {
    let mut d = Dataset::new();
    for q in quads {
        d.add(q);
    }
    d
}

#[test]
fn single_ground_triple() {
    let d = dataset(vec![quad(
        iri("http://ex/s"),
        iri("http://ex/p"),
        lit("v", None, None),
        Term::default_graph(),
    )]);
    let out = canonize_ground(&d, "URDNA2015").unwrap().unwrap();
    assert_eq!(out, "<http://ex/s> <http://ex/p> \"v\" .\n");
}

#[test]
fn typed_literal_keeps_datatype() {
    let q = quad(
        iri("http://ex/s"),
        iri("http://ex/p"),
        lit("5", Some("http://www.w3.org/2001/XMLSchema#integer"), None),
        Term::default_graph(),
    );
    assert_eq!(
        serialize_quad(&q),
        "<http://ex/s> <http://ex/p> \"5\"^^<http://www.w3.org/2001/XMLSchema#integer> .\n"
    );
}

#[test]
fn language_literal_drops_datatype() {
    let q = quad(
        iri("http://ex/s"),
        iri("http://ex/p"),
        lit("hi", Some(RDF_LANG_STRING), Some("en")),
        Term::default_graph(),
    );
    assert_eq!(serialize_quad(&q), "<http://ex/s> <http://ex/p> \"hi\"@en .\n");
    let q2 = quad(
        iri("http://ex/s"),
        iri("http://ex/p"),
        lit("hi", None, Some("en")),
        Term::default_graph(),
    );
    assert_eq!(serialize_quad(&q2), "<http://ex/s> <http://ex/p> \"hi\"@en .\n");
}

#[test]
fn string_datatype_is_not_written() {
    let q = quad(
        iri("http://ex/s"),
        iri("http://ex/p"),
        lit("v", Some(XSD_STRING), None),
        Term::default_graph(),
    );
    assert_eq!(serialize_quad(&q), "<http://ex/s> <http://ex/p> \"v\" .\n");
}

#[test]
fn literal_escapes() {
    let q = quad(
        iri("http://ex/s"),
        iri("http://ex/p"),
        lit("a\"b\\c\nd\re\tf", None, None),
        Term::default_graph(),
    );
    assert_eq!(
        serialize_quad(&q),
        "<http://ex/s> <http://ex/p> \"a\\\"b\\\\c\\nd\\re\\tf\" .\n"
    );
}

#[test]
fn named_graph_and_blank_nodes_written() {
    let q = quad(blank("b0"), iri("http://ex/p"), blank("b1"), iri("http://ex/g"));
    assert_eq!(serialize_quad(&q), "_:b0 <http://ex/p> _:b1 <http://ex/g> .\n");
    let q2 = quad(iri("http://ex/s"), iri("http://ex/p"), iri("http://ex/o"), blank("g"));
    assert_eq!(serialize_quad(&q2), "<http://ex/s> <http://ex/p> <http://ex/o> _:g .\n");
}

#[test]
fn ground_output_sorted_and_deduplicated() {
    let a = quad(iri("http://ex/b"), iri("http://ex/p"), lit("2", None, None), Term::default_graph());
    let b = quad(iri("http://ex/a"), iri("http://ex/p"), lit("1", None, None), Term::default_graph());
    let c = quad(iri("http://ex/a"), iri("http://ex/p"), lit("1", None, None), iri("http://ex/g"));
    let d = dataset(vec![a.clone(), b.clone(), c.clone(), a.clone()]);
    let out = canonize_ground(&d, "URDNA2015").unwrap().unwrap();
    assert_eq!(
        out,
        "<http://ex/a> <http://ex/p> \"1\" .\n<http://ex/a> <http://ex/p> \"1\" <http://ex/g> .\n<http://ex/b> <http://ex/p> \"2\" .\n"
    );
}

#[test]
fn ground_output_ignores_insertion_order() {
    let a = quad(iri("http://ex/b"), iri("http://ex/p"), iri("http://ex/o"), Term::default_graph());
    let b = quad(iri("http://ex/a"), iri("http://ex/q"), lit("x", None, Some("fr")), Term::default_graph());
    let c = quad(iri("http://ex/c"), iri("http://ex/p"), lit("é", None, None), iri("http://ex/g"));
    let d1 = dataset(vec![a.clone(), b.clone(), c.clone()]);
    let d2 = dataset(vec![c.clone(), a.clone(), b.clone(), c.clone()]);
    assert_eq!(
        canonize_ground(&d1, URDNA2015).unwrap(),
        canonize_ground(&d2, URDNA2015).unwrap()
    );
}

#[test]
fn empty_dataset_gives_empty_text() {
    let d = Dataset::new();
    assert_eq!(canonize_ground(&d, "URDNA2015").unwrap(), Some(String::new()));
}

#[test]
fn blank_nodes_need_labelling() {
    let d = dataset(vec![
        quad(blank("a"), iri("p"), blank("b"), Term::default_graph()),
        quad(blank("b"), iri("p"), blank("a"), Term::default_graph()),
    ]);
    assert_eq!(canonize_ground(&d, "URDNA2015").unwrap(), None);
    assert!(quad_has_blank(&d.quads[0]));
}

#[test]
fn unsupported_algorithm_refused() {
    let d = Dataset::new();
    assert_eq!(canonize_ground(&d, "URGNA2012").unwrap_err(), CanonError::UnsupportedAlgorithm);
    assert_eq!(check_algorithm("urdna2015"), Err(CanonError::UnsupportedAlgorithm));
    assert_eq!(check_algorithm("URDNA2015"), Ok(()));
}

#[test]
fn malformed_terms_refused() {
    assert_eq!(Term::iri(String::new()).unwrap_err(), CanonError::MalformedTerm);
    assert_eq!(Term::blank(String::new()).unwrap_err(), CanonError::MalformedTerm);
    let bad = Term::literal(
        "5".to_string(),
        Some("http://www.w3.org/2001/XMLSchema#integer".to_string()),
        Some("en".to_string()),
    );
    assert_eq!(bad.unwrap_err(), CanonError::MalformedTerm);
    let no_tag = Term::literal("x".to_string(), Some(RDF_LANG_STRING.to_string()), None);
    assert_eq!(no_tag.unwrap_err(), CanonError::MalformedTerm);
    let empty_dt = Term::literal("x".to_string(), Some(String::new()), None);
    assert_eq!(empty_dt.unwrap_err(), CanonError::MalformedTerm);
}

#[test]
fn misplaced_terms_refused() {
    let lit_subject = Quad::new(lit("x", None, None), iri("p"), iri("o"), Term::default_graph());
    assert_eq!(lit_subject.unwrap_err(), CanonError::MalformedTerm);
    let blank_predicate = Quad::new(iri("s"), blank("p"), iri("o"), Term::default_graph());
    assert_eq!(blank_predicate.unwrap_err(), CanonError::MalformedTerm);
    let default_object = Quad::new(iri("s"), iri("p"), Term::default_graph(), Term::default_graph());
    assert_eq!(default_object.unwrap_err(), CanonError::MalformedTerm);
    let literal_graph = Quad::new(iri("s"), iri("p"), iri("o"), lit("g", None, None));
    assert_eq!(literal_graph.unwrap_err(), CanonError::MalformedTerm);
    let empty_iri = Quad::new(Term::Iri(String::new()), iri("p"), iri("o"), Term::default_graph());
    assert_eq!(empty_iri.unwrap_err(), CanonError::MalformedTerm);
}

#[test]
fn term_type_names() {
    assert_eq!(match_term_type("BlankNode"), Some(TermType::BlankNode));
    assert_eq!(match_term_type("NamedNode"), Some(TermType::NamedNode));
    assert_eq!(match_term_type("Literal"), Some(TermType::Literal));
    assert_eq!(match_term_type("DefaultGraph"), Some(TermType::DefaultGraph));
    assert_eq!(match_term_type("Variable"), None);
    assert_eq!(match_term_type(""), None);
}

#[test]
fn host_terms_parsed() {
    let s = parse_subject("BlankNode", "b0").unwrap();
    let p = parse_predicate("NamedNode", "http://ex/p").unwrap();
    let o = parse_object(
        "Literal",
        "1",
        Some("http://www.w3.org/2001/XMLSchema#integer".to_string()),
        None,
    )
    .unwrap();
    let g = parse_graph("DefaultGraph", "").unwrap();
    let q = Quad::new(s, p, o, g).unwrap();
    assert_eq!(
        serialize_quad(&q),
        "_:b0 <http://ex/p> \"1\"^^<http://www.w3.org/2001/XMLSchema#integer> .\n"
    );
    assert_eq!(parse_subject("Literal", "x").unwrap_err(), CanonError::MalformedTerm);
    assert_eq!(parse_predicate("BlankNode", "x").unwrap_err(), CanonError::MalformedTerm);
    assert_eq!(parse_object("DefaultGraph", "", None, None).unwrap_err(), CanonError::MalformedTerm);
    assert_eq!(parse_graph("Literal", "x").unwrap_err(), CanonError::MalformedTerm);
    assert_eq!(parse_subject("NamedNode", "").unwrap_err(), CanonError::MalformedTerm);
    let named = parse_graph("NamedNode", "http://ex/g").unwrap();
    let obj = parse_object("NamedNode", "http://ex/o", None, None).unwrap();
    let q2 = Quad::new(iri("http://ex/s"), iri("http://ex/p"), obj, named).unwrap();
    assert_eq!(serialize_quad(&q2), "<http://ex/s> <http://ex/p> <http://ex/o> <http://ex/g> .\n");
}

#[test]
fn code_point_order_across_lengths() {
    let a = quad(iri("http://ex/a"), iri("http://ex/p"), iri("http://ex/o"), Term::default_graph());
    let b = quad(iri("http://ex/a"), iri("http://ex/p"), iri("http://ex/o"), iri("http://ex/g"));
    let c = quad(iri("http://ex/aa"), iri("http://ex/p"), iri("http://ex/o"), Term::default_graph());
    let d = dataset(vec![c, b, a]);
    assert_eq!(d.len(), 3);
    let out = canonize_ground(&d, "URDNA2015").unwrap().unwrap();
    assert_eq!(
        out,
        "<http://ex/a> <http://ex/p> <http://ex/o> .\n<http://ex/a> <http://ex/p> <http://ex/o> <http://ex/g> .\n<http://ex/aa> <http://ex/p> <http://ex/o> .\n"
    );
}

#[test]
fn host_empty_language_means_none() {
    let o = parse_object("Literal", "v", Some(XSD_STRING.to_string()), Some(String::new())).unwrap();
    let q = Quad::new(iri("http://ex/s"), iri("http://ex/p"), o, Term::default_graph()).unwrap();
    assert_eq!(serialize_quad(&q), "<http://ex/s> <http://ex/p> \"v\" .\n");
    let tagged = parse_object("Literal", "v", Some(RDF_LANG_STRING.to_string()), Some("de".to_string())).unwrap();
    let q2 = Quad::new(iri("http://ex/s"), iri("http://ex/p"), tagged, Term::default_graph()).unwrap();
    assert_eq!(serialize_quad(&q2), "<http://ex/s> <http://ex/p> \"v\"@de .\n");
}
