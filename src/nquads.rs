//! The canonical N-Quads line of a quad.

use vstd::prelude::*;
use crate::term::{Quad, QuadV, Term, TermV, XSD_STRING};
use crate::text::{push_str, str_eq, string_of};
use vstd::string::*;

verus! {

/// How one character of a literal's value is written.
pub open spec fn escape_char(c: char) -> Seq<char> {
    if c == '\\' {
        seq!['\\', '\\']
    } else if c == '"' {
        seq!['\\', '"']
    } else if c == '\n' {
        seq!['\\', 'n']
    } else if c == '\r' {
        seq!['\\', 'r']
    } else if c == '\t' {
        seq!['\\', 't']
    } else {
        seq![c]
    }
}

/// A literal's value with backslash, quote, newline, carriage return and
/// tab escaped.
pub open spec fn escape(s: Seq<char>) -> Seq<char>
    decreases s.len(),
{
    if s.len() == 0 {
        seq![]
    } else {
        escape(s.drop_last()) + escape_char(s.last())
    }
}

/// The suffix after a literal's quoted value: `@` and the language tag, or
/// `^^<datatype>` for a datatype other than the string type, or nothing.
pub open spec fn literal_suffix(datatype: Option<Seq<char>>, language: Option<Seq<char>>) -> Seq<
    char,
> {
    match language {
        Some(tag) => seq!['@'] + tag,
        None => match datatype {
            Some(d) => if d != XSD_STRING@ {
                seq!['^', '^', '<'] + d + seq!['>']
            } else {
                seq![]
            },
            None => seq![],
        },
    }
}

/// How a term is written; the default graph is written as nothing.
pub open spec fn term_text(t: TermV) -> Seq<char> {
    match t {
        TermV::Iri(s) => seq!['<'] + s + seq!['>'],
        TermV::Blank(l) => seq!['_', ':'] + l,
        TermV::Literal(v, d, g) => seq!['"'] + escape(v) + seq!['"'] + literal_suffix(d, g),
        TermV::DefaultGraph => seq![],
    }
}

/// The canonical line of a quad: its terms separated by single spaces, the
/// graph left out for the default graph, and ` .` with a newline at the end.
pub open spec fn quad_line(q: QuadV) -> Seq<char> {
    term_text(q.subject) + seq![' '] + term_text(q.predicate) + seq![' '] + term_text(q.object)
        + (if q.graph is DefaultGraph {
        seq![]
    } else {
        seq![' '] + term_text(q.graph)
    }) + seq![' ', '.', '\n']
}

/// Appends the escaped value of a literal.
fn push_escaped(out: &mut Vec<char>, s: &str)
    ensures
        final(out)@ == old(out)@ + escape(s@),
{
    let n = s.unicode_len();
    let mut i: usize = 0;
    while i < n
        invariant
            n == s@.len(),
            i <= n,
            out@ == old(out)@ + escape(s@.subrange(0, i as int)),
        decreases n - i,
    {
        let c = s.get_char(i);
        if c == '\\' {
            out.push('\\');
            out.push('\\');
        } else if c == '"' {
            out.push('\\');
            out.push('"');
        } else if c == '\n' {
            out.push('\\');
            out.push('n');
        } else if c == '\r' {
            out.push('\\');
            out.push('r');
        } else if c == '\t' {
            out.push('\\');
            out.push('t');
        } else {
            out.push(c);
        }
        assert(s@.subrange(0, i + 1).drop_last() =~= s@.subrange(0, i as int));
        i = i + 1;
        assert(out@ =~= old(out)@ + escape(s@.subrange(0, i as int)));
    }
    assert(s@.subrange(0, n as int) =~= s@);
}

/// Appends how a term is written.
fn push_term(out: &mut Vec<char>, t: &Term)
    ensures
        final(out)@ == old(out)@ + term_text(t@),
{
    match t {
        Term::Iri(s) => {
            out.push('<');
            push_str(out, s.as_str());
            out.push('>');
        },
        Term::Blank(l) => {
            out.push('_');
            out.push(':');
            push_str(out, l.as_str());
        },
        Term::Literal(l) => {
            out.push('"');
            push_escaped(out, l.value.as_str());
            out.push('"');
            match &l.language {
                Some(tag) => {
                    out.push('@');
                    push_str(out, tag.as_str());
                },
                None => match &l.datatype {
                    Some(d) => {
                        if !str_eq(d.as_str(), XSD_STRING) {
                            out.push('^');
                            out.push('^');
                            out.push('<');
                            push_str(out, d.as_str());
                            out.push('>');
                        }
                    },
                    None => {},
                },
            }
        },
        Term::DefaultGraph => {},
    }
    assert(out@ =~= old(out)@ + term_text(t@));
}

/// The canonical line of a quad, as characters.
pub fn quad_chars(q: &Quad) -> (r: Vec<char>)
    ensures
        r@ == quad_line(q@),
{
    let mut out: Vec<char> = Vec::new();
    push_term(&mut out, &q.subject);
    out.push(' ');
    push_term(&mut out, &q.predicate);
    out.push(' ');
    push_term(&mut out, &q.object);
    match &q.graph {
        Term::DefaultGraph => {},
        g => {
            out.push(' ');
            push_term(&mut out, g);
        },
    }
    out.push(' ');
    out.push('.');
    out.push('\n');
    assert(out@ =~= quad_line(q@));
    out
}

/// The canonical line of a quad, with each blank node written under its own
/// label.
pub fn serialize_quad(q: &Quad) -> (r: String)
    ensures
        r@ == quad_line(q@),
{
    let v = quad_chars(q);
    string_of(&v)
}

} // verus!
