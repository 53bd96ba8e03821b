//! The tokens of an attribute's argument list, and how they are written back
//! as source text.

use vstd::prelude::*;
use vstd::string::StringExecFns;
use crate::text::push_char;

verus! {

/// The delimiter of a token group (invisible groups are read through).
#[derive(Clone, Copy, Debug, PartialEq, Eq)]
pub enum Delimiter {
    Parenthesis,
    Brace,
    Bracket,
}

/// One token. `Literal` holds the literal exactly as written (`"text"`,
/// `404`, `r"raw"`); a `Punct` that is joined to the next punctuation character
/// (the first `:` of `::`) is `joint`.
pub enum Tok {
    Ident(String),
    Punct(char, bool),
    Literal(String),
    Group(Delimiter, Vec<Tok>),
}

pub open spec fn open_char(d: Delimiter) -> char {
    match d {
        Delimiter::Parenthesis => '(',
        Delimiter::Brace => '{',
        Delimiter::Bracket => '[',
    }
}

pub open spec fn close_char(d: Delimiter) -> char {
    match d {
        Delimiter::Parenthesis => ')',
        Delimiter::Brace => '}',
        Delimiter::Bracket => ']',
    }
}

/// The source text of a token, followed by a space unless it is a joint
/// punctuation character.
pub open spec fn render_tok(t: Tok) -> Seq<char>
    decreases t,
{
    match t {
        Tok::Ident(s) => s@.push(' '),
        Tok::Literal(s) => s@.push(' '),
        Tok::Punct(c, joint) => if joint {
            seq![c]
        } else {
            seq![c, ' ']
        },
        Tok::Group(d, inner) => seq![open_char(d)] + render_seq(inner@) + seq![close_char(d), ' '],
    }
}

/// The source text of a sequence of tokens.
pub open spec fn render_seq(ts: Seq<Tok>) -> Seq<char>
    decreases ts,
{
    if ts.len() == 0 {
        Seq::empty()
    } else {
        render_tok(ts[0]) + render_seq(ts.subrange(1, ts.len() as int))
    }
}

pub proof fn lemma_render_push(ts: Seq<Tok>, x: Tok)
    ensures
        render_seq(ts.push(x)) == render_seq(ts) + render_tok(x),
    decreases ts.len(),
{
    if ts.len() == 0 {
        assert(ts.push(x).subrange(1, 1) =~= Seq::<Tok>::empty());
        assert(render_seq(Seq::<Tok>::empty()) =~= Seq::<char>::empty());
        assert(ts.push(x)[0] == x);
        assert(render_seq(ts.push(x)) =~= render_tok(x));
    } else {
        let rest = ts.subrange(1, ts.len() as int);
        lemma_render_push(rest, x);
        assert(ts.push(x).subrange(1, ts.len() + 1int) =~= rest.push(x));
        assert(render_seq(ts.push(x)) =~= render_tok(ts[0]) + (render_seq(rest) + render_tok(x)));
    }
}

/// Whether the text is one Rust expression. (What `syn::Expr` accepts.)
pub uninterp spec fn is_expression(text: Seq<char>) -> bool;

/// `syn::parse_str::<syn::Expr>`: whether `text` is one complete expression.
#[verifier::external_body]
pub(crate) fn expression(text: &str) -> (r: bool)
    ensures
        r == is_expression(text@),
{
    match syn::parse_str::<syn::Expr>(text) {
        Ok(_) => true,
        Err(_) => false,
    }
}

fn open_delim(d: Delimiter) -> (c: char)
    ensures
        c == open_char(d),
{
    match d {
        Delimiter::Parenthesis => '(',
        Delimiter::Brace => '{',
        Delimiter::Bracket => '[',
    }
}

fn close_delim(d: Delimiter) -> (c: char)
    ensures
        c == close_char(d),
{
    match d {
        Delimiter::Parenthesis => ')',
        Delimiter::Brace => '}',
        Delimiter::Bracket => ']',
    }
}

/// Appends the source text of a token.
fn render_into(t: &Tok, out: &mut String)
    ensures
        final(out)@ == old(out)@ + render_tok(*t),
    decreases *t, 1int,
{
    match t {
        Tok::Ident(s) => {
            out.append(s.as_str());
            push_char(out, ' ');
        },
        Tok::Literal(s) => {
            out.append(s.as_str());
            push_char(out, ' ');
        },
        Tok::Punct(c, joint) => {
            push_char(out, *c);
            if !*joint {
                push_char(out, ' ');
            }
        },
        Tok::Group(d, inner) => {
            push_char(out, open_delim(*d));
            render_range_into(inner, 0, inner.len(), out);
            assert(inner@.subrange(0, inner@.len() as int) =~= inner@);
            push_char(out, close_delim(*d));
            push_char(out, ' ');
        },
    }
    assert(final(out)@ =~= old(out)@ + render_tok(*t));
}

/// Appends the source text of the tokens `from..to`.
fn render_range_into(ts: &Vec<Tok>, from: usize, to: usize, out: &mut String)
    requires
        from <= to <= ts@.len(),
    ensures
        final(out)@ == old(out)@ + render_seq(ts@.subrange(from as int, to as int)),
    decreases ts@, 0int,
{
    let mut k = from;
    assert(ts@.subrange(from as int, from as int) =~= Seq::<Tok>::empty());
    assert(out@ =~= old(out)@ + render_seq(ts@.subrange(from as int, from as int)));
    while k < to
        invariant
            from <= k <= to <= ts@.len(),
            out@ == old(out)@ + render_seq(ts@.subrange(from as int, k as int)),
        decreases to - k,
    {
        proof {
            lemma_render_push(ts@.subrange(from as int, k as int), ts@[k as int]);
            assert(ts@.subrange(from as int, k + 1) =~= ts@.subrange(from as int, k as int).push(
                ts@[k as int],
            ));
        }
        render_into(&ts[k], out);
        k = k + 1;
    }
}

/// The source text of the tokens `from..to`.
pub fn render_range(ts: &Vec<Tok>, from: usize, to: usize) -> (r: String)
    requires
        from <= to <= ts@.len(),
    ensures
        r@ == render_seq(ts@.subrange(from as int, to as int)),
{
    let mut out = String::new();
    render_range_into(ts, from, to, &mut out);
    assert(out@ =~= render_seq(ts@.subrange(from as int, to as int)));
    out
}

} // verus!
