//! Rewriting of positional message formats (`"{1} and {0}"`) into
//! anonymous ones (`"{} and {}"`) together with the referenced indices.

use vstd::prelude::*;
use vstd::string::StringExecFns;
use crate::text::{chars_of, push_char, decimal, decimal_chars};

verus! {

/// Why a positional message format was refused.
#[derive(Debug, PartialEq, Eq)]
pub enum FormatError {
    /// A `{` opens an argument that no `}` closes.
    UnmatchedBrace,
    /// The text between the braces is not a decimal index.
    InvalidArgument(String),
    /// The index names a field that does not exist.
    OutOfBounds { index: usize, field_count: usize },
}

/// Mathematical form of a [`FormatError`].
pub enum FormatErrorView {
    UnmatchedBrace,
    InvalidArgument(Seq<char>),
    OutOfBounds { index: usize, field_count: usize },
}

impl View for FormatError {
    type V = FormatErrorView;

    open spec fn view(&self) -> FormatErrorView {
        match self {
            FormatError::UnmatchedBrace => FormatErrorView::UnmatchedBrace,
            FormatError::InvalidArgument(s) => FormatErrorView::InvalidArgument(s@),
            FormatError::OutOfBounds { index, field_count } => FormatErrorView::OutOfBounds {
                index: *index,
                field_count: *field_count,
            },
        }
    }
}

pub open spec fn is_digit(c: char) -> bool {
    '0' <= c <= '9'
}

pub open spec fn all_digits(s: Seq<char>) -> bool {
    forall|i: int| 0 <= i < s.len() ==> is_digit(#[trigger] s[i])
}

/// The number that a string of decimal digits denotes.
pub open spec fn decimal_value(s: Seq<char>) -> nat
    decreases s.len(),
{
    if s.len() == 0 {
        0
    } else {
        decimal_value(s.drop_last()) * 10 + (s.last() as int - '0' as int) as nat
    }
}

/// What `usize::from_str` accepts: an optional `+`, then one or more decimal
/// digits whose value fits in a `usize`.
pub open spec fn parse_index_spec(s: Seq<char>) -> Option<usize> {
    let digits = if s.len() > 0 && s[0] == '+' { s.drop_first() } else { s };
    if digits.len() > 0 && all_digits(digits) && decimal_value(digits) <= usize::MAX {
        Some(decimal_value(digits) as usize)
    } else {
        None
    }
}

/// Position of the first `}` at or after `from`.
pub open spec fn find_close(m: Seq<char>, from: int) -> Option<int>
    decreases m.len() - from,
{
    if from < 0 || from >= m.len() {
        None
    } else if m[from] == '}' {
        Some(from)
    } else {
        find_close(m, from + 1)
    }
}

pub proof fn lemma_find_close(m: Seq<char>, from: int)
    requires
        0 <= from,
    ensures
        match find_close(m, from) {
            Some(j) => from <= j < m.len() && m[j] == '}' && forall|k: int|
                from <= k < j ==> m[k] != '}',
            None => forall|k: int| from <= k < m.len() ==> m[k] != '}',
        },
    decreases m.len() - from,
{
    if from < m.len() && m[from] != '}' {
        lemma_find_close(m, from + 1);
    }
}

/// Puts an already rewritten prefix in front of the rewrite of the rest.
pub open spec fn prepend(
    out: Seq<char>,
    idx: Seq<usize>,
    rest: Result<(Seq<char>, Seq<usize>), FormatErrorView>,
) -> Result<(Seq<char>, Seq<usize>), FormatErrorView> {
    match rest {
        Ok((s, ix)) => Ok((out + s, idx + ix)),
        Err(e) => Err(e),
    }
}

/// The rewrite of a message from position `i` on, for an item with `n`
/// fields: every character outside an argument is kept as written, `{{` is
/// kept as it is, and `{k}` becomes `{}` and contributes `k`.
pub open spec fn rewrite_from(m: Seq<char>, i: int, n: nat) -> Result<
    (Seq<char>, Seq<usize>),
    FormatErrorView,
>
    decreases m.len() - i,
{
    if i < 0 || i >= m.len() {
        Ok((seq![], seq![]))
    } else if m[i] == '{' && i + 1 < m.len() && m[i + 1] == '{' {
        prepend(seq!['{', '{'], seq![], rewrite_from(m, i + 2, n))
    } else if m[i] == '{' {
        match find_close(m, i + 1) {
            None => Err(FormatErrorView::UnmatchedBrace),
            Some(j) => {
                proof {
                    lemma_find_close(m, i + 1);
                }
                let arg = m.subrange(i + 1, j);
                match parse_index_spec(arg) {
                    None => Err(FormatErrorView::InvalidArgument(arg)),
                    Some(p) => if p >= n {
                        Err(FormatErrorView::OutOfBounds { index: p, field_count: n as usize })
                    } else {
                        prepend(seq!['{', '}'], seq![p], rewrite_from(m, j + 1, n))
                    },
                }
            },
        }
    } else {
        prepend(seq![m[i]], seq![], rewrite_from(m, i + 1, n))
    }
}

/// What `format!` writes for a format string whose arguments are anonymous
/// (`{}`), filled from `args` in order: `{{` and `}}` are written once.
pub open spec fn format_anon(f: Seq<char>, args: Seq<Seq<char>>) -> Seq<char>
    decreases f.len(),
{
    if f.len() == 0 {
        Seq::empty()
    } else if f.len() >= 2 && f[0] == '{' && f[1] == '{' {
        seq!['{'] + format_anon(f.subrange(2, f.len() as int), args)
    } else if f.len() >= 2 && f[0] == '}' && f[1] == '}' {
        seq!['}'] + format_anon(f.subrange(2, f.len() as int), args)
    } else if f.len() >= 2 && f[0] == '{' && f[1] == '}' {
        args[0] + format_anon(f.subrange(2, f.len() as int), args.drop_first())
    } else {
        seq![f[0]] + format_anon(f.subrange(1, f.len() as int), args)
    }
}

/// What a message with positional arguments means, from position `i` on,
/// given the text of each field: each `{k}` is the text of field `k`, and
/// `{{` and `}}` are written once.
pub open spec fn format_positional(m: Seq<char>, i: int, fields: Seq<Seq<char>>) -> Seq<char>
    decreases m.len() - i,
{
    if i < 0 || i >= m.len() {
        Seq::empty()
    } else if m[i] == '{' && i + 1 < m.len() && m[i + 1] == '{' {
        seq!['{'] + format_positional(m, i + 2, fields)
    } else if m[i] == '}' && i + 1 < m.len() && m[i + 1] == '}' {
        seq!['}'] + format_positional(m, i + 2, fields)
    } else if m[i] == '{' {
        match find_close(m, i + 1) {
            None => Seq::empty(),
            Some(j) => {
                proof {
                    lemma_find_close(m, i + 1);
                }
                match parse_index_spec(m.subrange(i + 1, j)) {
                    None => Seq::empty(),
                    Some(p) => fields[p as int] + format_positional(m, j + 1, fields),
                }
            },
        }
    } else {
        seq![m[i]] + format_positional(m, i + 1, fields)
    }
}

/// The texts of the fields that a rewritten format refers to, in order.
pub open spec fn field_texts(ix: Seq<usize>, fields: Seq<Seq<char>>) -> Seq<Seq<char>> {
    ix.map_values(|k: usize| fields[k as int])
}

/// The result of rewriting a whole message for an item with `n` fields.
pub open spec fn unamed_format_spec(msg: Seq<char>, n: nat) -> Result<
    (Seq<char>, Seq<usize>),
    FormatErrorView,
> {
    rewrite_from(msg, 0, n)
}

/// The diagnostic for a refused format, as the derive reports it.
pub open spec fn format_error_text(e: FormatErrorView) -> Seq<char> {
    match e {
        FormatErrorView::UnmatchedBrace => "unmatched '{' in format string"@,
        FormatErrorView::InvalidArgument(arg) => "invalid format argument '"@ + arg
            + "', formatting arguments must be numeric positional indices"@,
        FormatErrorView::OutOfBounds { index, field_count } => if field_count == 0 {
            "positional argument '"@ + decimal_chars(index as nat)
                + "' out of bounds (there are no fields)"@
        } else {
            "positional argument '"@ + decimal_chars(index as nat) + "' out of bounds (max "@
                + decimal_chars((field_count - 1) as nat) + ")"@
        },
    }
}

impl FormatError {
    /// The diagnostic text of this error.
    pub fn message(&self) -> (r: String)
        ensures
            r@ == format_error_text(self@),
    {
        match self {
            FormatError::UnmatchedBrace => "unmatched '{' in format string".to_owned(),
            FormatError::InvalidArgument(arg) => {
                let mut r = "invalid format argument '".to_owned();
                r.append(arg.as_str());
                r.append("', formatting arguments must be numeric positional indices");
                r
            },
            FormatError::OutOfBounds { index, field_count } => {
                let mut r = "positional argument '".to_owned();
                r.append(decimal(*index).as_str());
                if *field_count == 0 {
                    r.append("' out of bounds (there are no fields)");
                } else {
                    r.append("' out of bounds (max ");
                    r.append(decimal(*field_count - 1).as_str());
                    r.append(")");
                }
                r
            },
        }
    }
}

/// The mathematical form of a rewrite's outcome.
pub open spec fn format_result_view(r: Result<(String, Vec<usize>), FormatError>) -> Result<
    (Seq<char>, Seq<usize>),
    FormatErrorView,
> {
    match r {
        Ok((s, ix)) => Ok((s@, ix@)),
        Err(e) => Err(e@),
    }
}

proof fn lemma_prepend_assoc(
    a: Seq<char>,
    ai: Seq<usize>,
    b: Seq<char>,
    bi: Seq<usize>,
    r: Result<(Seq<char>, Seq<usize>), FormatErrorView>,
)
    ensures
        prepend(a, ai, prepend(b, bi, r)) == prepend(a + b, ai + bi, r),
{
    match r {
        Ok((s, ix)) => {
            assert(a + (b + s) =~= (a + b) + s);
            assert(ai + (bi + ix) =~= (ai + bi) + ix);
        },
        Err(_) => {},
    }
}

proof fn lemma_decimal_prefix_le(s: Seq<char>, k: int)
    requires
        0 <= k <= s.len(),
    ensures
        decimal_value(s.subrange(0, k)) <= decimal_value(s),
    decreases s.len() - k,
{
    if k < s.len() {
        lemma_decimal_prefix_le(s, k + 1);
        assert(s.subrange(0, k + 1).drop_last() =~= s.subrange(0, k));
    } else {
        assert(s.subrange(0, k) =~= s);
    }
}

/// Parses a decimal index the way `usize::from_str` does.
pub fn parse_index(s: &[char]) -> (r: Option<usize>)
    ensures
        r == parse_index_spec(s@),
{
    let start: usize = if s.len() > 0 && s[0] == '+' { 1 } else { 0 };
    let ghost digits = if s@.len() > 0 && s@[0] == '+' { s@.drop_first() } else { s@ };
    assert(digits =~= s@.subrange(start as int, s@.len() as int));
    if start >= s.len() {
        return None;
    }
    let mut k: usize = start;
    while k < s.len()
        invariant
            start <= k <= s.len(),
            digits =~= s@.subrange(start as int, s@.len() as int),
            digits == (if s@.len() > 0 && s@[0] == '+' { s@.drop_first() } else { s@ }),
            digits.len() > 0,
            forall|j: int| start <= j < k ==> is_digit(#[trigger] s@[j]),
        decreases s.len() - k,
    {
        if s[k] < '0' || s[k] > '9' {
            assert(digits[k - start] == s@[k as int]);
            assert(!is_digit(digits[k - start]));
            assert(!all_digits(digits));
            return None;
        }
        k = k + 1;
    }
    assert(all_digits(digits));
    let mut v: usize = 0;
    let mut k: usize = start;
    while k < s.len()
        invariant
            start <= k <= s.len(),
            digits =~= s@.subrange(start as int, s@.len() as int),
            digits == (if s@.len() > 0 && s@[0] == '+' { s@.drop_first() } else { s@ }),
            digits.len() > 0,
            all_digits(digits),
            v as nat == decimal_value(digits.subrange(0, k - start)),
        decreases s.len() - k,
    {
        assert(digits[k - start] == s@[k as int]);
        assert(is_digit(digits[k - start]));
        let d: usize = (s[k] as u32 - '0' as u32) as usize;
        let ghost pre = digits.subrange(0, k + 1 - start);
        assert(pre.drop_last() =~= digits.subrange(0, k - start));
        assert(pre.last() == s@[k as int]);
        assert(decimal_value(pre) == v * 10 + d);
        match v.checked_mul(10) {
            Some(t) => match t.checked_add(d) {
                Some(u) => {
                    v = u;
                },
                None => {
                    proof {
                        lemma_decimal_prefix_le(digits, k + 1 - start);
                    }
                    return None;
                },
            },
            None => {
                proof {
                    lemma_decimal_prefix_le(digits, k + 1 - start);
                }
                return None;
            },
        }
        k = k + 1;
    }
    assert(digits.subrange(0, k - start) =~= digits);
    Some(v)
}

/// The characters `m[from..to]` as a string.
fn string_of_range(m: &Vec<char>, from: usize, to: usize) -> (r: String)
    requires
        from <= to <= m@.len(),
    ensures
        r@ == m@.subrange(from as int, to as int),
{
    let mut r = String::new();
    let mut k: usize = from;
    while k < to
        invariant
            from <= k <= to <= m@.len(),
            r@ == m@.subrange(from as int, k as int),
        decreases to - k,
    {
        push_char(&mut r, m[k]);
        assert(m@.subrange(from as int, k + 1) =~= m@.subrange(from as int, k as int).push(m@[k as int]));
        k = k + 1;
    }
    r
}

/// Takes a message format with positional arguments (`{0}`, `{1}`, ...) and
/// replaces each of them by an anonymous one (`{}`), giving back the indices
/// that were referenced, in order, after checking that each is below
/// `field_count`; all other text is kept as written.
/// `"Error on field {1} with value {0}"` becomes
/// `("Error on field {} with value {}", [1, 0])`.
pub fn parse_unamed_msg_format(message: &str, field_count: usize) -> (r: Result<
    (String, Vec<usize>),
    FormatError,
>)
    ensures
        format_result_view(r) == unamed_format_spec(message@, field_count as nat),
{
    let m = chars_of(message);
    let ghost b = m@;
    let ghost n = field_count as nat;
    let len = m.len();
    let mut out = String::new();
    let mut idx: Vec<usize> = Vec::new();
    let mut i: usize = 0;
    proof {
        assert(prepend(seq![], seq![], rewrite_from(b, 0, n)) == rewrite_from(b, 0, n)) by {
            match rewrite_from(b, 0, n) {
                Ok((s, ix)) => {
                    assert(Seq::<char>::empty() + s =~= s);
                    assert(Seq::<usize>::empty() + ix =~= ix);
                },
                Err(_) => {},
            }
        }
        assert(out@ =~= Seq::<char>::empty());
    }
    while i < len
        invariant
            b == m@,
            b == message@,
            len == b.len(),
            n == field_count as nat,
            i <= len,
            rewrite_from(b, 0, n) == prepend(out@, idx@, rewrite_from(b, i as int, n)),
        decreases len - i,
    {
        let c = m[i];
        if c == '{' && i + 1 < len && m[i + 1] == '{' {
            proof {
                lemma_prepend_assoc(out@, idx@, seq!['{', '{'], seq![], rewrite_from(b, i + 2, n));
            }
            let ghost old_out = out@;
            push_char(&mut out, '{');
            push_char(&mut out, '{');
            assert(out@ =~= old_out + seq!['{', '{']);
            assert(idx@ =~= idx@ + Seq::<usize>::empty());
            i = i + 2;
        } else if c == '{' {
            let mut j: usize = i + 1;
            while j < len && m[j] != '}'
                invariant
                    b == m@,
                    len == b.len(),
                    i + 1 <= j <= len,
                    forall|k: int| i + 1 <= k < j ==> b[k] != '}',
                decreases len - j,
            {
                j = j + 1;
            }
            proof {
                lemma_find_close(b, i + 1);
            }
            if j >= len {
                assert(find_close(b, i + 1) is None);
                return Err(FormatError::UnmatchedBrace);
            }
            assert(find_close(b, i + 1) == Some(j as int));
            let arg = string_of_range(&m, i + 1, j);
            let mut k: usize = i + 1;
            let mut digits: Vec<char> = Vec::new();
            while k < j
                invariant
                    b == m@,
                    i + 1 <= k <= j < len,
                    len == b.len(),
                    digits@ == b.subrange(i + 1, k as int),
                decreases j - k,
            {
                digits.push(m[k]);
                assert(b.subrange(i + 1, k + 1) =~= b.subrange(i + 1, k as int).push(b[k as int]));
                k = k + 1;
            }
            match parse_index(digits.as_slice()) {
                None => {
                    return Err(FormatError::InvalidArgument(arg));
                },
                Some(p) => {
                    if p >= field_count {
                        return Err(FormatError::OutOfBounds { index: p, field_count });
                    }
                    proof {
                        lemma_prepend_assoc(
                            out@,
                            idx@,
                            seq!['{', '}'],
                            seq![p],
                            rewrite_from(b, j + 1, n),
                        );
                    }
                    let ghost old_out = out@;
                    push_char(&mut out, '{');
                    push_char(&mut out, '}');
                    assert(out@ =~= old_out + seq!['{', '}']);
                    let ghost old_idx = idx@;
                    idx.push(p);
                    assert(idx@ =~= old_idx + seq![p]);
                    i = j + 1;
                },
            }
        } else {
            proof {
                lemma_prepend_assoc(out@, idx@, seq![c], seq![], rewrite_from(b, i + 1, n));
            }
            let ghost old_out = out@;
            push_char(&mut out, c);
            assert(out@ =~= old_out + seq![c]);
            assert(idx@ =~= idx@ + Seq::<usize>::empty());
            i = i + 1;
        }
    }
    proof {
        assert(out@ + Seq::<char>::empty() =~= out@);
        assert(idx@ + Seq::<usize>::empty() =~= idx@);
    }
    Ok((out, idx))
}

} // verus!
