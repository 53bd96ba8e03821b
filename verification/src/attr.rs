//! The `#[api_error(...)]` attribute: its tokens, its grammar, and how the
//! attributes of one item combine.

use vstd::prelude::*;
use vstd::string::StringExecFns;
use crate::tokens::{Delimiter, Tok, expression, is_expression, render_range, render_seq};

verus! {

/// An attribute of the item. `list_ident` is the attribute's name when it is
/// a list attribute (`#[name(...)]`) named by a single identifier; `tokens`
/// are the tokens between its parentheses.
pub struct Attribute {
    pub list_ident: Option<String>,
    pub tokens: Vec<Tok>,
}

/// A `message = "..."` literal: the attribute and the token that holds it.
#[derive(Clone, Copy, Debug, PartialEq, Eq)]
pub struct MessageLit {
    pub attr: usize,
    pub token: usize,
}

/// The value given to `message`.
#[derive(Clone, Copy, Debug, PartialEq, Eq)]
pub enum MessageValue {
    Literal(MessageLit),
    Inherit,
}

/// The value given to `status_code`: an integer literal (one token, or a
/// `-` and one token), or an expression (the longest run of tokens that is
/// one); either is the tokens `start..end` of the attribute. Where the tokens
/// start with a malformed expression, the refusal names the first token after
/// its longest well-formed start.
#[derive(Clone, Copy, Debug, PartialEq, Eq)]
pub enum StatusValue {
    IntLiteral { attr: usize, start: usize, end: usize },
    Expr { attr: usize, start: usize, end: usize },
}

/// The `message` and `status_code` parameters of one attribute.
#[derive(Clone, Copy, Debug, PartialEq, Eq)]
pub struct CustomAttrFields {
    pub message: Option<MessageValue>,
    pub status_code: Option<StatusValue>,
}

/// What one attribute says, before the attributes of an item are combined.
#[derive(Clone, Copy, Debug, PartialEq, Eq)]
pub enum VariantAttrKind {
    Transparent,
    Custom(CustomAttrFields),
}

/// One attribute's parameters, with the position of the attribute.
#[derive(Clone, Copy, Debug, PartialEq, Eq)]
pub struct PartialVariantAttr {
    pub attr: usize,
    pub kind: VariantAttrKind,
}

/// All the parameters of an item, combined.
#[derive(Clone, Copy, Debug, PartialEq, Eq)]
pub enum VariantAttr {
    /// Delegate to the single inner field.
    Transparent,
    /// Use the `Display` text as the message.
    InheritMsg { status_code: Option<StatusValue> },
    /// A message format (the status reason when absent) and a status code
    /// (500 when absent).
    Custom { msg: Option<MessageLit>, status_code: Option<StatusValue> },
}

/// Why an attribute was refused.
#[derive(Clone, Copy, Debug, PartialEq, Eq)]
pub enum AttrError {
    TransparentCombined,
    ExpectedKey,
    ExpectedStringLiteral { at_end: bool },
    ExpectedParentheses { at_end: bool },
    OnlyMessageSyntax,
    ExpectedEq,
    ExpectedExpression { at_end: bool },
    ExpectedComma,
    UnexpectedToken { within: Option<Delimiter> },
    DuplicateMessage,
    DuplicateStatusCode,
}

/// An attribute error and the position of the attribute it concerns.
#[derive(Clone, Copy, Debug, PartialEq, Eq)]
pub struct AttrErrorAt {
    pub attr: usize,
    pub error: AttrError,
}

/// The value of a string literal as written in source, `None` where the text
/// is no string literal. (What `syn::LitStr` reads from the text.)
pub uninterp spec fn string_literal_value(text: Seq<char>) -> Option<Seq<char>>;

/// Whether the text is an integer literal. (What `syn::LitInt` accepts.)
pub uninterp spec fn is_integer_literal(text: Seq<char>) -> bool;

/// `syn::parse_str::<syn::LitStr>` and `LitStr::value`: the value of the
/// string literal that `text` spells, if it spells one.
#[verifier::external_body]
pub(crate) fn string_literal(text: &str) -> (r: Option<String>)
    ensures
        match r {
            Some(v) => string_literal_value(text@) == Some(v@),
            None => string_literal_value(text@) is None,
        },
{
    match syn::parse_str::<syn::LitStr>(text) {
        Ok(lit) => Some(lit.value()),
        Err(_) => None,
    }
}

/// `syn::parse_str::<syn::LitInt>`: whether `text` spells an integer literal.
#[verifier::external_body]
pub(crate) fn integer_literal(text: &str) -> (r: bool)
    ensures
        r == is_integer_literal(text@),
{
    match syn::parse_str::<syn::LitInt>(text) {
        Ok(_) => true,
        Err(_) => false,
    }
}

pub open spec fn is_ident(t: Tok, w: Seq<char>) -> bool {
    t matches Tok::Ident(s) && s@ == w
}

pub open spec fn is_punct(t: Tok, c: char) -> bool {
    t matches Tok::Punct(p, _) && p == c
}

pub open spec fn is_string_lit(t: Tok) -> bool {
    t matches Tok::Literal(s) && string_literal_value(s@) is Some
}

pub open spec fn is_int_lit(t: Tok) -> bool {
    t matches Tok::Literal(s) && is_integer_literal(s@)
}

/// The literal, written after a `-`, is a (negative) integer literal.
pub open spec fn is_neg_int_lit(t: Tok) -> bool {
    t matches Tok::Literal(s) && is_integer_literal("-"@ + s@)
}

/// The tokens inside a parenthesized group.
pub open spec fn paren_inner(t: Tok) -> Option<Seq<Tok>> {
    match t {
        Tok::Group(Delimiter::Parenthesis, inner) => Some(inner@),
        _ => None,
    }
}

/// The end of the longest run of tokens from `from` on, up to `k`, that is
/// one expression; `from` when there is none.
pub open spec fn longest_expr(t: Seq<Tok>, from: int, k: int) -> int
    decreases k - from,
{
    if from < 0 || k <= from || k > t.len() {
        from
    } else if is_expression(render_seq(t.subrange(from, k))) {
        k
    } else {
        longest_expr(t, from, k - 1)
    }
}

pub proof fn lemma_longest_expr(t: Seq<Tok>, from: int, k: int)
    requires
        0 <= from,
    ensures
        from <= longest_expr(t, from, k),
        k <= t.len() ==> longest_expr(t, from, k) <= (if k < from { from } else { k }),
        longest_expr(t, from, k) > from ==> longest_expr(t, from, k) <= t.len(),
    decreases k - from,
{
    if !(k <= from || k > t.len()) && !is_expression(render_seq(t.subrange(from, k))) {
        lemma_longest_expr(t, from, k - 1);
    }
}

/// The parameters read so far, and whether a parenthesized `message(...)`
/// held tokens after `inherit`.
#[derive(Clone, Copy, Debug, PartialEq, Eq)]
pub struct FieldScan {
    pub fields: CustomAttrFields,
    pub stray: bool,
}

/// What follows a value: the end, or a comma and more parameters.
pub open spec fn after_value(t: Seq<Tok>, k: int, attr: usize, acc: FieldScan) -> Result<
    FieldScan,
    AttrError,
>
    decreases t.len() - k, 0int,
{
    if k >= t.len() || k < 0 {
        Ok(acc)
    } else if is_punct(t[k], ',') {
        fields_from(t, k + 1, attr, acc)
    } else {
        Err(AttrError::ExpectedComma)
    }
}

/// The grammar of the parameters `message = "..."`, `message(inherit)` and
/// `status_code = <integer literal or expression>`, separated by commas, read
/// from position `i` on; a parameter given twice keeps its last value.
pub open spec fn fields_from(t: Seq<Tok>, i: int, attr: usize, acc: FieldScan) -> Result<
    FieldScan,
    AttrError,
>
    decreases t.len() - i, 1int,
{
    if i < 0 || i >= t.len() {
        Ok(acc)
    } else if is_ident(t[i], "transparent"@) {
        Err(AttrError::TransparentCombined)
    } else if is_ident(t[i], "message"@) {
        if i + 1 < t.len() && is_punct(t[i + 1], '=') {
            if i + 2 < t.len() && is_string_lit(t[i + 2]) {
                after_value(
                    t,
                    i + 3,
                    attr,
                    FieldScan {
                        fields: CustomAttrFields {
                            message: Some(
                                MessageValue::Literal(MessageLit { attr, token: (i + 2) as usize }),
                            ),
                            status_code: acc.fields.status_code,
                        },
                        stray: acc.stray,
                    },
                )
            } else {
                Err(AttrError::ExpectedStringLiteral { at_end: i + 2 >= t.len() })
            }
        } else if i + 1 < t.len() && paren_inner(t[i + 1]) is Some {
            let inner = paren_inner(t[i + 1]).unwrap();
            if inner.len() > 0 && is_ident(inner[0], "inherit"@) {
                after_value(
                    t,
                    i + 2,
                    attr,
                    FieldScan {
                        fields: CustomAttrFields {
                            message: Some(MessageValue::Inherit),
                            status_code: acc.fields.status_code,
                        },
                        stray: acc.stray || inner.len() > 1,
                    },
                )
            } else {
                Err(AttrError::OnlyMessageSyntax)
            }
        } else {
            Err(AttrError::ExpectedParentheses { at_end: i + 1 >= t.len() })
        }
    } else if is_ident(t[i], "status_code"@) {
        if !(i + 1 < t.len() && is_punct(t[i + 1], '=')) {
            Err(AttrError::ExpectedEq)
        } else if i + 2 < t.len() && is_int_lit(t[i + 2]) {
            after_value(
                t,
                i + 3,
                attr,
                FieldScan {
                    fields: CustomAttrFields {
                        message: acc.fields.message,
                        status_code: Some(
                            StatusValue::IntLiteral {
                                attr,
                                start: (i + 2) as usize,
                                end: (i + 3) as usize,
                            },
                        ),
                    },
                    stray: acc.stray,
                },
            )
        } else if i + 3 < t.len() && is_punct(t[i + 2], '-') && is_neg_int_lit(t[i + 3]) {
            after_value(
                t,
                i + 4,
                attr,
                FieldScan {
                    fields: CustomAttrFields {
                        message: acc.fields.message,
                        status_code: Some(
                            StatusValue::IntLiteral {
                                attr,
                                start: (i + 2) as usize,
                                end: (i + 4) as usize,
                            },
                        ),
                    },
                    stray: acc.stray,
                },
            )
        } else {
            let e = longest_expr(t, i + 2, t.len() as int);
            proof {
                lemma_longest_expr(t, i + 2, t.len() as int);
            }
            if e <= i + 2 {
                Err(AttrError::ExpectedExpression { at_end: i + 2 >= t.len() })
            } else {
                after_value(
                    t,
                    e,
                    attr,
                    FieldScan {
                        fields: CustomAttrFields {
                            message: acc.fields.message,
                            status_code: Some(
                                StatusValue::Expr { attr, start: (i + 2) as usize, end: e as usize },
                            ),
                        },
                        stray: acc.stray,
                    },
                )
            }
        }
    } else {
        Err(AttrError::ExpectedKey)
    }
}

pub open spec fn empty_scan() -> FieldScan {
    FieldScan { fields: CustomAttrFields { message: None, status_code: None }, stray: false }
}

/// The parameters of one attribute that does not start with `transparent`.
pub open spec fn custom_fields_spec(t: Seq<Tok>, attr: usize) -> Result<CustomAttrFields, AttrError> {
    match fields_from(t, 0, attr, empty_scan()) {
        Err(e) => Err(e),
        Ok(scan) => if scan.stray {
            Err(AttrError::UnexpectedToken { within: Some(Delimiter::Parenthesis) })
        } else {
            Ok(scan.fields)
        },
    }
}

/// What one `#[api_error(...)]` attribute says: `transparent` alone, or
/// parameters.
pub open spec fn partial_attr_spec(t: Seq<Tok>, attr: usize) -> Result<PartialVariantAttr, AttrError> {
    if t.len() > 0 && is_ident(t[0], "transparent"@) {
        if t.len() > 1 && is_punct(t[1], ',') {
            Err(AttrError::TransparentCombined)
        } else if t.len() > 1 {
            Err(AttrError::UnexpectedToken { within: None })
        } else {
            Ok(PartialVariantAttr { attr, kind: VariantAttrKind::Transparent })
        }
    } else {
        match custom_fields_spec(t, attr) {
            Err(e) => Err(e),
            Ok(f) => Ok(PartialVariantAttr { attr, kind: VariantAttrKind::Custom(f) }),
        }
    }
}

fn is_ident_tok(t: &Tok, w: &str) -> (r: bool)
    ensures
        r == is_ident(*t, w@),
{
    match t {
        Tok::Ident(s) => *s == w.to_owned(),
        _ => false,
    }
}

fn is_punct_tok(t: &Tok, c: char) -> (r: bool)
    ensures
        r == is_punct(*t, c),
{
    match t {
        Tok::Punct(p, _) => *p == c,
        _ => false,
    }
}

/// Combines the parameters of a later attribute `b` into those of `a`:
/// `transparent` combines with nothing, and neither parameter may be given by
/// both.
pub open spec fn merge_spec(a: PartialVariantAttr, b: PartialVariantAttr) -> Result<
    PartialVariantAttr,
    AttrErrorAt,
> {
    match (a.kind, b.kind) {
        (VariantAttrKind::Custom(x), VariantAttrKind::Custom(y)) => {
            if y.message is Some && x.message is Some {
                Err(AttrErrorAt { attr: b.attr, error: AttrError::DuplicateMessage })
            } else if y.status_code is Some && x.status_code is Some {
                Err(AttrErrorAt { attr: b.attr, error: AttrError::DuplicateStatusCode })
            } else {
                Ok(
                    PartialVariantAttr {
                        attr: a.attr,
                        kind: VariantAttrKind::Custom(
                            CustomAttrFields {
                                message: if y.message is Some {
                                    y.message
                                } else {
                                    x.message
                                },
                                status_code: if y.status_code is Some {
                                    y.status_code
                                } else {
                                    x.status_code
                                },
                            },
                        ),
                    },
                )
            }
        },
        _ => Err(AttrErrorAt { attr: b.attr, error: AttrError::TransparentCombined }),
    }
}

/// The complete form of combined parameters.
pub open spec fn complete_spec(p: PartialVariantAttr) -> VariantAttr {
    match p.kind {
        VariantAttrKind::Transparent => VariantAttr::Transparent,
        VariantAttrKind::Custom(f) => match f.message {
            Some(MessageValue::Literal(m)) => VariantAttr::Custom {
                msg: Some(m),
                status_code: f.status_code,
            },
            Some(MessageValue::Inherit) => VariantAttr::InheritMsg { status_code: f.status_code },
            None => VariantAttr::Custom { msg: None, status_code: f.status_code },
        },
    }
}

/// The parameters of an item that has no `#[api_error]` attribute.
pub open spec fn default_partial() -> PartialVariantAttr {
    PartialVariantAttr {
        attr: 0,
        kind: VariantAttrKind::Custom(CustomAttrFields { message: None, status_code: None }),
    }
}

pub open spec fn is_api_error_attr(a: Attribute) -> bool {
    a.list_ident matches Some(n) && n@ == "api_error"@
}

/// Reads and combines the `#[api_error(...)]` attributes from position `k`
/// on, in order; other attributes are passed over.
pub open spec fn fold_attrs(attrs: Seq<Attribute>, k: int, acc: Option<PartialVariantAttr>) -> Result<
    Option<PartialVariantAttr>,
    AttrErrorAt,
>
    decreases attrs.len() - k,
{
    if k < 0 || k >= attrs.len() {
        Ok(acc)
    } else if !is_api_error_attr(attrs[k]) {
        fold_attrs(attrs, k + 1, acc)
    } else {
        match partial_attr_spec(attrs[k].tokens@, k as usize) {
            Err(e) => Err(AttrErrorAt { attr: k as usize, error: e }),
            Ok(p) => match acc {
                None => fold_attrs(attrs, k + 1, Some(p)),
                Some(a) => match merge_spec(a, p) {
                    Err(e) => Err(e),
                    Ok(m) => fold_attrs(attrs, k + 1, Some(m)),
                },
            },
        }
    }
}

/// The combined parameters of all the `#[api_error(...)]` attributes of an
/// item.
pub open spec fn variant_attrs_spec(attrs: Seq<Attribute>) -> Result<VariantAttr, AttrErrorAt> {
    match fold_attrs(attrs, 0, None) {
        Err(e) => Err(e),
        Ok(None) => Ok(complete_spec(default_partial())),
        Ok(Some(p)) => Ok(complete_spec(p)),
    }
}

/// The message literal `m` is a string literal token of the attributes.
pub open spec fn lit_ok(attrs: Seq<Attribute>, m: MessageLit) -> bool {
    &&& m.attr < attrs.len()
    &&& m.token < attrs[m.attr as int].tokens@.len()
    &&& is_string_lit(attrs[m.attr as int].tokens@[m.token as int])
}

pub open spec fn scan_lit_ok(t: Seq<Tok>, attr: usize, s: FieldScan) -> bool {
    s.fields.message matches Some(MessageValue::Literal(m)) ==> {
        &&& m.attr == attr
        &&& m.token < t.len()
        &&& is_string_lit(t[m.token as int])
    }
}

pub open spec fn partial_lit_ok(attrs: Seq<Attribute>, p: PartialVariantAttr) -> bool {
    p.kind matches VariantAttrKind::Custom(f) ==> (f.message matches Some(
        MessageValue::Literal(m),
    ) ==> lit_ok(attrs, m))
}

proof fn lemma_after_value_lit(t: Seq<Tok>, k: int, attr: usize, acc: FieldScan)
    requires
        scan_lit_ok(t, attr, acc),
        t.len() <= usize::MAX,
    ensures
        after_value(t, k, attr, acc) matches Ok(s) ==> scan_lit_ok(t, attr, s),
    decreases t.len() - k, 0int,
{
    if 0 <= k < t.len() && is_punct(t[k], ',') {
        lemma_fields_from_lit(t, k + 1, attr, acc);
    }
}

proof fn lemma_fields_from_lit(t: Seq<Tok>, i: int, attr: usize, acc: FieldScan)
    requires
        scan_lit_ok(t, attr, acc),
        t.len() <= usize::MAX,
    ensures
        fields_from(t, i, attr, acc) matches Ok(s) ==> scan_lit_ok(t, attr, s),
    decreases t.len() - i, 1int,
{
    if 0 <= i < t.len() {
        if is_ident(t[i], "message"@) {
            if i + 1 < t.len() && is_punct(t[i + 1], '=') {
                if i + 2 < t.len() && is_string_lit(t[i + 2]) {
                    let s = FieldScan {
                        fields: CustomAttrFields {
                            message: Some(
                                MessageValue::Literal(MessageLit { attr, token: (i + 2) as usize }),
                            ),
                            status_code: acc.fields.status_code,
                        },
                        stray: acc.stray,
                    };
                    lemma_after_value_lit(t, i + 3, attr, s);
                }
            } else if i + 1 < t.len() && paren_inner(t[i + 1]) is Some {
                let inner = paren_inner(t[i + 1]).unwrap();
                let s = FieldScan {
                    fields: CustomAttrFields {
                        message: Some(MessageValue::Inherit),
                        status_code: acc.fields.status_code,
                    },
                    stray: acc.stray || inner.len() > 1,
                };
                lemma_after_value_lit(t, i + 2, attr, s);
            }
        } else if is_ident(t[i], "status_code"@) {
            if i + 1 < t.len() && is_punct(t[i + 1], '=') {
                if i + 2 < t.len() && is_int_lit(t[i + 2]) {
                    let s = FieldScan {
                        fields: CustomAttrFields {
                            message: acc.fields.message,
                            status_code: Some(
                                StatusValue::IntLiteral {
                                    attr,
                                    start: (i + 2) as usize,
                                    end: (i + 3) as usize,
                                },
                            ),
                        },
                        stray: acc.stray,
                    };
                    lemma_after_value_lit(t, i + 3, attr, s);
                } else if i + 3 < t.len() && is_punct(t[i + 2], '-') && is_neg_int_lit(t[i + 3]) {
                    let s = FieldScan {
                        fields: CustomAttrFields {
                            message: acc.fields.message,
                            status_code: Some(
                                StatusValue::IntLiteral {
                                    attr,
                                    start: (i + 2) as usize,
                                    end: (i + 4) as usize,
                                },
                            ),
                        },
                        stray: acc.stray,
                    };
                    lemma_after_value_lit(t, i + 4, attr, s);
                } else {
                    let e = longest_expr(t, i + 2, t.len() as int);
                    lemma_longest_expr(t, i + 2, t.len() as int);
                    let s = FieldScan {
                        fields: CustomAttrFields {
                            message: acc.fields.message,
                            status_code: Some(
                                StatusValue::Expr { attr, start: (i + 2) as usize, end: e as usize },
                            ),
                        },
                        stray: acc.stray,
                    };
                    lemma_after_value_lit(t, e, attr, s);
                }
            }
        }
    }
}

proof fn lemma_fold_attrs_lit(attrs: Seq<Attribute>, k: int, acc: Option<PartialVariantAttr>)
    requires
        0 <= k,
        attrs.len() <= usize::MAX,
        acc matches Some(a) ==> partial_lit_ok(attrs, a),
    ensures
        fold_attrs(attrs, k, acc) matches Ok(Some(p)) ==> partial_lit_ok(attrs, p),
    decreases attrs.len() - k,
{
    if k < attrs.len() {
        if !is_api_error_attr(attrs[k]) {
            lemma_fold_attrs_lit(attrs, k + 1, acc);
        } else {
            let t = attrs[k].tokens@;
            assert(t.len() == attrs[k].tokens.len());
            lemma_fields_from_lit(t, 0, k as usize, empty_scan());
            match partial_attr_spec(t, k as usize) {
                Err(_) => {},
                Ok(p) => {
                    assert(partial_lit_ok(attrs, p));
                    match acc {
                        None => lemma_fold_attrs_lit(attrs, k + 1, Some(p)),
                        Some(a) => match merge_spec(a, p) {
                            Err(_) => {},
                            Ok(m) => lemma_fold_attrs_lit(attrs, k + 1, Some(m)),
                        },
                    }
                },
            }
        }
    }
}

/// A message literal in the combined parameters of an item is a string
/// literal token of its attributes.
pub proof fn lemma_variant_attrs_lit(attrs: Seq<Attribute>)
    requires
        attrs.len() <= usize::MAX,
    ensures
        variant_attrs_spec(attrs) matches Ok(VariantAttr::Custom { msg: Some(m), .. }) ==> lit_ok(
            attrs,
            m,
        ),
{
    lemma_fold_attrs_lit(attrs, 0, None);
}

/// The diagnostic of an attribute error.
pub open spec fn attr_error_text(e: AttrError) -> Seq<char> {
    match e {
        AttrError::TransparentCombined => "`transparent` cannot be combined with other `api_error` attributes"@,
        AttrError::ExpectedKey => "expected `message` or `status_code`"@,
        AttrError::ExpectedStringLiteral { at_end } => at_end_prefix(at_end) + "expected string literal"@,
        AttrError::ExpectedParentheses { at_end } => at_end_prefix(at_end) + "expected parentheses"@,
        AttrError::OnlyMessageSyntax => "Only `message = \"...\"` or `message(inherit)` syntax is allowed in `api_error` attribute"@,
        AttrError::ExpectedEq => "expected `=`"@,
        AttrError::ExpectedExpression { at_end } => at_end_prefix(at_end) + "expected an expression"@,
        AttrError::ExpectedComma => "Expected comma separated key-value pairs in api_error attribute"@,
        AttrError::UnexpectedToken { within } => match within {
            None => "unexpected token"@,
            Some(Delimiter::Parenthesis) => "unexpected token, expected `)`"@,
            Some(Delimiter::Brace) => "unexpected token, expected `}`"@,
            Some(Delimiter::Bracket) => "unexpected token, expected `]`"@,
        },
        AttrError::DuplicateMessage => "duplicate `message` attribute in `api_error`"@,
        AttrError::DuplicateStatusCode => "duplicate `status_code` attribute in `api_error`"@,
    }
}

pub open spec fn at_end_prefix(at_end: bool) -> Seq<char> {
    if at_end {
        "unexpected end of input, "@
    } else {
        Seq::empty()
    }
}

/// The tokens of a parenthesized group.
fn paren_group(t: &Tok) -> (r: Option<&Vec<Tok>>)
    ensures
        match r {
            Some(v) => paren_inner(*t) == Some(v@),
            None => paren_inner(*t) is None,
        },
{
    match t {
        Tok::Group(Delimiter::Parenthesis, inner) => Some(inner),
        _ => None,
    }
}

/// Whether the token is a string literal.
fn is_string_lit_tok(t: &Tok) -> (r: bool)
    ensures
        r == is_string_lit(*t),
{
    match t {
        Tok::Literal(s) => match string_literal(s.as_str()) {
            Some(_) => true,
            None => false,
        },
        _ => false,
    }
}

/// Whether the token is an integer literal.
fn is_int_lit_tok(t: &Tok) -> (r: bool)
    ensures
        r == is_int_lit(*t),
{
    match t {
        Tok::Literal(s) => integer_literal(s.as_str()),
        _ => false,
    }
}

/// Whether the token, written after a `-`, is a negative integer literal.
fn is_neg_int_lit_tok(t: &Tok) -> (r: bool)
    ensures
        r == is_neg_int_lit(*t),
{
    match t {
        Tok::Literal(s) => {
            let mut text = "-".to_owned();
            text.append(s.as_str());
            integer_literal(text.as_str())
        },
        _ => false,
    }
}

/// The end of the longest run of tokens from `from` on that is one
/// expression; `from` when there is none.
fn find_longest_expr(t: &Vec<Tok>, from: usize) -> (e: usize)
    requires
        from <= t@.len(),
    ensures
        e as int == longest_expr(t@, from as int, t@.len() as int),
{
    let mut k = t.len();
    while k > from
        invariant
            from <= k <= t@.len(),
            longest_expr(t@, from as int, t@.len() as int) == longest_expr(t@, from as int, k as int),
        decreases k - from,
    {
        let text = render_range(t, from, k);
        if expression(text.as_str()) {
            return k;
        }
        k = k - 1;
    }
    from
}

/// Reads the comma-separated `message` / `status_code` parameters of an
/// attribute, noting whether a `message(...)` held tokens after `inherit`.
fn scan_fields(t: &Vec<Tok>, attr: usize) -> (r: Result<FieldScan, AttrError>)
    ensures
        r == fields_from(t@, 0, attr, empty_scan()),
{
    let mut acc = FieldScan {
        fields: CustomAttrFields { message: None, status_code: None },
        stray: false,
    };
    let mut i: usize = 0;
    let len = t.len();
    loop
        invariant
            len == t@.len(),
            i <= len,
            fields_from(t@, 0, attr, empty_scan()) == fields_from(t@, i as int, attr, acc),
        decreases len - i,
    {
        if i >= len {
            return Ok(acc);
        }
        let k: usize;
        let ghost old_acc = acc;
        if is_ident_tok(&t[i], "transparent") {
            return Err(AttrError::TransparentCombined);
        } else if is_ident_tok(&t[i], "message") {
            if i + 1 < len && is_punct_tok(&t[i + 1], '=') {
                if i + 2 < len && is_string_lit_tok(&t[i + 2]) {
                    acc = FieldScan {
                        fields: CustomAttrFields {
                            message: Some(MessageValue::Literal(MessageLit { attr, token: i + 2 })),
                            status_code: acc.fields.status_code,
                        },
                        stray: acc.stray,
                    };
                    k = i + 3;
                } else {
                    return Err(AttrError::ExpectedStringLiteral { at_end: i + 2 >= len });
                }
            } else if i + 1 < len && paren_group(&t[i + 1]).is_some() {
                let inner = paren_group(&t[i + 1]).unwrap();
                if inner.len() > 0 && is_ident_tok(&inner[0], "inherit") {
                    acc = FieldScan {
                        fields: CustomAttrFields {
                            message: Some(MessageValue::Inherit),
                            status_code: acc.fields.status_code,
                        },
                        stray: acc.stray || inner.len() > 1,
                    };
                    k = i + 2;
                } else {
                    return Err(AttrError::OnlyMessageSyntax);
                }
            } else {
                return Err(AttrError::ExpectedParentheses { at_end: i + 1 >= len });
            }
        } else if is_ident_tok(&t[i], "status_code") {
            if !(i + 1 < len && is_punct_tok(&t[i + 1], '=')) {
                return Err(AttrError::ExpectedEq);
            } else if i + 2 < len && is_int_lit_tok(&t[i + 2]) {
                acc = FieldScan {
                    fields: CustomAttrFields {
                        message: acc.fields.message,
                        status_code: Some(StatusValue::IntLiteral { attr, start: i + 2, end: i + 3 }),
                    },
                    stray: acc.stray,
                };
                k = i + 3;
            } else if i + 2 < len && i + 3 < len && is_punct_tok(&t[i + 2], '-') && is_neg_int_lit_tok(&t[i + 3]) {
                acc = FieldScan {
                    fields: CustomAttrFields {
                        message: acc.fields.message,
                        status_code: Some(StatusValue::IntLiteral { attr, start: i + 2, end: i + 4 }),
                    },
                    stray: acc.stray,
                };
                k = i + 4;
            } else {
                let e = find_longest_expr(t, i + 2);
                proof {
                    lemma_longest_expr(t@, i + 2, len as int);
                }
                if e <= i + 2 {
                    return Err(AttrError::ExpectedExpression { at_end: i + 2 >= len });
                }
                acc = FieldScan {
                    fields: CustomAttrFields {
                        message: acc.fields.message,
                        status_code: Some(StatusValue::Expr { attr, start: i + 2, end: e }),
                    },
                    stray: acc.stray,
                };
                k = e;
            }
        } else {
            return Err(AttrError::ExpectedKey);
        }
        assert(fields_from(t@, i as int, attr, old_acc) == after_value(t@, k as int, attr, acc));
        if k >= len {
            return Ok(acc);
        }
        if is_punct_tok(&t[k], ',') {
            i = k + 1;
        } else {
            return Err(AttrError::ExpectedComma);
        }
    }
}

fn with_prefix(at_end: bool, text: &str) -> (r: String)
    ensures
        r@ == at_end_prefix(at_end) + text@,
{
    if at_end {
        let mut r = "unexpected end of input, ".to_owned();
        r.append(text);
        r
    } else {
        let r = text.to_owned();
        assert(r@ =~= at_end_prefix(at_end) + text@);
        r
    }
}

impl AttrError {
    /// The diagnostic text of this error.
    pub fn message(&self) -> (r: String)
        ensures
            r@ == attr_error_text(*self),
    {
        match self {
            AttrError::TransparentCombined => "`transparent` cannot be combined with other `api_error` attributes".to_owned(),
            AttrError::ExpectedKey => "expected `message` or `status_code`".to_owned(),
            AttrError::ExpectedStringLiteral { at_end } => with_prefix(*at_end, "expected string literal"),
            AttrError::ExpectedParentheses { at_end } => with_prefix(*at_end, "expected parentheses"),
            AttrError::OnlyMessageSyntax => "Only `message = \"...\"` or `message(inherit)` syntax is allowed in `api_error` attribute".to_owned(),
            AttrError::ExpectedEq => "expected `=`".to_owned(),
            AttrError::ExpectedExpression { at_end } => with_prefix(*at_end, "expected an expression"),
            AttrError::ExpectedComma => "Expected comma separated key-value pairs in api_error attribute".to_owned(),
            AttrError::UnexpectedToken { within } => match within {
                None => "unexpected token".to_owned(),
                Some(Delimiter::Parenthesis) => "unexpected token, expected `)`".to_owned(),
                Some(Delimiter::Brace) => "unexpected token, expected `}`".to_owned(),
                Some(Delimiter::Bracket) => "unexpected token, expected `]`".to_owned(),
            },
            AttrError::DuplicateMessage => "duplicate `message` attribute in `api_error`".to_owned(),
            AttrError::DuplicateStatusCode => "duplicate `status_code` attribute in `api_error`".to_owned(),
        }
    }
}

impl CustomAttrFields {
    /// Reads the `message` / `status_code` parameters of attribute `attr`.
    pub fn parse(t: &Vec<Tok>, attr: usize) -> (r: Result<CustomAttrFields, AttrError>)
        ensures
            r == custom_fields_spec(t@, attr),
    {
        match scan_fields(t, attr) {
            Err(e) => Err(e),
            Ok(scan) => if scan.stray {
                Err(AttrError::UnexpectedToken { within: Some(Delimiter::Parenthesis) })
            } else {
                Ok(scan.fields)
            },
        }
    }
}

impl Default for PartialVariantAttr {
    fn default() -> (r: Self)
        ensures
            r == default_partial(),
    {
        PartialVariantAttr {
            attr: 0,
            kind: VariantAttrKind::Custom(CustomAttrFields { message: None, status_code: None }),
        }
    }
}

impl PartialVariantAttr {
    /// Reads one `#[api_error(...)]` attribute, at position `attr`.
    pub fn parse(t: &Vec<Tok>, attr: usize) -> (r: Result<PartialVariantAttr, AttrError>)
        ensures
            r == partial_attr_spec(t@, attr),
    {
        if t.len() > 0 && is_ident_tok(&t[0], "transparent") {
            if t.len() > 1 && is_punct_tok(&t[1], ',') {
                Err(AttrError::TransparentCombined)
            } else if t.len() > 1 {
                Err(AttrError::UnexpectedToken { within: None })
            } else {
                Ok(PartialVariantAttr { attr, kind: VariantAttrKind::Transparent })
            }
        } else {
            match CustomAttrFields::parse(t, attr) {
                Err(e) => Err(e),
                Ok(f) => Ok(PartialVariantAttr { attr, kind: VariantAttrKind::Custom(f) }),
            }
        }
    }

    /// Combines a later attribute into this one; on a conflict this one is
    /// left as it was.
    pub fn merge(&mut self, other: PartialVariantAttr) -> (r: Result<(), AttrErrorAt>)
        ensures
            match merge_spec(*old(self), other) {
                Ok(m) => r is Ok && *final(self) == m,
                Err(e) => r == Err::<(), AttrErrorAt>(e) && *final(self) == *old(self),
            },
    {
        let at = other.attr;
        match (&mut self.kind, other.kind) {
            (VariantAttrKind::Custom(a), VariantAttrKind::Custom(b)) => {
                if b.message.is_some() && a.message.is_some() {
                    return Err(AttrErrorAt { attr: at, error: AttrError::DuplicateMessage });
                }
                if b.status_code.is_some() && a.status_code.is_some() {
                    return Err(AttrErrorAt { attr: at, error: AttrError::DuplicateStatusCode });
                }
                if b.message.is_some() {
                    a.message = b.message;
                }
                if b.status_code.is_some() {
                    a.status_code = b.status_code;
                }
                Ok(())
            },
            _ => Err(AttrErrorAt { attr: at, error: AttrError::TransparentCombined }),
        }
    }

    /// The complete form of combined parameters.
    pub fn into_complete(self) -> (r: VariantAttr)
        ensures
            r == complete_spec(self),
    {
        match self.kind {
            VariantAttrKind::Transparent => VariantAttr::Transparent,
            VariantAttrKind::Custom(f) => match f.message {
                Some(MessageValue::Literal(m)) => VariantAttr::Custom {
                    msg: Some(m),
                    status_code: f.status_code,
                },
                Some(MessageValue::Inherit) => VariantAttr::InheritMsg {
                    status_code: f.status_code,
                },
                None => VariantAttr::Custom { msg: None, status_code: f.status_code },
            },
        }
    }
}

/// Whether the attribute is an `#[api_error(...)]` list.
fn is_api_error_attribute(a: &Attribute) -> (r: bool)
    ensures
        r == is_api_error_attr(*a),
{
    match &a.list_ident {
        Some(n) => *n == "api_error".to_owned(),
        None => false,
    }
}

/// Reads the `#[api_error(...)]` attributes of an item and combines them into
/// one set of parameters.
pub fn parse_variant_attrs(attrs: &Vec<Attribute>) -> (r: Result<VariantAttr, AttrErrorAt>)
    ensures
        r == variant_attrs_spec(attrs@),
{
    let mut acc: Option<PartialVariantAttr> = None;
    let mut k: usize = 0;
    while k < attrs.len()
        invariant
            k <= attrs@.len(),
            fold_attrs(attrs@, 0, None) == fold_attrs(attrs@, k as int, acc),
        decreases attrs.len() - k,
    {
        if is_api_error_attribute(&attrs[k]) {
            match PartialVariantAttr::parse(&attrs[k].tokens, k) {
                Err(e) => {
                    return Err(AttrErrorAt { attr: k, error: e });
                },
                Ok(p) => match acc {
                    None => {
                        acc = Some(p);
                    },
                    Some(mut a) => {
                        match a.merge(p) {
                            Err(e) => {
                                return Err(e);
                            },
                            Ok(()) => {
                                acc = Some(a);
                            },
                        }
                    },
                },
            }
        }
        k = k + 1;
    }
    match acc {
        None => Ok(PartialVariantAttr::default().into_complete()),
        Some(p) => Ok(p.into_complete()),
    }
}

} // verus!
