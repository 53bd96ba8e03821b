//! Properties of the attribute grammar and of how the attributes of an item
//! combine, stated over the parse of one attribute and the combination of two.

use vstd::prelude::*;
use crate::attr::{
    AttrErrorAt, Attribute, CustomAttrFields, FieldScan, empty_scan, MessageLit, MessageValue, PartialVariantAttr,
    StatusValue, VariantAttr, VariantAttrKind, after_value, complete_spec, fields_from, fold_attrs,
    is_api_error_attr, is_ident, is_int_lit, is_neg_int_lit, is_punct, is_string_lit,
    longest_expr, merge_spec, paren_inner, partial_attr_spec, variant_attrs_spec,
};
use crate::tokens::{Tok, is_expression, render_seq};

verus! {

/// The tokens `e` are a status expression as the grammar reads one: a
/// well-formed expression that does not start as an integer literal.
pub open spec fn status_expression(e: Seq<Tok>) -> bool {
    &&& e.len() > 0
    &&& !is_int_lit(e[0])
    &&& !(e.len() > 1 && is_punct(e[0], '-') && is_neg_int_lit(e[1]))
    &&& is_expression(render_seq(e))
}

proof fn lemma_keywords_differ()
    ensures
        "message"@ != "transparent"@,
        "status_code"@ != "transparent"@,
        "status_code"@ != "message"@,
{
    reveal_strlit("message");
    reveal_strlit("transparent");
    reveal_strlit("status_code");
    assert("message"@.len() != "transparent"@.len());
    assert("status_code"@.len() != "message"@.len());
    assert("status_code"@[0] != "transparent"@[0]);
}

/// `longest_expr` stops at the end `m` of an expression when no longer run up
/// to `k` is one.
proof fn lemma_longest_expr_at(t: Seq<Tok>, from: int, m: int, k: int)
    requires
        0 <= from < m <= k <= t.len(),
        is_expression(render_seq(t.subrange(from, m))),
        forall|j: int| m < j <= k ==> !is_expression(#[trigger] render_seq(t.subrange(from, j))),
    ensures
        longest_expr(t, from, k) == m,
    decreases k - m,
{
    if k > m {
        lemma_longest_expr_at(t, from, m, k - 1);
    }
}

/// `message = L, status_code = E` reads both parameters: the status
/// expression read second keeps the message read first.
pub proof fn law_message_then_status_expression(t: Seq<Tok>, e: Seq<Tok>, attr: usize)
    requires
        t.len() <= usize::MAX,
        t.len() == e.len() + 6,
        is_ident(t[0], "message"@),
        is_punct(t[1], '='),
        is_string_lit(t[2]),
        is_punct(t[3], ','),
        is_ident(t[4], "status_code"@),
        is_punct(t[5], '='),
        t.subrange(6, t.len() as int) == e,
        status_expression(e),
    ensures
        partial_attr_spec(t, attr) == Ok::<PartialVariantAttr, crate::attr::AttrError>(
            PartialVariantAttr {
                attr,
                kind: VariantAttrKind::Custom(
                    CustomAttrFields {
                        message: Some(MessageValue::Literal(MessageLit { attr, token: 2 })),
                        status_code: Some(
                            StatusValue::Expr { attr, start: 6, end: t.len() as usize },
                        ),
                    },
                ),
            },
        ),
{
    lemma_keywords_differ();
    assert(t[6] == e[0]);
    assert(t.len() > 7 ==> t[7] == e[1]);
    lemma_longest_expr_at(t, 6, t.len() as int, t.len() as int);
    let acc1 = FieldScan {
        fields: CustomAttrFields {
            message: Some(MessageValue::Literal(MessageLit { attr, token: 2 })),
            status_code: None,
        },
        stray: false,
    };
    let acc2 = FieldScan {
        fields: CustomAttrFields {
            message: Some(MessageValue::Literal(MessageLit { attr, token: 2 })),
            status_code: Some(StatusValue::Expr { attr, start: 6, end: t.len() as usize }),
        },
        stray: false,
    };
    assert(after_value(t, t.len() as int, attr, acc2) == Ok::<FieldScan, crate::attr::AttrError>(acc2));
    assert(fields_from(t, 4, attr, acc1) == after_value(t, t.len() as int, attr, acc2));
    assert(after_value(t, 3, attr, acc1) == fields_from(t, 4, attr, acc1));
    assert(fields_from(t, 0, attr, empty_scan()) == after_value(t, 3, attr, acc1));
}

/// `status_code = E, message = L` reads both parameters too, and gives the
/// same message literal and status expression: the order of the parameters
/// within an attribute does not matter.
pub proof fn law_status_expression_then_message(t: Seq<Tok>, e: Seq<Tok>, attr: usize)
    requires
        t.len() <= usize::MAX,
        t.len() == e.len() + 6,
        is_ident(t[0], "status_code"@),
        is_punct(t[1], '='),
        t.subrange(2, e.len() as int + 2) == e,
        is_punct(t[e.len() as int + 2], ','),
        is_ident(t[e.len() as int + 3], "message"@),
        is_punct(t[e.len() as int + 4], '='),
        is_string_lit(t[e.len() as int + 5]),
        status_expression(e),
        forall|j: int|
            e.len() as int + 2 < j <= t.len() ==> !is_expression(#[trigger] render_seq(t.subrange(2, j))),
    ensures
        partial_attr_spec(t, attr) == Ok::<PartialVariantAttr, crate::attr::AttrError>(
            PartialVariantAttr {
                attr,
                kind: VariantAttrKind::Custom(
                    CustomAttrFields {
                        message: Some(
                            MessageValue::Literal(MessageLit { attr, token: (e.len() + 5) as usize }),
                        ),
                        status_code: Some(
                            StatusValue::Expr { attr, start: 2, end: (e.len() + 2) as usize },
                        ),
                    },
                ),
            },
        ),
{
    lemma_keywords_differ();
    assert(t[2] == e[0]);
    assert(e.len() > 1 ==> t[3] == e[1]);
    lemma_longest_expr_at(t, 2, e.len() as int + 2, t.len() as int);
    let n = e.len() as int;
    let acc1 = FieldScan {
        fields: CustomAttrFields {
            message: None,
            status_code: Some(StatusValue::Expr { attr, start: 2, end: (n + 2) as usize }),
        },
        stray: false,
    };
    let acc2 = FieldScan {
        fields: CustomAttrFields {
            message: Some(MessageValue::Literal(MessageLit { attr, token: (n + 5) as usize })),
            status_code: Some(StatusValue::Expr { attr, start: 2, end: (n + 2) as usize }),
        },
        stray: false,
    };
    assert(after_value(t, t.len() as int, attr, acc2) == Ok::<FieldScan, crate::attr::AttrError>(acc2));
    assert(fields_from(t, n + 3, attr, acc1) == after_value(t, t.len() as int, attr, acc2));
    assert(after_value(t, n + 2, attr, acc1) == fields_from(t, n + 3, attr, acc1));
    assert(fields_from(t, 0, attr, empty_scan()) == after_value(t, n + 2, attr, acc1));
}

/// From `k` to `j`, the attributes are not `#[api_error]` ones: reading
/// them changes nothing.
proof fn lemma_fold_skip(attrs: Seq<Attribute>, k: int, j: int, acc: Option<PartialVariantAttr>)
    requires
        0 <= k <= j <= attrs.len(),
        forall|l: int| k <= l < j ==> !is_api_error_attr(#[trigger] attrs[l]),
    ensures
        fold_attrs(attrs, k, acc) == fold_attrs(attrs, j, acc),
    decreases j - k,
{
    if k < j {
        lemma_fold_skip(attrs, k + 1, j, acc);
    }
}

proof fn lemma_fold_append(
    attrs: Seq<Attribute>,
    rest: Seq<Attribute>,
    k: int,
    acc: Option<PartialVariantAttr>,
)
    requires
        0 <= k <= attrs.len(),
        forall|l: int| 0 <= l < rest.len() ==> !is_api_error_attr(#[trigger] rest[l]),
    ensures
        fold_attrs(attrs + rest, k, acc) == fold_attrs(attrs, k, acc),
    decreases attrs.len() - k,
{
    let all = attrs + rest;
    if k < attrs.len() {
        assert(all[k] == attrs[k]);
        if !is_api_error_attr(attrs[k]) {
            lemma_fold_append(attrs, rest, k + 1, acc);
        } else {
            match partial_attr_spec(attrs[k].tokens@, k as usize) {
                Err(_) => {},
                Ok(p) => match acc {
                    None => lemma_fold_append(attrs, rest, k + 1, Some(p)),
                    Some(a) => match merge_spec(a, p) {
                        Err(_) => {},
                        Ok(m) => lemma_fold_append(attrs, rest, k + 1, Some(m)),
                    },
                },
            }
        }
    } else {
        assert forall|l: int| attrs.len() <= l < all.len() implies !is_api_error_attr(
            #[trigger] all[l],
        ) by {
            assert(all[l] == rest[l - attrs.len()]);
        }
        lemma_fold_skip(all, k, all.len() as int, acc);
    }
}

/// Attributes other than `#[api_error]` that follow the others change
/// nothing, whatever they are.
pub proof fn law_later_attributes_irrelevant(attrs: Seq<Attribute>, rest: Seq<Attribute>)
    requires
        forall|l: int| 0 <= l < rest.len() ==> !is_api_error_attr(#[trigger] rest[l]),
    ensures
        variant_attrs_spec(attrs + rest) == variant_attrs_spec(attrs),
{
    lemma_fold_append(attrs, rest, 0, None);
}

/// An item with one `#[api_error]` attribute, at any position among other
/// attributes, has what that attribute says; its error, at its position, if
/// it is refused.
pub proof fn law_single_api_error_attribute(attrs: Seq<Attribute>, k: int)
    requires
        0 <= k < attrs.len() <= usize::MAX,
        is_api_error_attr(attrs[k]),
        forall|l: int| 0 <= l < attrs.len() && l != k ==> !is_api_error_attr(#[trigger] attrs[l]),
    ensures
        variant_attrs_spec(attrs) == match partial_attr_spec(attrs[k].tokens@, k as usize) {
            Ok(p) => Ok::<VariantAttr, AttrErrorAt>(complete_spec(p)),
            Err(e) => Err(AttrErrorAt { attr: k as usize, error: e }),
        },
{
    lemma_fold_skip(attrs, 0, k, None);
    if let Ok(p) = partial_attr_spec(attrs[k].tokens@, k as usize) {
        lemma_fold_skip(attrs, k + 1, attrs.len() as int, Some(p));
    }
}

/// An item with two `#[api_error]` attributes, at any positions among other
/// attributes, has what the two say combined; the first refusal otherwise.
pub proof fn law_two_api_error_attributes(attrs: Seq<Attribute>, j: int, k: int)
    requires
        0 <= j < k < attrs.len() <= usize::MAX,
        is_api_error_attr(attrs[j]),
        is_api_error_attr(attrs[k]),
        forall|l: int|
            0 <= l < attrs.len() && l != j && l != k ==> !is_api_error_attr(#[trigger] attrs[l]),
    ensures
        variant_attrs_spec(attrs) == match partial_attr_spec(attrs[j].tokens@, j as usize) {
            Err(e) => Err(AttrErrorAt { attr: j as usize, error: e }),
            Ok(a) => match partial_attr_spec(attrs[k].tokens@, k as usize) {
                Err(e) => Err(AttrErrorAt { attr: k as usize, error: e }),
                Ok(b) => match merge_spec(a, b) {
                    Ok(m) => Ok::<VariantAttr, AttrErrorAt>(complete_spec(m)),
                    Err(e) => Err(e),
                },
            },
        },
{
    lemma_fold_skip(attrs, 0, j, None);
    if let Ok(a) = partial_attr_spec(attrs[j].tokens@, j as usize) {
        lemma_fold_skip(attrs, j + 1, k, Some(a));
        if let Ok(b) = partial_attr_spec(attrs[k].tokens@, k as usize) {
            if let Ok(m) = merge_spec(a, b) {
                lemma_fold_skip(attrs, k + 1, attrs.len() as int, Some(m));
            }
        }
    }
}

/// `status_code = N` alone, with `N` an integer literal, gives that status
/// code and no message.
pub proof fn law_status_literal_alone(t: Seq<Tok>, attr: usize)
    requires
        t.len() == 3,
        is_ident(t[0], "status_code"@),
        is_punct(t[1], '='),
        is_int_lit(t[2]),
    ensures
        partial_attr_spec(t, attr) == Ok::<PartialVariantAttr, crate::attr::AttrError>(
            PartialVariantAttr {
                attr,
                kind: VariantAttrKind::Custom(
                    CustomAttrFields {
                        message: None,
                        status_code: Some(StatusValue::IntLiteral { attr, start: 2, end: 3 }),
                    },
                ),
            },
        ),
{
    lemma_keywords_differ();
    let acc = FieldScan {
        fields: CustomAttrFields {
            message: None,
            status_code: Some(StatusValue::IntLiteral { attr, start: 2, end: 3 }),
        },
        stray: false,
    };
    assert(fields_from(t, 0, attr, empty_scan()) == after_value(t, 3, attr, acc));
}

/// `message(inherit), status_code = E` reads both parameters: the status
/// expression keeps the inherited message.
pub proof fn law_inherit_then_status_expression(t: Seq<Tok>, e: Seq<Tok>, attr: usize)
    requires
        t.len() <= usize::MAX,
        t.len() == e.len() + 5,
        is_ident(t[0], "message"@),
        paren_inner(t[1]) matches Some(inner) && inner.len() == 1 && is_ident(inner[0], "inherit"@),
        is_punct(t[2], ','),
        is_ident(t[3], "status_code"@),
        is_punct(t[4], '='),
        t.subrange(5, t.len() as int) == e,
        status_expression(e),
    ensures
        partial_attr_spec(t, attr) == Ok::<PartialVariantAttr, crate::attr::AttrError>(
            PartialVariantAttr {
                attr,
                kind: VariantAttrKind::Custom(
                    CustomAttrFields {
                        message: Some(MessageValue::Inherit),
                        status_code: Some(
                            StatusValue::Expr { attr, start: 5, end: t.len() as usize },
                        ),
                    },
                ),
            },
        ),
{
    lemma_keywords_differ();
    assert(t[5] == e[0]);
    assert(t.len() > 6 ==> t[6] == e[1]);
    assert(!is_punct(t[1], '='));
    lemma_longest_expr_at(t, 5, t.len() as int, t.len() as int);
    let acc1 = FieldScan {
        fields: CustomAttrFields { message: Some(MessageValue::Inherit), status_code: None },
        stray: false,
    };
    let acc2 = FieldScan {
        fields: CustomAttrFields {
            message: Some(MessageValue::Inherit),
            status_code: Some(StatusValue::Expr { attr, start: 5, end: t.len() as usize }),
        },
        stray: false,
    };
    assert(after_value(t, t.len() as int, attr, acc2) == Ok::<FieldScan, crate::attr::AttrError>(acc2));
    assert(fields_from(t, 3, attr, acc1) == after_value(t, t.len() as int, attr, acc2));
    assert(after_value(t, 2, attr, acc1) == fields_from(t, 3, attr, acc1));
    assert(fields_from(t, 0, attr, empty_scan()) == after_value(t, 2, attr, acc1));
}

/// An item whose one `#[api_error]` attribute, among any others, is
/// `message = L, status_code = E` has both the message `L` and the status
/// expression `E`.
pub proof fn law_item_message_and_status(attrs: Seq<Attribute>, k: int, e: Seq<Tok>)
    requires
        0 <= k < attrs.len() <= usize::MAX,
        is_api_error_attr(attrs[k]),
        forall|l: int| 0 <= l < attrs.len() && l != k ==> !is_api_error_attr(#[trigger] attrs[l]),
        ({
            let t = attrs[k].tokens@;
            &&& t.len() <= usize::MAX
            &&& t.len() == e.len() + 6
            &&& is_ident(t[0], "message"@)
            &&& is_punct(t[1], '=')
            &&& is_string_lit(t[2])
            &&& is_punct(t[3], ',')
            &&& is_ident(t[4], "status_code"@)
            &&& is_punct(t[5], '=')
            &&& t.subrange(6, t.len() as int) == e
        }),
        status_expression(e),
    ensures
        variant_attrs_spec(attrs) == Ok::<VariantAttr, AttrErrorAt>(
            VariantAttr::Custom {
                msg: Some(MessageLit { attr: k as usize, token: 2 }),
                status_code: Some(
                    StatusValue::Expr {
                        attr: k as usize,
                        start: 6,
                        end: attrs[k].tokens@.len() as usize,
                    },
                ),
            },
        ),
{
    law_single_api_error_attribute(attrs, k);
    law_message_then_status_expression(attrs[k].tokens@, e, k as usize);
}

/// An item whose one `#[api_error]` attribute, among any others, is
/// `status_code = N` has that status code and no message of its own.
pub proof fn law_item_status_literal(attrs: Seq<Attribute>, k: int)
    requires
        0 <= k < attrs.len() <= usize::MAX,
        is_api_error_attr(attrs[k]),
        forall|l: int| 0 <= l < attrs.len() && l != k ==> !is_api_error_attr(#[trigger] attrs[l]),
        attrs[k].tokens@.len() == 3,
        is_ident(attrs[k].tokens@[0], "status_code"@),
        is_punct(attrs[k].tokens@[1], '='),
        is_int_lit(attrs[k].tokens@[2]),
    ensures
        variant_attrs_spec(attrs) == Ok::<VariantAttr, AttrErrorAt>(
            VariantAttr::Custom {
                msg: None,
                status_code: Some(StatusValue::IntLiteral { attr: k as usize, start: 2, end: 3 }),
            },
        ),
{
    law_single_api_error_attribute(attrs, k);
    law_status_literal_alone(attrs[k].tokens@, k as usize);
}

/// An item whose one `#[api_error]` attribute, among any others, is
/// `message(inherit), status_code = E` inherits its message and has the
/// status expression `E`.
pub proof fn law_item_inherit_and_status(attrs: Seq<Attribute>, k: int, e: Seq<Tok>)
    requires
        0 <= k < attrs.len() <= usize::MAX,
        is_api_error_attr(attrs[k]),
        forall|l: int| 0 <= l < attrs.len() && l != k ==> !is_api_error_attr(#[trigger] attrs[l]),
        ({
            let t = attrs[k].tokens@;
            &&& t.len() <= usize::MAX
            &&& t.len() == e.len() + 5
            &&& is_ident(t[0], "message"@)
            &&& paren_inner(t[1]) matches Some(inner) && inner.len() == 1 && is_ident(
                inner[0],
                "inherit"@,
            )
            &&& is_punct(t[2], ',')
            &&& is_ident(t[3], "status_code"@)
            &&& is_punct(t[4], '=')
            &&& t.subrange(5, t.len() as int) == e
        }),
        status_expression(e),
    ensures
        variant_attrs_spec(attrs) == Ok::<VariantAttr, AttrErrorAt>(
            VariantAttr::InheritMsg {
                status_code: Some(
                    StatusValue::Expr {
                        attr: k as usize,
                        start: 5,
                        end: attrs[k].tokens@.len() as usize,
                    },
                ),
            },
        ),
{
    law_single_api_error_attribute(attrs, k);
    law_inherit_then_status_expression(attrs[k].tokens@, e, k as usize);
}

/// Two attributes that combine keep every parameter that either gives: the
/// message of whichever gives one, the status code of whichever gives one,
/// at the position of the first.
pub proof fn law_merge_keeps_parameters(a: PartialVariantAttr, b: PartialVariantAttr)
    ensures
        ({
            let x = a.kind->Custom_0;
            let y = b.kind->Custom_0;
            (a.kind is Custom && b.kind is Custom && !(x.message is Some && y.message is Some)
                && !(x.status_code is Some && y.status_code is Some)) ==> merge_spec(a, b)
                == Ok::<PartialVariantAttr, AttrErrorAt>(
                PartialVariantAttr {
                    attr: a.attr,
                    kind: VariantAttrKind::Custom(
                        CustomAttrFields {
                            message: if x.message is Some {
                                x.message
                            } else {
                                y.message
                            },
                            status_code: if x.status_code is Some {
                                x.status_code
                            } else {
                                y.status_code
                            },
                        },
                    ),
                },
            )
        }),
{
}

/// `message = L, status_code = N` reads both parameters, `N` an integer
/// literal; so does `status_code = N, message = L`.
pub proof fn law_message_and_status_literal_any_order(t: Seq<Tok>, u: Seq<Tok>, attr: usize)
    requires
        t.len() == 7,
        is_ident(t[0], "message"@),
        is_punct(t[1], '='),
        is_string_lit(t[2]),
        is_punct(t[3], ','),
        is_ident(t[4], "status_code"@),
        is_punct(t[5], '='),
        is_int_lit(t[6]),
        u.len() == 7,
        is_ident(u[0], "status_code"@),
        is_punct(u[1], '='),
        is_int_lit(u[2]),
        is_punct(u[3], ','),
        is_ident(u[4], "message"@),
        is_punct(u[5], '='),
        is_string_lit(u[6]),
    ensures
        partial_attr_spec(t, attr) == Ok::<PartialVariantAttr, crate::attr::AttrError>(
            PartialVariantAttr {
                attr,
                kind: VariantAttrKind::Custom(
                    CustomAttrFields {
                        message: Some(MessageValue::Literal(MessageLit { attr, token: 2 })),
                        status_code: Some(StatusValue::IntLiteral { attr, start: 6, end: 7 }),
                    },
                ),
            },
        ),
        partial_attr_spec(u, attr) == Ok::<PartialVariantAttr, crate::attr::AttrError>(
            PartialVariantAttr {
                attr,
                kind: VariantAttrKind::Custom(
                    CustomAttrFields {
                        message: Some(MessageValue::Literal(MessageLit { attr, token: 6 })),
                        status_code: Some(StatusValue::IntLiteral { attr, start: 2, end: 3 }),
                    },
                ),
            },
        ),
{
    lemma_keywords_differ();
    let lit = Some(MessageValue::Literal(MessageLit { attr, token: 2 }));
    let t1 = FieldScan { fields: CustomAttrFields { message: lit, status_code: None }, stray: false };
    let t2 = FieldScan {
        fields: CustomAttrFields {
            message: lit,
            status_code: Some(StatusValue::IntLiteral { attr, start: 6, end: 7 }),
        },
        stray: false,
    };
    assert(fields_from(t, 4, attr, t1) == after_value(t, 7, attr, t2));
    assert(after_value(t, 3, attr, t1) == fields_from(t, 4, attr, t1));
    assert(fields_from(t, 0, attr, empty_scan()) == after_value(t, 3, attr, t1));
    let st = Some(StatusValue::IntLiteral { attr, start: 2, end: 3 });
    let u1 = FieldScan { fields: CustomAttrFields { message: None, status_code: st }, stray: false };
    let u2 = FieldScan {
        fields: CustomAttrFields {
            message: Some(MessageValue::Literal(MessageLit { attr, token: 6 })),
            status_code: st,
        },
        stray: false,
    };
    assert(fields_from(u, 4, attr, u1) == after_value(u, 7, attr, u2));
    assert(after_value(u, 3, attr, u1) == fields_from(u, 4, attr, u1));
    assert(fields_from(u, 0, attr, empty_scan()) == after_value(u, 3, attr, u1));
}

} // verus!
