//! Properties of the library as a whole, stated over the specifications that
//! the functions' contracts use.

use vstd::prelude::*;
use crate::api::{canonical_reason_of, default_message_spec};
use crate::attr::{
    Attribute, AttrErrorAt, PartialVariantAttr, StatusValue, VariantAttr, fold_attrs, is_api_error_attr,
    is_ident, merge_spec, partial_attr_spec, variant_attrs_spec,
};
use crate::expand::{
    ArmPlanView, ExpandErrorView, Fields, MessagePlanView, StatusPlan, Variant, field_count,
    lit_value, struct_spec, variant_spec, variants_from,
};
use crate::format::{
    FormatErrorView, field_texts, find_close, format_anon, format_positional, lemma_find_close,
    parse_index_spec, rewrite_from, unamed_format_spec,
};
use crate::response::{after_set, answering_responder, error_body_spec, json_escape, json_escape_byte};

verus! {

proof fn lemma_rewrite_indices(b: Seq<char>, i: int, n: nat)
    requires
        0 <= i,
    ensures
        rewrite_from(b, i, n) matches Ok((_, ix)) ==> forall|k: int| 0 <= k < ix.len() ==> ix[k] < n,
    decreases b.len() - i,
{
    if i < b.len() {
        if b[i] == '{' && i + 1 < b.len() && b[i + 1] == '{' {
            lemma_rewrite_indices(b, i + 2, n);
            if let Ok((s, ix)) = rewrite_from(b, i + 2, n) {
                assert(Seq::<usize>::empty() + ix =~= ix);
            }
        } else if b[i] == '{' {
            lemma_find_close(b, i + 1);
            if let Some(j) = find_close(b, i + 1) {
                lemma_rewrite_indices(b, j + 1, n);
            }
        } else {
            lemma_rewrite_indices(b, i + 1, n);
            if let Ok((s, ix)) = rewrite_from(b, i + 1, n) {
                assert(Seq::<usize>::empty() + ix =~= ix);
            }
        }
    }
}

/// Every index that a rewritten message refers to names an existing field.
pub proof fn law_format_indices_in_bounds(msg: Seq<char>, n: nat)
    ensures
        unamed_format_spec(msg, n) matches Ok((_, ix)) ==> forall|k: int|
            0 <= k < ix.len() ==> ix[k] < n,
{
    lemma_rewrite_indices(msg, 0, n);
}

proof fn lemma_rewrite_plain(m: Seq<char>, i: int, n: nat)
    requires
        0 <= i <= m.len(),
        !m.contains('{'),
    ensures
        rewrite_from(m, i, n) == Ok::<(Seq<char>, Seq<usize>), FormatErrorView>(
            (m.subrange(i, m.len() as int), seq![]),
        ),
    decreases m.len() - i,
{
    if i < m.len() {
        assert(m[i] != '{');
        lemma_rewrite_plain(m, i + 1, n);
        assert(seq![m[i]] + m.subrange(i + 1, m.len() as int) =~= m.subrange(i, m.len() as int));
        assert(Seq::<usize>::empty() + Seq::<usize>::empty() =~= Seq::<usize>::empty());
    } else {
        assert(m.subrange(i, m.len() as int) =~= Seq::<char>::empty());
    }
}

/// A message without `{` is kept as it is, whatever its characters, and
/// refers to no field.
pub proof fn law_format_without_braces_unchanged(msg: Seq<char>, n: nat)
    requires
        !msg.contains('{'),
    ensures
        unamed_format_spec(msg, n) == Ok::<(Seq<char>, Seq<usize>), FormatErrorView>(
            (msg, seq![]),
        ),
{
    lemma_rewrite_plain(msg, 0, n);
    assert(msg.subrange(0, msg.len() as int) =~= msg);
}

proof fn lemma_rewrite_prefix(m: Seq<char>, i: int, j: int, n: nat)
    requires
        0 <= i <= j <= m.len(),
        forall|k: int| i <= k < j ==> m[k] != '{',
    ensures
        rewrite_from(m, i, n) == crate::format::prepend(m.subrange(i, j), seq![], rewrite_from(m, j, n)),
    decreases j - i,
{
    if i < j {
        lemma_rewrite_prefix(m, i + 1, j, n);
        match rewrite_from(m, j, n) {
            Ok((s, ix)) => {
                assert(seq![m[i]] + (m.subrange(i + 1, j) + s) =~= m.subrange(i, j) + s);
                assert(Seq::<usize>::empty() + (Seq::<usize>::empty() + ix) =~= Seq::<usize>::empty() + ix);
            },
            Err(_) => {},
        }
    } else {
        match rewrite_from(m, j, n) {
            Ok((s, ix)) => {
                assert(m.subrange(i, j) + s =~= s);
                assert(Seq::<usize>::empty() + ix =~= ix);
            },
            Err(_) => {},
        }
    }
}

/// The text around an argument is kept as written: a text without `{`, an
/// argument `{d}` whose digits `d` name a field, and another text without
/// `{`, are rewritten to the two texts around `{}`, referring to that field.
pub proof fn law_format_keeps_text(before: Seq<char>, d: Seq<char>, after: Seq<char>, n: nat)
    requires
        !before.contains('{'),
        !after.contains('{'),
        crate::format::parse_index_spec(d) matches Some(k) && k < n,
    ensures
        unamed_format_spec(before + seq!['{'] + d + seq!['}'] + after, n) == Ok::<
            (Seq<char>, Seq<usize>),
            FormatErrorView,
        >((before + seq!['{', '}'] + after, seq![crate::format::parse_index_spec(d)->Some_0])),
{
    let m = before + seq!['{'] + d + seq!['}'] + after;
    let b = before.len() as int;
    let c = b + 1 + d.len();
    let k = crate::format::parse_index_spec(d)->Some_0;
    assert forall|x: int| 0 <= x < d.len() implies d[x] != '}' && d[x] != '{' by {
        if !(d.len() > 0 && d[0] == '+') {
            assert(crate::format::is_digit(d[x]));
        } else if x > 0 {
            assert(crate::format::is_digit(d.drop_first()[x - 1]));
        }
    }
    assert forall|x: int| 0 <= x < b implies m[x] != '{' by {
        assert(m[x] == before[x]);
        if before[x] == '{' {
            assert(before.contains('{'));
        }
    }
    lemma_rewrite_prefix(m, 0, b, n);
    assert(m[b] == '{');
    assert(d.len() > 0);
    assert(m[b + 1] == d[0]);
    lemma_find_close(m, b + 1);
    assert forall|x: int| b + 1 <= x < c implies m[x] != '}' by {
        assert(m[x] == d[x - b - 1]);
    }
    assert(m[c] == '}');
    assert(find_close(m, b + 1) == Some(c));
    assert(m.subrange(b + 1, c) =~= d);
    assert forall|x: int| c + 1 <= x < m.len() implies m[x] != '{' by {
        assert(m[x] == after[x - c - 1]);
        if after[x - c - 1] == '{' {
            assert(after.contains('{'));
        }
    }
    lemma_rewrite_prefix(m, c + 1, m.len() as int, n);
    assert(rewrite_from(m, m.len() as int, n) == Ok::<(Seq<char>, Seq<usize>), FormatErrorView>((seq![], seq![])));
    assert(m.subrange(c + 1, m.len() as int) =~= after);
    assert(m.subrange(0, b) =~= before);
    assert(after + Seq::<char>::empty() =~= after);
    assert(Seq::<usize>::empty() + Seq::<usize>::empty() =~= Seq::<usize>::empty());
    assert(seq!['{', '}'] + after =~= seq!['{', '}'] + after);
    assert(before + (seq!['{', '}'] + after) =~= before + seq!['{', '}'] + after);
    assert(Seq::<usize>::empty() + (seq![k] + Seq::<usize>::empty()) =~= seq![k]);
}

/// An item without `#[api_error]` attribute has neither message nor status
/// code of its own (so, by `law_variant_defaults`, it answers with 500 and
/// the reason phrase).
pub proof fn law_no_attribute_defaults(attrs: Seq<Attribute>)
    requires
        forall|k: int| 0 <= k < attrs.len() ==> !is_api_error_attr(#[trigger] attrs[k]),
    ensures
        variant_attrs_spec(attrs) == Ok::<VariantAttr, AttrErrorAt>(
            VariantAttr::Custom { msg: None, status_code: None },
        ),
{
    lemma_fold_skips(attrs, 0);
}

proof fn lemma_fold_skips(attrs: Seq<Attribute>, k: int)
    requires
        0 <= k,
        forall|j: int| 0 <= j < attrs.len() ==> !is_api_error_attr(#[trigger] attrs[j]),
    ensures
        fold_attrs(attrs, k, None) == Ok::<Option<PartialVariantAttr>, AttrErrorAt>(None),
    decreases attrs.len() - k,
{
    if k < attrs.len() {
        lemma_fold_skips(attrs, k + 1);
    }
}

/// Combining two attributes fails exactly when one is `transparent`, or both
/// give a message, or both give a status code.
pub proof fn law_merge_conflicts(a: PartialVariantAttr, b: PartialVariantAttr)
    ensures
        merge_spec(a, b) is Err <==> (a.kind is Transparent || b.kind is Transparent || (
        a.kind->Custom_0.message is Some && b.kind->Custom_0.message is Some) || (
        a.kind->Custom_0.status_code is Some && b.kind->Custom_0.status_code is Some)),
{
}

/// The order in which two attributes are given does not change what they
/// combine to, nor whether they conflict.
pub proof fn law_merge_order_irrelevant(a: PartialVariantAttr, b: PartialVariantAttr)
    ensures
        merge_spec(a, b) is Ok <==> merge_spec(b, a) is Ok,
        merge_spec(a, b) is Ok ==> merge_spec(a, b)->Ok_0.kind == merge_spec(b, a)->Ok_0.kind,
        merge_spec(a, b) is Err ==> merge_spec(a, b)->Err_0.error == merge_spec(b, a)->Err_0.error,
{
}

proof fn lemma_fold_transparent(attrs: Seq<Attribute>, k: int, acc: Option<PartialVariantAttr>)
    requires
        0 <= k <= attrs.len(),
        acc matches Some(a) && a.kind is Transparent,
    ensures
        fold_attrs(attrs, k, acc) matches Ok(Some(p)) && p.kind is Transparent ==> forall|j: int|
            k <= j < attrs.len() ==> !is_api_error_attr(#[trigger] attrs[j]),
    decreases attrs.len() - k,
{
    if k < attrs.len() {
        if !is_api_error_attr(attrs[k]) {
            lemma_fold_transparent(attrs, k + 1, acc);
        }
    }
}

proof fn lemma_fold_no_transparent(attrs: Seq<Attribute>, k: int, acc: Option<PartialVariantAttr>)
    requires
        0 <= k <= attrs.len(),
        acc matches Some(a) && a.kind is Custom,
    ensures
        fold_attrs(attrs, k, acc) matches Ok(Some(p)) ==> p.kind is Custom,
    decreases attrs.len() - k,
{
    if k < attrs.len() {
        if !is_api_error_attr(attrs[k]) {
            lemma_fold_no_transparent(attrs, k + 1, acc);
        } else {
            match partial_attr_spec(attrs[k].tokens@, k as usize) {
                Err(_) => {},
                Ok(p) => match merge_spec(acc.unwrap(), p) {
                    Err(_) => {},
                    Ok(m) => lemma_fold_no_transparent(attrs, k + 1, Some(m)),
                },
            }
        }
    }
}

proof fn lemma_fold_from_none_transparent(attrs: Seq<Attribute>, k: int)
    requires
        0 <= k <= attrs.len(),
    ensures
        fold_attrs(attrs, k, None) matches Ok(Some(p)) && p.kind is Transparent ==> exists|j: int|
            k <= j < attrs.len() && is_api_error_attr(#[trigger] attrs[j]) && attrs[j].tokens@.len()
                == 1 && is_ident(attrs[j].tokens@[0], "transparent"@) && forall|l: int|
                k <= l < attrs.len() && l != j ==> !is_api_error_attr(#[trigger] attrs[l]),
    decreases attrs.len() - k,
{
    if k < attrs.len() {
        if !is_api_error_attr(attrs[k]) {
            lemma_fold_from_none_transparent(attrs, k + 1);
        } else {
            match partial_attr_spec(attrs[k].tokens@, k as usize) {
                Err(_) => {},
                Ok(p) => {
                    if p.kind is Transparent {
                        lemma_fold_transparent(attrs, k + 1, Some(p));
                        if fold_attrs(attrs, k + 1, Some(p)) matches Ok(Some(q)) && q.kind is Transparent {
                            assert(is_api_error_attr(attrs[k]));
                        }
                    } else {
                        lemma_fold_no_transparent(attrs, k + 1, Some(p));
                    }
                },
            }
        }
    }
}

/// `transparent` stands alone: an item whose attributes combine to
/// `transparent` has exactly one `#[api_error]` attribute, `transparent`.
pub proof fn law_transparent_alone(attrs: Seq<Attribute>)
    ensures
        variant_attrs_spec(attrs) == Ok::<VariantAttr, AttrErrorAt>(VariantAttr::Transparent)
            ==> exists|j: int|
            0 <= j < attrs.len() && is_api_error_attr(#[trigger] attrs[j]) && attrs[j].tokens@.len()
                == 1 && is_ident(attrs[j].tokens@[0], "transparent"@) && forall|l: int|
                0 <= l < attrs.len() && l != j ==> !is_api_error_attr(#[trigger] attrs[l]),
{
    lemma_fold_from_none_transparent(attrs, 0);
}

/// A transparent variant with one unnamed field forwards both its status code
/// and its message to that field.
pub proof fn law_transparent_variant_forwards(v: Variant)
    requires
        variant_attrs_spec(v.attrs@) == Ok::<VariantAttr, AttrErrorAt>(VariantAttr::Transparent),
        v.fields matches Fields::Unnamed(n) && n == 1,
    ensures
        variant_spec(v) == Ok::<ArmPlanView, ExpandErrorView>(
            ArmPlanView { status: StatusPlan::Forward, message: MessagePlanView::Forward },
        ),
{
}

/// A variant that gives no status code answers with 500, and one that gives
/// no message answers with the reason phrase of its status code.
pub proof fn law_variant_defaults(v: Variant)
    ensures
        variant_attrs_spec(v.attrs@) matches Ok(VariantAttr::Custom { msg: None, status_code: None })
            ==> variant_spec(v) == Ok::<ArmPlanView, ExpandErrorView>(
            ArmPlanView { status: StatusPlan::InternalServerError, message: MessagePlanView::Reason },
        ),
{
}

/// `message(inherit)` answers with the `Display` text, for a struct and for an
/// enum variant alike, whatever their fields.
pub proof fn law_inherit_uses_display(attrs: Seq<Attribute>, f: Fields, v: Variant)
    ensures
        variant_attrs_spec(attrs) matches Ok(VariantAttr::InheritMsg { .. }) ==> struct_spec(
            attrs,
            f,
        ) matches Ok(a) && a.message == MessagePlanView::Display,
        variant_attrs_spec(v.attrs@) matches Ok(VariantAttr::InheritMsg { .. }) ==> variant_spec(
            v,
        ) matches Ok(a) && a.message == MessagePlanView::Display,
{
}

/// A struct that gives no status code answers with 500, one that gives no
/// message with the reason phrase; a transparent struct with one field
/// forwards both to it.
pub proof fn law_struct_defaults_and_forwarding(attrs: Seq<Attribute>, f: Fields)
    ensures
        variant_attrs_spec(attrs) matches Ok(VariantAttr::Custom { msg: None, status_code: None })
            ==> struct_spec(attrs, f) == Ok::<ArmPlanView, ExpandErrorView>(
            ArmPlanView { status: StatusPlan::InternalServerError, message: MessagePlanView::Reason },
        ),
        variant_attrs_spec(attrs) == Ok::<VariantAttr, AttrErrorAt>(VariantAttr::Transparent)
            ==> (struct_spec(attrs, f) == Ok::<ArmPlanView, ExpandErrorView>(
            ArmPlanView { status: StatusPlan::Forward, message: MessagePlanView::Forward },
        ) <==> field_count(f) == 1),
{
}

/// The generated message refers only to fields that exist: every index of a
/// rewritten format is below the number of unnamed fields, for a struct and
/// for an enum variant.
pub proof fn law_positional_args_exist(attrs: Seq<Attribute>, f: Fields, v: Variant)
    ensures
        f matches Fields::Unnamed(n) ==> (struct_spec(attrs, f) matches Ok(a) ==> (
        a.message matches MessagePlanView::Positional { args, .. } ==> (forall|k: int|
            0 <= k < args.len() ==> args[k] < n))),
        v.fields matches Fields::Unnamed(n) ==> (variant_spec(v) matches Ok(a) ==> (
        a.message matches MessagePlanView::Positional { args, .. } ==> (forall|k: int|
            0 <= k < args.len() ==> args[k] < n))),
{
    if let Ok(VariantAttr::Custom { msg: Some(m), .. }) = variant_attrs_spec(attrs) {
        if let Fields::Unnamed(n) = f {
            let val = lit_value(attrs, m);
            law_format_indices_in_bounds(val, n as nat);
        }
    }
    if let Ok(VariantAttr::Custom { msg: Some(m), .. }) = variant_attrs_spec(v.attrs@) {
        if let Fields::Unnamed(n) = v.fields {
            let val = lit_value(v.attrs@, m);
            law_format_indices_in_bounds(val, n as nat);
        }
    }
}

proof fn lemma_variants_from(vs: Seq<Variant>, k: int, acc: Seq<ArmPlanView>)
    requires
        0 <= k <= vs.len(),
        vs.len() <= usize::MAX,
    ensures
        variants_from(vs, k, acc) matches Ok(arms) ==> arms.len() == acc.len() + vs.len() - k
            && arms.subrange(0, acc.len() as int) == acc && forall|j: int|
            k <= j < vs.len() ==> variant_spec(#[trigger] vs[j]) == Ok::<
                ArmPlanView,
                ExpandErrorView,
            >(arms[acc.len() + j - k]),
        variants_from(vs, k, acc) matches Err(e) ==> e.variant matches Some(i) && k <= i < vs.len()
            && variant_spec(vs[i as int]) is Err && forall|j: int|
            k <= j < i ==> variant_spec(#[trigger] vs[j]) is Ok,
    decreases vs.len() - k,
{
    if k < vs.len() {
        match variant_spec(vs[k]) {
            Err(e) => {},
            Ok(a) => {
                lemma_variants_from(vs, k + 1, acc.push(a));
                if let Ok(arms) = variants_from(vs, k + 1, acc.push(a)) {
                    assert(arms.subrange(0, acc.len() as int) =~= arms.subrange(
                        0,
                        acc.len() + 1int,
                    ).subrange(0, acc.len() as int));
                    assert(arms[acc.len() as int] == acc.push(a)[acc.len() as int]);
                }
            },
        }
    } else {
        if let Ok(arms) = variants_from(vs, k, acc) {
            assert(arms.subrange(0, acc.len() as int) =~= acc);
        }
    }
}

/// An enum gets one arm per variant, in order, each the variant's own; and
/// when it is refused, the refusal is that of its first refused variant.
pub proof fn law_enum_arms(vs: Seq<Variant>)
    requires
        vs.len() <= usize::MAX,
    ensures
        variants_from(vs, 0, seq![]) matches Ok(arms) ==> arms.len() == vs.len() && forall|j: int|
            0 <= j < vs.len() ==> variant_spec(#[trigger] vs[j]) == Ok::<
                ArmPlanView,
                ExpandErrorView,
            >(arms[j]),
        variants_from(vs, 0, seq![]) matches Err(e) ==> e.variant matches Some(i) && i < vs.len()
            && variant_spec(vs[i as int]) is Err && forall|j: int|
            0 <= j < i ==> variant_spec(#[trigger] vs[j]) is Ok,
{
    lemma_variants_from(vs, 0, seq![]);
}

/// Details are added to the body of an error response as an `"extended"`
/// member after the message, and change nothing else.
pub proof fn law_body_extended(message: Seq<char>, x: Seq<u8>)
    ensures
        error_body_spec(message, Some(x)) == error_body_spec(message, None).drop_last()
            + vstd::utf8::encode_utf8(",\"extended\":"@) + x + vstd::utf8::encode_utf8("}"@),
{
    reveal_strlit("}");
    let close = vstd::utf8::encode_utf8("}"@);
    assert(close.len() == 1) by {
        reveal_with_fuel(vstd::utf8::encode_utf8, 2);
    }
    let pre = vstd::utf8::encode_utf8("{\"message\":"@) + crate::response::json_string_bytes(message);
    assert(error_body_spec(message, None) =~= pre + close);
    assert((pre + close).drop_last() =~= pre);
    assert(error_body_spec(message, Some(x)) =~= pre + vstd::utf8::encode_utf8(",\"extended\":"@)
        + x + close);
}

/// Bytes that a JSON string writes as they are: no control character, no
/// double quote, no backslash.
pub open spec fn json_plain(bytes: Seq<u8>) -> bool {
    forall|i: int|
        0 <= i < bytes.len() ==> #[trigger] bytes[i] >= 0x20 && bytes[i] != 0x22 && bytes[i] != 0x5c
}

proof fn lemma_json_escape_plain(bytes: Seq<u8>)
    requires
        json_plain(bytes),
    ensures
        json_escape(bytes) == bytes,
    decreases bytes.len(),
{
    if bytes.len() > 0 {
        let init = bytes.drop_last();
        assert forall|i: int| 0 <= i < init.len() implies #[trigger] init[i] >= 0x20 && init[i] != 0x22
            && init[i] != 0x5c by {
            assert(init[i] == bytes[i]);
        }
        lemma_json_escape_plain(init);
        let last = bytes.last();
        assert(bytes[bytes.len() - 1] == last);
        assert(json_escape_byte(last) =~= seq![last]);
        assert(init + seq![last] =~= bytes);
    }
}

/// A message that needs no escaping is written into the body as it is,
/// between double quotes (`0x22`).
pub proof fn law_plain_message_body(message: Seq<char>)
    requires
        json_plain(vstd::utf8::encode_utf8(message)),
    ensures
        error_body_spec(message, None) == vstd::utf8::encode_utf8("{\"message\":"@) + seq![0x22u8]
            + vstd::utf8::encode_utf8(message) + seq![0x22u8] + vstd::utf8::encode_utf8("}"@),
{
    lemma_json_escape_plain(vstd::utf8::encode_utf8(message));
    assert(error_body_spec(message, None) =~= vstd::utf8::encode_utf8("{\"message\":"@)
        + seq![0x22u8] + vstd::utf8::encode_utf8(message) + seq![0x22u8]
        + vstd::utf8::encode_utf8("}"@));
}

/// A responder can be set once: once `f` is set in an empty slot, errors are
/// answered with `f` whatever the default, and a later attempt to set `g`
/// changes nothing.
pub proof fn law_first_responder_answers<F>(s: Option<F>, f: F, g: F, default: F)
    requires
        s is None,
    ensures
        answering_responder(after_set(s, f), default) == f,
        after_set(after_set(s, f), g) == after_set(s, f),
        answering_responder(s, default) == default,
{
}

proof fn lemma_positional_render(m: Seq<char>, i: int, fields: Seq<Seq<char>>)
    requires
        0 <= i,
        rewrite_from(m, i, fields.len()) is Ok,
    ensures
        ({
            let (out, ix) = rewrite_from(m, i, fields.len())->Ok_0;
            &&& format_anon(out, field_texts(ix, fields)) == format_positional(m, i, fields)
            &&& out.len() > 0 && out[0] == '}' ==> i < m.len() && m[i] == '}'
        }),
    decreases m.len() - i,
{
    let n = fields.len();
    if i < m.len() {
        let (out, ix) = rewrite_from(m, i, n)->Ok_0;
        if m[i] == '{' && i + 1 < m.len() && m[i + 1] == '{' {
            lemma_positional_render(m, i + 2, fields);
            let (o2, ix2) = rewrite_from(m, i + 2, n)->Ok_0;
            assert(out =~= seq!['{', '{'] + o2);
            assert(ix =~= ix2);
            assert(out.subrange(2, out.len() as int) =~= o2);
        } else if m[i] == '{' {
            lemma_find_close(m, i + 1);
            let j = find_close(m, i + 1).unwrap();
            let p = parse_index_spec(m.subrange(i + 1, j)).unwrap();
            lemma_positional_render(m, j + 1, fields);
            let (o2, ix2) = rewrite_from(m, j + 1, n)->Ok_0;
            assert(out =~= seq!['{', '}'] + o2);
            assert(ix =~= seq![p] + ix2);
            assert(out.subrange(2, out.len() as int) =~= o2);
            let args = field_texts(ix, fields);
            assert(args[0] == fields[p as int]);
            assert(args.drop_first() =~= field_texts(ix2, fields));
        } else if m[i] == '}' && i + 1 < m.len() && m[i + 1] == '}' {
            lemma_positional_render(m, i + 2, fields);
            let (o2, ix2) = rewrite_from(m, i + 2, n)->Ok_0;
            let (o1, ix1) = rewrite_from(m, i + 1, n)->Ok_0;
            assert(o1 =~= seq!['}'] + o2);
            assert(ix1 =~= ix2);
            assert(out =~= seq!['}', '}'] + o2);
            assert(ix =~= ix2);
            assert(out.subrange(2, out.len() as int) =~= o2);
        } else {
            lemma_positional_render(m, i + 1, fields);
            let (o1, ix1) = rewrite_from(m, i + 1, n)->Ok_0;
            assert(out =~= seq![m[i]] + o1);
            assert(ix =~= ix1);
            assert(out.subrange(1, out.len() as int) =~= o1);
        }
    }
}

/// The rewritten format, filled with the texts of the fields it refers to,
/// in the order of its indices, writes what the message means: each `{k}`
/// replaced by the text of field `k`, and `{{` and `}}` written once.
/// `"{1} and {0}"` with fields `a`, `b` writes `"b and a"`.
pub proof fn law_positional_message_text(m: Seq<char>, fields: Seq<Seq<char>>)
    requires
        unamed_format_spec(m, fields.len()) is Ok,
    ensures
        ({
            let (out, ix) = unamed_format_spec(m, fields.len())->Ok_0;
            format_anon(out, field_texts(ix, fields)) == format_positional(m, 0, fields)
        }),
{
    lemma_positional_render(m, 0, fields);
}

/// An enum variant whose attributes give a status code answers with it,
/// whatever its message; one with a message and a status code answers with
/// both.
pub proof fn law_variant_uses_given_status(v: Variant, s: StatusValue)
    ensures
        (variant_attrs_spec(v.attrs@) matches Ok(VariantAttr::Custom { status_code: Some(x), .. })
            && x == s) ==> (variant_spec(v) matches Ok(a) ==> a.status == StatusPlan::Given(s)),
        variant_attrs_spec(v.attrs@) == Ok::<VariantAttr, AttrErrorAt>(
            VariantAttr::InheritMsg { status_code: Some(s) },
        ) ==> variant_spec(v) == Ok::<ArmPlanView, ExpandErrorView>(
            ArmPlanView { status: StatusPlan::Given(s), message: MessagePlanView::Display },
        ),
        variant_attrs_spec(v.attrs@) == Ok::<VariantAttr, AttrErrorAt>(
            VariantAttr::Custom { msg: None, status_code: Some(s) },
        ) ==> variant_spec(v) == Ok::<ArmPlanView, ExpandErrorView>(
            ArmPlanView { status: StatusPlan::Given(s), message: MessagePlanView::Reason },
        ),
{
}

/// A struct whose attributes give a status code answers with it, whatever
/// its message and fields.
pub proof fn law_struct_uses_given_status(attrs: Seq<Attribute>, f: Fields, s: StatusValue)
    ensures
        (variant_attrs_spec(attrs) matches Ok(VariantAttr::Custom { status_code: Some(x), .. })
            && x == s) ==> (struct_spec(attrs, f) matches Ok(a) ==> a.status == StatusPlan::Given(s)),
        variant_attrs_spec(attrs) == Ok::<VariantAttr, AttrErrorAt>(
            VariantAttr::InheritMsg { status_code: Some(s) },
        ) ==> struct_spec(attrs, f) == Ok::<ArmPlanView, ExpandErrorView>(
            ArmPlanView { status: StatusPlan::Given(s), message: MessagePlanView::Display },
        ),
        variant_attrs_spec(attrs) == Ok::<VariantAttr, AttrErrorAt>(
            VariantAttr::Custom { msg: None, status_code: Some(s) },
        ) ==> struct_spec(attrs, f) == Ok::<ArmPlanView, ExpandErrorView>(
            ArmPlanView { status: StatusPlan::Given(s), message: MessagePlanView::Reason },
        ),
{
}

/// A message given in the attributes is the one answered with: formatted
/// with the named fields in scope for a unit or named item, and rewritten
/// for its positional arguments for an item with unnamed fields (refused
/// exactly when the rewrite is).
pub proof fn law_given_message_used(attrs: Seq<Attribute>, f: Fields, v: Variant, m: crate::attr::MessageLit)
    ensures
        (variant_attrs_spec(attrs) matches Ok(VariantAttr::Custom { msg: Some(x), .. }) && x == m
            && !(f is Unnamed)) ==> (struct_spec(attrs, f) matches Ok(a) && a.message
            == MessagePlanView::Format(m)),
        (variant_attrs_spec(v.attrs@) matches Ok(VariantAttr::Custom { msg: Some(x), .. }) && x == m
            && !(v.fields is Unnamed)) ==> (variant_spec(v) matches Ok(a) && a.message
            == MessagePlanView::Format(m)),
        (variant_attrs_spec(attrs) matches Ok(VariantAttr::Custom { msg: Some(x), .. }) && x == m
            && f is Unnamed) ==> ({
            let r = unamed_format_spec(lit_value(attrs, m), f->Unnamed_0 as nat);
            &&& (struct_spec(attrs, f) is Ok <==> r is Ok)
            &&& (struct_spec(attrs, f) matches Ok(a) ==> a.message == MessagePlanView::Positional {
                lit: m,
                fmt: r->Ok_0.0,
                args: r->Ok_0.1,
            })
        }),
{
}

/// The default message of a status code is its reason phrase whenever `http`
/// knows one, and "Unknown error" only when it knows none.
pub proof fn law_default_message_is_reason(code: u16)
    ensures
        canonical_reason_of(code) matches Some(r) ==> default_message_spec(code) == r,
        canonical_reason_of(code) is None ==> default_message_spec(code) == "Unknown error"@,
{
}

proof fn lemma_digit_char(d: nat)
    requires
        d < 10,
    ensures
        crate::text::digit_char(d) as int == d + 0x30,
{
    let b = (d + 0x30) as u8;
    assert(b as int == d + 0x30);
    assert((b as char) as int == b as int);
}

proof fn lemma_decimal_digits(v: nat)
    ensures
        crate::format::all_digits(crate::text::decimal_chars(v)),
        crate::format::decimal_value(crate::text::decimal_chars(v)) == v,
        crate::text::decimal_chars(v).len() > 0,
        crate::text::decimal_chars(v)[0] != '+',
    decreases v,
{
    let s = crate::text::decimal_chars(v);
    if v < 10 {
        lemma_digit_char(v);
        assert(s =~= seq![crate::text::digit_char(v)]);
        assert(s.drop_last() =~= Seq::<char>::empty());
        assert(crate::format::decimal_value(s.drop_last()) == 0);
    } else {
        lemma_decimal_digits(v / 10);
        lemma_digit_char(v % 10);
        let p = crate::text::decimal_chars(v / 10);
        assert(s == p.push(crate::text::digit_char(v % 10)));
        assert(s.drop_last() =~= p);
        assert(s.last() == crate::text::digit_char(v % 10));
        assert(s[0] == p[0]);
        assert((v / 10) * 10 + v % 10 == v) by (nonlinear_arith);
        assert(crate::format::decimal_value(s) == crate::format::decimal_value(p) * 10 + v % 10);
    }
}

/// Reading back the decimal text of an index gives the index: the positional
/// index parser and the decimal writer agree.
pub proof fn law_index_round_trip(v: usize)
    ensures
        parse_index_spec(crate::text::decimal_chars(v as nat)) == Some(v),
{
    lemma_decimal_digits(v as nat);
}

} // verus!
