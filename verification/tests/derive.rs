use std::borrow::Cow;
use std::str::FromStr;

use api_error::api::{default_message, ApiError};
use api_error::attr::{
    parse_variant_attrs, AttrError, AttrErrorAt, Attribute, MessageLit, StatusValue, VariantAttr,
};
use api_error::tokens::{Delimiter, Tok};
use api_error::expand::{
    expand, expand_variant_pattern, ArmPlan, Data, DeriveInput, DerivePlan, ExpandError, Fields,
    MessagePlan, StatusPlan, Variant,
};
use api_error::response::default_error_responder;

fn convert(ts: proc_macro2::TokenStream) -> Vec<Tok> {
    let mut out = Vec::new();
    for tt in ts {
        match tt {
            proc_macro2::TokenTree::Ident(i) => out.push(Tok::Ident(i.to_string())),
            proc_macro2::TokenTree::Punct(p) => {
                out.push(Tok::Punct(p.as_char(), p.spacing() == proc_macro2::Spacing::Joint))
            }
            proc_macro2::TokenTree::Literal(l) => out.push(Tok::Literal(l.to_string())),
            proc_macro2::TokenTree::Group(g) => {
                let inner = convert(g.stream());
                match g.delimiter() {
                    proc_macro2::Delimiter::Parenthesis => {
                        out.push(Tok::Group(Delimiter::Parenthesis, inner))
                    }
                    proc_macro2::Delimiter::Brace => out.push(Tok::Group(Delimiter::Brace, inner)),
                    proc_macro2::Delimiter::Bracket => {
                        out.push(Tok::Group(Delimiter::Bracket, inner))
                    }
                    proc_macro2::Delimiter::None => out.extend(inner),
                }
            }
        }
    }
    out
}

fn toks(s: &str) -> Vec<Tok> {
    convert(proc_macro2::TokenStream::from_str(s).unwrap())
}

fn api(s: &str) -> Attribute {
    Attribute { list_ident: Some("api_error".to_string()), tokens: toks(s) }
}

fn other(name: &str, s: &str) -> Attribute {
    Attribute { list_ident: Some(name.to_string()), tokens: toks(s) }
}

fn token_text(t: &Tok) -> String {
    match t {
        Tok::Ident(s) | Tok::Literal(s) => s.clone(),
        Tok::Punct(c, _) => c.to_string(),
        Tok::Group(_, _) => "(..)".to_string(),
    }
}

/// The status codes that the tests name by constant.
fn named_status(expr: &str) -> u16 {
    match expr {
        "StatusCode::IM_A_TEAPOT" => 418,
        "StatusCode::INTERNAL_SERVER_ERROR" => 500,
        "StatusCode::PROCESSING" => 102,
        "StatusCode::BAD_GATEWAY" => 502,
        "StatusCode::SERVICE_UNAVAILABLE" => 503,
        "StatusCode::ACCEPTED" => 202,
        "StatusCode::CONFLICT" => 409,
        other => panic!("unknown status expression {other}"),
    }
}

fn literal_value(attrs: &[Attribute], m: &MessageLit) -> String {
    let text = token_text(&attrs[m.attr].tokens[m.token]);
    syn::parse_str::<syn::LitStr>(&text).unwrap().value()
}

/// The runtime values of one struct or variant.
struct Values<'a> {
    unnamed: Vec<&'a str>,
    named: Vec<(&'a str, &'a str)>,
    display: &'a str,
    inner: Option<(u16, &'a str)>,
}

fn status_of(plan: &StatusPlan, attrs: &[Attribute], v: &Values) -> u16 {
    match plan {
        StatusPlan::Forward => v.inner.unwrap().0,
        StatusPlan::InternalServerError => 500,
        StatusPlan::Given(StatusValue::IntLiteral { attr, start, end }) => {
            let text: String =
                attrs[*attr].tokens[*start..*end].iter().map(token_text).collect();
            text.parse().unwrap()
        }
        StatusPlan::Given(StatusValue::Expr { attr, start, end }) => {
            let text: String =
                attrs[*attr].tokens[*start..*end].iter().map(token_text).collect();
            named_status(&text)
        }
    }
}

/// What `format!` writes for a format string whose arguments are named
/// (`{name}`) or anonymous (`{}`, taken from `positional` in order):
/// `{{` and `}}` are written as `{` and `}`.
fn render_format(fmt: &str, named: &[(&str, &str)], positional: &[&str]) -> String {
    let chars: Vec<char> = fmt.chars().collect();
    let mut out = String::new();
    let mut next = 0;
    let mut i = 0;
    while i < chars.len() {
        let c = chars[i];
        if c == '{' && i + 1 < chars.len() && chars[i + 1] == '{' {
            out.push('{');
            i += 2;
        } else if c == '}' && i + 1 < chars.len() && chars[i + 1] == '}' {
            out.push('}');
            i += 2;
        } else if c == '{' {
            let close = i + chars[i..].iter().position(|&d| d == '}').unwrap();
            let name: String = chars[i + 1..close].iter().collect();
            if name.is_empty() {
                out.push_str(positional[next]);
                next += 1;
            } else {
                let value = named.iter().find(|(n, _)| *n == name).unwrap().1;
                out.push_str(value);
            }
            i = close + 1;
        } else {
            out.push(c);
            i += 1;
        }
    }
    out
}

fn message_of(plan: &MessagePlan, attrs: &[Attribute], v: &Values, status: u16) -> String {
    match plan {
        MessagePlan::Forward => v.inner.unwrap().1.to_string(),
        MessagePlan::Display => v.display.to_string(),
        MessagePlan::Reason => default_message(status).to_string(),
        MessagePlan::Format(m) => render_format(&literal_value(attrs, m), &v.named, &[]),
        MessagePlan::Positional { fmt, args, .. } => {
            let values: Vec<&str> = args.iter().map(|a| v.unnamed[*a]).collect();
            render_format(fmt, &[], &values)
        }
    }
}

/// An error whose status code and message were computed from a plan.
struct Planned {
    status: u16,
    message: String,
}

impl ApiError for Planned {
    fn status_code(&self) -> u16 {
        self.status
    }

    fn message(&self) -> Cow<'_, str> {
        Cow::Borrowed(&self.message)
    }
}

fn evaluate(arm: &ArmPlan, attrs: &[Attribute], v: &Values) -> Planned {
    let status = status_of(&arm.status, attrs, v);
    let message = message_of(&arm.message, attrs, v, status);
    Planned { status, message }
}

fn variant(ident: &str, fields: Fields, attrs: Vec<Attribute>) -> Variant {
    Variant { ident: ident.to_string(), fields, attrs }
}

fn enum_arms(variants: Vec<Variant>) -> (Vec<ArmPlan>, Vec<Vec<Attribute>>) {
    let input = DeriveInput { ident: "MyError".to_string(), attrs: Vec::new(), data: Data::Enum(variants) };
    let plan = expand(&input).unwrap();
    let attrs = match input.data {
        Data::Enum(vs) => vs.into_iter().map(|v| v.attrs).collect(),
        _ => unreachable!(),
    };
    match plan {
        DerivePlan::Enum(arms) => (arms, attrs),
        DerivePlan::Struct(_) => panic!("expected an enum plan"),
    }
}

fn struct_arm(fields: Fields, attrs: Vec<Attribute>) -> Result<(ArmPlan, Vec<Attribute>), ExpandError> {
    let input = DeriveInput { ident: "MyErrorStruct".to_string(), attrs, data: Data::Struct(fields) };
    match expand(&input) {
        Ok(DerivePlan::Struct(arm)) => Ok((arm, input.attrs)),
        Ok(DerivePlan::Enum(_)) => panic!("expected a struct plan"),
        Err(e) => Err(e.error),
    }
}

fn unit(display: &str) -> Values<'_> {
    Values { unnamed: vec![], named: vec![], display, inner: None }
}

#[test]
fn api_error_basic_enum() {
    let (arms, attrs) = enum_arms(vec![
        variant("Foo", Fields::Unit, vec![
            other("error", "\"My first error\""),
            api("status_code = 400, message = \"A foo error occurred\""),
        ]),
        variant("Bar", Fields::Unit, vec![
            other("error", "\"My second error\""),
            api("status_code = 403, message = \"A bar error occurred\""),
        ]),
        variant("Baz", Fields::Unit, vec![
            other("error", "\"My third error\""),
            api("status_code = StatusCode::IM_A_TEAPOT, message = \"A baz error occurred\""),
        ]),
        variant("Nada", Fields::Unit, vec![other("error", "\"My no message error\"")]),
    ]);

    let err = evaluate(&arms[0], &attrs[0], &unit("My first error"));
    assert_eq!(err.status_code(), 400);
    assert_eq!(err.message().as_ref(), "A foo error occurred");
    assert_eq!(default_error_responder(&err).status, 400);

    let err = evaluate(&arms[1], &attrs[1], &unit("My second error"));
    assert_eq!(err.status_code(), 403);
    assert_eq!(err.message().as_ref(), "A bar error occurred");
    assert_eq!(default_error_responder(&err).status, 403);

    let err = evaluate(&arms[2], &attrs[2], &unit("My third error"));
    assert_eq!(err.status_code(), 418);
    assert_eq!(err.message().as_ref(), "A baz error occurred");
    assert_eq!(default_error_responder(&err).status, 418);

    let err = evaluate(&arms[3], &attrs[3], &unit("My no message error"));
    assert_eq!(err.status_code(), 500);
    assert_eq!(err.message().as_ref(), "Internal Server Error");
    assert_eq!(default_error_responder(&err).status, 500);
}

#[test]
fn api_error_complex_enum() {
    let (inner_arms, inner_attrs) = enum_arms(vec![variant("Inner", Fields::Unit, vec![
        other("error", "\"Inner error\""),
        api("message(inherit), status_code = 402"),
    ])]);
    let inner = evaluate(&inner_arms[0], &inner_attrs[0], &unit("Inner error"));

    let (arms, attrs) = enum_arms(vec![
        variant("Foo", Fields::Unnamed(2), vec![
            other("error", "\"My first error {1}\""),
            api("status_code = 400, message = \"A foo error, {1} occurred\""),
        ]),
        variant(
            "Bar",
            Fields::Named(vec!["detail".to_string(), "code".to_string()]),
            vec![
                other("error", "\"My second error\""),
                api("status_code = 403, message = \"A bar error {detail} occurred\""),
            ],
        ),
        variant("Baz", Fields::Unit, vec![
            other("error", "\"My third error\""),
            api("status_code = StatusCode::IM_A_TEAPOT, message = \"A baz error occurred\""),
        ]),
        variant("Inherited", Fields::Unit, vec![
            other("error", "\"My inherited error\""),
            api("message(inherit), status_code = StatusCode::INTERNAL_SERVER_ERROR"),
        ]),
        variant("Transparent", Fields::Unnamed(1), vec![
            other("error", "transparent"),
            api("transparent"),
        ]),
        variant("MultiAttrs", Fields::Unit, vec![
            other("error", "\"My inherited error\""),
            api("message = \"Hey\""),
            api("status_code = StatusCode::PROCESSING"),
        ]),
        variant("NoMessage", Fields::Unit, vec![
            other("error", "\"My no message error\""),
            api("status_code = StatusCode::BAD_GATEWAY"),
        ]),
    ]);

    let values = Values { unnamed: vec!["FOO", "42"], named: vec![], display: "My first error 42", inner: None };
    let err = evaluate(&arms[0], &attrs[0], &values);
    assert_eq!(err.status_code(), 400);
    assert_eq!(err.message().as_ref(), "A foo error, 42 occurred");
    assert_eq!(default_error_responder(&err).status, 400);

    let values = Values {
        unnamed: vec![],
        named: vec![("detail", "DETAILS"), ("code", "420")],
        display: "My second error",
        inner: None,
    };
    let err = evaluate(&arms[1], &attrs[1], &values);
    assert_eq!(err.status_code(), 403);
    assert_eq!(err.message().as_ref(), "A bar error DETAILS occurred");
    assert_eq!(default_error_responder(&err).status, 403);

    let err = evaluate(&arms[2], &attrs[2], &unit("My third error"));
    assert_eq!(err.status_code(), 418);
    assert_eq!(err.message().as_ref(), "A baz error occurred");
    assert_eq!(default_error_responder(&err).status, 418);

    let err = evaluate(&arms[3], &attrs[3], &unit("My inherited error"));
    assert_eq!(err.status_code(), 500);
    assert_eq!(err.message().as_ref(), "My inherited error");
    assert_eq!(default_error_responder(&err).status, 500);

    let inner_message = inner.message().into_owned();
    let values = Values {
        unnamed: vec![],
        named: vec![],
        display: "Inner error",
        inner: Some((inner.status_code(), &inner_message)),
    };
    let err = evaluate(&arms[4], &attrs[4], &values);
    assert_eq!(err.status_code(), 402);
    assert_eq!(err.message().as_ref(), "Inner error");
    assert_eq!(default_error_responder(&err).status, 402);

    let err = evaluate(&arms[5], &attrs[5], &unit("My inherited error"));
    assert_eq!(err.status_code(), 102);
    assert_eq!(err.message().as_ref(), "Hey");
    assert_eq!(default_error_responder(&err).status, 102);

    let err = evaluate(&arms[6], &attrs[6], &unit("My no message error"));
    assert_eq!(err.status_code(), 502);
    assert_eq!(err.message().as_ref(), "Bad Gateway");
    assert_eq!(default_error_responder(&err).status, 502);
}

#[test]
fn api_error_struct() {
    let (arm, attrs) = struct_arm(Fields::Unnamed(2), vec![
        other("error", "\"My Error {0}\""),
        api("message = \"A struct error occurred: {1}\", status_code = 499"),
    ])
    .unwrap();
    let values = Values { unnamed: vec!["DETAIL", "123"], named: vec![], display: "My Error DETAIL", inner: None };
    let err = evaluate(&arm, &attrs, &values);
    assert_eq!(err.status_code(), 499);
    assert_eq!(err.message().as_ref(), "A struct error occurred: 123");
    assert_eq!(default_error_responder(&err).status, 499);
}

#[test]
fn api_error_struct_named_fields() {
    let (arm, attrs) = struct_arm(
        Fields::Named(vec!["field".to_string(), "code".to_string()]),
        vec![
            other("error", "\"Invalid input: {field}\""),
            api("status_code = 422, message = \"Field `{field}` is invalid (code {code})\""),
        ],
    )
    .unwrap();
    let values = Values {
        unnamed: vec![],
        named: vec![("field", "email"), ("code", "1001")],
        display: "Invalid input: email",
        inner: None,
    };
    let err = evaluate(&arm, &attrs, &values);
    assert_eq!(err.status_code(), 422);
    assert_eq!(err.message().as_ref(), "Field `email` is invalid (code 1001)");
    assert_eq!(default_error_responder(&err).status, 422);
}

#[test]
fn api_error_struct_default_status_code() {
    let (arm, attrs) = struct_arm(Fields::Unit, vec![
        other("error", "\"Something went wrong\""),
        api("message = \"Unexpected error\""),
    ])
    .unwrap();
    let err = evaluate(&arm, &attrs, &unit("Something went wrong"));
    assert_eq!(err.status_code(), 500);
    assert_eq!(err.message().as_ref(), "Unexpected error");
    assert_eq!(default_error_responder(&err).status, 500);
}

#[test]
fn api_error_struct_no_message_fallback() {
    let (arm, attrs) = struct_arm(Fields::Unit, vec![
        other("error", "\"Upstream failure\""),
        api("status_code = StatusCode::SERVICE_UNAVAILABLE"),
    ])
    .unwrap();
    let err = evaluate(&arm, &attrs, &unit("Upstream failure"));
    assert_eq!(err.status_code(), 503);
    assert_eq!(err.message().as_ref(), "Service Unavailable");
    assert_eq!(default_error_responder(&err).status, 503);
}

#[test]
fn api_error_struct_message_inherit() {
    let (arm, attrs) = struct_arm(Fields::Unit, vec![
        other("error", "\"Inherited struct error\""),
        api("message(inherit), status_code = 409"),
    ])
    .unwrap();
    let err = evaluate(&arm, &attrs, &unit("Inherited struct error"));
    assert_eq!(err.status_code(), 409);
    assert_eq!(err.message().as_ref(), "Inherited struct error");
    assert_eq!(default_error_responder(&err).status, 409);
}

#[test]
fn api_error_struct_multiple_attributes() {
    let (arm, attrs) = struct_arm(Fields::Unit, vec![
        other("error", "\"Multi attr struct\""),
        api("message = \"First message\""),
        api("status_code = StatusCode::ACCEPTED"),
    ])
    .unwrap();
    let err = evaluate(&arm, &attrs, &unit("Multi attr struct"));
    assert_eq!(err.status_code(), 202);
    assert_eq!(err.message().as_ref(), "First message");
    assert_eq!(default_error_responder(&err).status, 202);
}

#[test]
fn api_error_struct_fully_transparent() {
    let (base_arm, base_attrs) = struct_arm(Fields::Unit, vec![
        other("error", "\"Base error\""),
        api("status_code = 401, message = \"Unauthorized\""),
    ])
    .unwrap();
    let base = evaluate(&base_arm, &base_attrs, &unit("Base error"));

    let (arm, attrs) = struct_arm(Fields::Unnamed(1), vec![
        other("error", "transparent"),
        api("transparent"),
    ])
    .unwrap();
    let base_message = base.message().into_owned();
    let values = Values {
        unnamed: vec![],
        named: vec![],
        display: "Base error",
        inner: Some((base.status_code(), &base_message)),
    };
    let err = evaluate(&arm, &attrs, &values);
    assert_eq!(err.status_code(), 401);
    assert_eq!(err.message().as_ref(), "Unauthorized");
    assert_eq!(default_error_responder(&err).status, 401);
}

fn attr_error(attrs: Vec<Attribute>) -> AttrErrorAt {
    parse_variant_attrs(&attrs).unwrap_err()
}

#[test]
fn duplicate_message_is_refused() {
    let e = attr_error(vec![
        other("error", "\"some error\""),
        api("message = \"First message\""),
        api("message = \"Second message\""),
    ]);
    assert_eq!(e, AttrErrorAt { attr: 2, error: AttrError::DuplicateMessage });
    assert_eq!(e.error.message(), "duplicate `message` attribute in `api_error`");
}

#[test]
fn duplicate_status_code_is_refused() {
    let e = attr_error(vec![api("status_code = 400"), api("status_code = 500")]);
    assert_eq!(e, AttrErrorAt { attr: 1, error: AttrError::DuplicateStatusCode });
    assert_eq!(e.error.message(), "duplicate `status_code` attribute in `api_error`");
}

#[test]
fn duplicate_transparent_is_refused() {
    let e = attr_error(vec![api("transparent"), api("transparent")]);
    assert_eq!(e, AttrErrorAt { attr: 1, error: AttrError::TransparentCombined });
    assert_eq!(
        e.error.message(),
        "`transparent` cannot be combined with other `api_error` attributes"
    );
}

#[test]
fn transparent_with_status_code_is_refused() {
    let e = attr_error(vec![api("transparent, status_code = 400")]);
    assert_eq!(e.error, AttrError::TransparentCombined);
    let e = attr_error(vec![api("status_code = 400, transparent")]);
    assert_eq!(e.error, AttrError::TransparentCombined);
    let e = attr_error(vec![api("status_code = 400"), api("transparent")]);
    assert_eq!(e.error, AttrError::TransparentCombined);
}

#[test]
fn missing_comma_separator_is_refused() {
    let e = attr_error(vec![api("message = \"Error\" status_code = 400")]);
    assert_eq!(e.error, AttrError::ExpectedComma);
    assert_eq!(
        e.error.message(),
        "Expected comma separated key-value pairs in api_error attribute"
    );
}

#[test]
fn unknown_key_is_refused() {
    let e = attr_error(vec![api("code = 400")]);
    assert_eq!(e.error, AttrError::ExpectedKey);
    assert_eq!(e.error.message(), "expected `message` or `status_code`");
}

#[test]
fn message_syntax_errors() {
    assert_eq!(
        attr_error(vec![api("message = 3")]).error,
        AttrError::ExpectedStringLiteral { at_end: false }
    );
    let e = attr_error(vec![api("message =")]).error;
    assert_eq!(e, AttrError::ExpectedStringLiteral { at_end: true });
    assert_eq!(e.message(), "unexpected end of input, expected string literal");
    assert_eq!(
        attr_error(vec![api("message")]).error,
        AttrError::ExpectedParentheses { at_end: true }
    );
    let e = attr_error(vec![api("message(other)")]).error;
    assert_eq!(e, AttrError::OnlyMessageSyntax);
    assert_eq!(
        e.message(),
        "Only `message = \"...\"` or `message(inherit)` syntax is allowed in `api_error` attribute"
    );
    let e = attr_error(vec![api("message(inherit extra)")]).error;
    assert_eq!(e, AttrError::UnexpectedToken { within: Some(Delimiter::Parenthesis) });
    assert_eq!(e.message(), "unexpected token, expected `)`");
}

#[test]
fn status_code_syntax_errors() {
    let e = attr_error(vec![api("status_code 400")]).error;
    assert_eq!(e, AttrError::ExpectedEq);
    assert_eq!(e.message(), "expected `=`");
    let e = attr_error(vec![api("status_code =")]).error;
    assert_eq!(e, AttrError::ExpectedExpression { at_end: true });
    assert_eq!(e.message(), "unexpected end of input, expected an expression");
    assert_eq!(
        attr_error(vec![api("status_code = , message = \"x\"")]).error,
        AttrError::ExpectedExpression { at_end: false }
    );
    // An integer literal is read as such; what follows it must be a comma.
    let e = attr_error(vec![api("status_code = 1 +")]).error;
    assert_eq!(e, AttrError::ExpectedComma);
    assert_eq!(e.message(), "Expected comma separated key-value pairs in api_error attribute");
}

#[test]
fn transparent_followed_by_other_token_is_refused() {
    let e = attr_error(vec![api("transparent extra")]).error;
    assert_eq!(e, AttrError::UnexpectedToken { within: None });
    assert_eq!(e.message(), "unexpected token");
}

#[test]
fn last_value_wins_within_one_attribute() {
    let a = parse_variant_attrs(&vec![api("message = \"a\", message = \"b\", status_code = 1, status_code = 2")])
        .unwrap();
    assert_eq!(
        a,
        VariantAttr::Custom {
            msg: Some(MessageLit { attr: 0, token: 6 }),
            status_code: Some(StatusValue::IntLiteral { attr: 0, start: 14, end: 15 }),
        }
    );
}

#[test]
fn other_attributes_are_passed_over() {
    let a = parse_variant_attrs(&vec![
        other("error", "\"x\""),
        Attribute { list_ident: None, tokens: toks("message = 3") },
    ])
    .unwrap();
    assert_eq!(a, VariantAttr::Custom { msg: None, status_code: None });
}

#[test]
fn trailing_comma_is_accepted() {
    let a = parse_variant_attrs(&vec![api("status_code = 404,")]).unwrap();
    assert_eq!(
        a,
        VariantAttr::Custom { msg: None, status_code: Some(StatusValue::IntLiteral { attr: 0, start: 2, end: 3 }) }
    );
}

#[test]
fn negative_integer_literal_is_one_status_value() {
    let a = parse_variant_attrs(&vec![api("status_code = -400, message = \"x\"")]).unwrap();
    assert_eq!(
        a,
        VariantAttr::Custom {
            msg: Some(MessageLit { attr: 0, token: 7 }),
            status_code: Some(StatusValue::IntLiteral { attr: 0, start: 2, end: 4 }),
        }
    );
    let e = attr_error(vec![api("status_code = -400 message = \"x\"")]);
    assert_eq!(e.error, AttrError::ExpectedComma);
}

#[test]
fn status_expression_spans_to_the_comma() {
    let a = parse_variant_attrs(&vec![api("status_code = StatusCode::from_u16(404).unwrap(), message(inherit)")])
        .unwrap();
    assert_eq!(
        a,
        VariantAttr::InheritMsg { status_code: Some(StatusValue::Expr { attr: 0, start: 2, end: 10 }) }
    );
}

#[test]
fn merging_attributes_is_order_independent() {
    let a = parse_variant_attrs(&vec![api("message = \"m\""), api("status_code = 1")]).unwrap();
    let b = parse_variant_attrs(&vec![api("status_code = 1"), api("message = \"m\"")]).unwrap();
    assert_eq!(a, VariantAttr::Custom {
        msg: Some(MessageLit { attr: 0, token: 2 }),
        status_code: Some(StatusValue::IntLiteral { attr: 1, start: 2, end: 3 }),
    });
    assert_eq!(b, VariantAttr::Custom {
        msg: Some(MessageLit { attr: 1, token: 2 }),
        status_code: Some(StatusValue::IntLiteral { attr: 0, start: 2, end: 3 }),
    });
}

#[test]
fn transparent_multi_field_enum_is_refused() {
    let input = DeriveInput {
        ident: "MyError".to_string(),
        attrs: vec![],
        data: Data::Enum(vec![variant("TwoFields", Fields::Unnamed(2), vec![api("transparent")])]),
    };
    let e = expand(&input).unwrap_err();
    assert_eq!(e.variant, Some(0));
    assert!(matches!(e.error, ExpandError::TransparentVariant));
    assert_eq!(
        e.error.message(),
        "the `#[api_error(transparent)]` attribute is only allowed on unamed variants with only one field"
    );
}

#[test]
fn transparent_multi_field_struct_is_refused() {
    let e = struct_arm(Fields::Unnamed(2), vec![api("transparent")]).err().unwrap();
    assert!(matches!(e, ExpandError::TransparentStruct));
    assert_eq!(
        e.message(),
        "the `#[api_error(transparent)]` attribute is only allowed on structs with only one field"
    );
}

#[test]
fn union_is_refused() {
    let input = DeriveInput { ident: "MyError".to_string(), attrs: vec![], data: Data::Union };
    let e = expand(&input).unwrap_err();
    assert_eq!(e.variant, None);
    assert_eq!(e.error.message(), "ApiError can only be derived for structs and enums");
}

#[test]
fn format_errors_stop_the_derive() {
    let input = DeriveInput {
        ident: "MyError".to_string(),
        attrs: vec![],
        data: Data::Enum(vec![
            variant("Ok", Fields::Unit, vec![]),
            variant("Invalid", Fields::Unnamed(1), vec![api("message = \"Empty argument {}\"")]),
            variant("Later", Fields::Unnamed(2), vec![api("transparent")]),
        ]),
    };
    let e = expand(&input).unwrap_err();
    assert_eq!(e.variant, Some(1));
    assert_eq!(
        e.error.message(),
        "invalid format argument '', formatting arguments must be numeric positional indices"
    );

    let e = struct_arm(Fields::Unnamed(1), vec![api("message = \"Missing closing brace {0\"")])
        .err()
        .unwrap();
    assert_eq!(e.message(), "unmatched '{' in format string");
}

#[test]
fn enum_variant_with_unit_message_is_formatted() {
    let (arms, _) = enum_arms(vec![variant("A", Fields::Unit, vec![api("message = \"x\"")])]);
    assert!(matches!(arms[0].message, MessagePlan::Format(MessageLit { attr: 0, token: 2 })));
    assert_eq!(arms[0].status, StatusPlan::InternalServerError);
}

#[test]
fn struct_unit_message_is_formatted() {
    let (arm, _) = struct_arm(Fields::Unit, vec![api("message = \"x\"")]).unwrap();
    assert!(matches!(arm.message, MessagePlan::Format(MessageLit { attr: 0, token: 2 })));
}

#[test]
fn doubled_braces_show_once_for_every_kind_of_item() {
    let message = "message = \"Use {{x}}\"";
    let (arm, attrs) = struct_arm(Fields::Unit, vec![api(message)]).unwrap();
    assert_eq!(evaluate(&arm, &attrs, &unit("")).message, "Use {x}");

    let (arm, attrs) = struct_arm(Fields::Unnamed(1), vec![api(message)]).unwrap();
    let v = Values { unnamed: vec!["a"], named: vec![], display: "", inner: None };
    assert_eq!(evaluate(&arm, &attrs, &v).message, "Use {x}");

    let (arms, attrs) = enum_arms(vec![
        variant("Unit", Fields::Unit, vec![api(message)]),
        variant("Tuple", Fields::Unnamed(1), vec![api(message)]),
        variant("Named", Fields::Named(vec!["x".to_string()]), vec![api(message)]),
    ]);
    assert_eq!(evaluate(&arms[0], &attrs[0], &unit("")).message, "Use {x}");
    assert_eq!(evaluate(&arms[1], &attrs[1], &v).message, "Use {x}");
    let named = Values { unnamed: vec![], named: vec![("x", "1")], display: "", inner: None };
    assert_eq!(evaluate(&arms[2], &attrs[2], &named).message, "Use {x}");
}

#[test]
fn unnamed_message_without_arguments_is_rewritten_plainly() {
    let (arm, _) = struct_arm(Fields::Unnamed(1), vec![api("message = \"plain\"")]).unwrap();
    match arm.message {
        MessagePlan::Positional { fmt, args, .. } => {
            assert_eq!(fmt, "plain");
            assert!(args.is_empty());
        }
        _ => panic!("expected a positional plan"),
    }
}

#[test]
fn raw_string_literal_message_is_read() {
    let (arm, _) = struct_arm(Fields::Unnamed(1), vec![api("message = r\"raw {0}\"")]).unwrap();
    match arm.message {
        MessagePlan::Positional { fmt, args, .. } => {
            assert_eq!(fmt, "raw {}");
            assert_eq!(args, vec![0]);
        }
        _ => panic!("expected a positional plan"),
    }
}

#[test]
fn variant_pattern_binders() {
    assert!(expand_variant_pattern(&Fields::Unit).is_empty());
    assert_eq!(
        expand_variant_pattern(&Fields::Unnamed(12))[11],
        "__field11"
    );
    assert_eq!(
        expand_variant_pattern(&Fields::Unnamed(3)),
        vec!["__field0", "__field1", "__field2"]
    );
    assert_eq!(
        expand_variant_pattern(&Fields::Named(vec!["a".to_string(), "b".to_string()])),
        vec!["a", "b"]
    );
}

#[test]
fn status_expression_stops_where_the_expression_ends() {
    let e = attr_error(vec![api("status_code = StatusCode::CONFLICT message = \"x\"")]);
    assert_eq!(e.error, AttrError::ExpectedComma);
    let e = attr_error(vec![api("status_code = = 4")]);
    assert_eq!(e.error, AttrError::ExpectedExpression { at_end: false });
}

#[test]
fn status_expression_may_hold_commas_in_groups() {
    let a = parse_variant_attrs(&vec![api("status_code = pick(1, 2), message = \"m\"")]).unwrap();
    assert_eq!(
        a,
        VariantAttr::Custom {
            msg: Some(MessageLit { attr: 0, token: 7 }),
            status_code: Some(StatusValue::Expr { attr: 0, start: 2, end: 4 }),
        }
    );
}

#[test]
fn rendered_tokens_read_back_the_same() {
    let t = toks("StatusCode::from_u16(404).unwrap() 'a x->y");
    let text = api_error::tokens::render_range(&t, 0, t.len());
    assert_eq!(text, "StatusCode :: from_u16 (404 ) . unwrap () 'a x -> y ");
    assert_eq!(toks(&text).len(), t.len());
}
