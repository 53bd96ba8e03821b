//! What the derive generates for an item: for each struct or enum variant, how
//! `status_code` and `message` are computed.

use vstd::prelude::*;
use vstd::string::StringExecFns;
use crate::attr::{
    AttrErrorAt, Attribute, MessageLit, StatusValue, VariantAttr, attr_error_text,
    lemma_variant_attrs_lit, lit_ok, parse_variant_attrs, string_literal, string_literal_value,
    variant_attrs_spec,
};
use crate::format::{
    FormatError, FormatErrorView, format_error_text, format_result_view, parse_unamed_msg_format,
    unamed_format_spec,
};
use crate::text::{decimal, decimal_chars};
use crate::tokens::Tok;

verus! {

/// The fields of a struct or of an enum variant: none, `n` unnamed ones, or
/// named ones.
pub enum Fields {
    Unit,
    Unnamed(usize),
    Named(Vec<String>),
}

/// An enum variant: its name, its fields and its attributes.
pub struct Variant {
    pub ident: String,
    pub fields: Fields,
    pub attrs: Vec<Attribute>,
}

/// The body of the item the derive is applied to.
pub enum Data {
    Struct(Fields),
    Enum(Vec<Variant>),
    Union,
}

/// The item the derive is applied to.
pub struct DeriveInput {
    pub ident: String,
    pub attrs: Vec<Attribute>,
    pub data: Data,
}

/// How `status_code` is computed.
#[derive(Clone, Copy, Debug, PartialEq, Eq)]
pub enum StatusPlan {
    /// The status code of the single inner field.
    Forward,
    /// The given literal or expression.
    Given(StatusValue),
    /// `500 Internal Server Error`.
    InternalServerError,
}

/// How `message` is computed.
#[derive(Debug)]
pub enum MessagePlan {
    /// The message of the single inner field.
    Forward,
    /// The `Display` text of the error.
    Display,
    /// The reason phrase of the status code ("Unknown error" if none).
    Reason,
    /// The literal as a format string (so `{{` shows as `{`), with the named
    /// fields in scope.
    Format(MessageLit),
    /// The literal `lit` rewritten to the format string `fmt` (so `{{` shows
    /// as `{`), with the unnamed fields `args`, in order.
    Positional { lit: MessageLit, fmt: String, args: Vec<usize> },
}

pub enum MessagePlanView {
    Forward,
    Display,
    Reason,
    Format(MessageLit),
    Positional { lit: MessageLit, fmt: Seq<char>, args: Seq<usize> },
}

impl View for MessagePlan {
    type V = MessagePlanView;

    open spec fn view(&self) -> MessagePlanView {
        match self {
            MessagePlan::Forward => MessagePlanView::Forward,
            MessagePlan::Display => MessagePlanView::Display,
            MessagePlan::Reason => MessagePlanView::Reason,
            MessagePlan::Format(m) => MessagePlanView::Format(*m),
            MessagePlan::Positional { lit, fmt, args } => MessagePlanView::Positional {
                lit: *lit,
                fmt: fmt@,
                args: args@,
            },
        }
    }
}

/// Both methods of one struct or variant.
#[derive(Debug)]
pub struct ArmPlan {
    pub status: StatusPlan,
    pub message: MessagePlan,
}

pub struct ArmPlanView {
    pub status: StatusPlan,
    pub message: MessagePlanView,
}

impl View for ArmPlan {
    type V = ArmPlanView;

    open spec fn view(&self) -> ArmPlanView {
        ArmPlanView { status: self.status, message: self.message@ }
    }
}

/// The whole implementation: one plan for a struct, one per variant (in
/// order) for an enum.
#[derive(Debug)]
pub enum DerivePlan {
    Struct(ArmPlan),
    Enum(Vec<ArmPlan>),
}

pub enum DerivePlanView {
    Struct(ArmPlanView),
    Enum(Seq<ArmPlanView>),
}

impl View for DerivePlan {
    type V = DerivePlanView;

    open spec fn view(&self) -> DerivePlanView {
        match self {
            DerivePlan::Struct(a) => DerivePlanView::Struct(a@),
            DerivePlan::Enum(v) => DerivePlanView::Enum(v@.map_values(|a: ArmPlan| a@)),
        }
    }
}

/// Why the derive refuses an item.
#[derive(Debug)]
pub enum ExpandError {
    Attribute(AttrErrorAt),
    Format { lit: MessageLit, error: FormatError },
    TransparentStruct,
    TransparentVariant,
    UnsupportedData,
}

pub enum ExpandErrorView {
    Attribute(AttrErrorAt),
    Format { lit: MessageLit, error: FormatErrorView },
    TransparentStruct,
    TransparentVariant,
    UnsupportedData,
}

impl View for ExpandError {
    type V = ExpandErrorView;

    open spec fn view(&self) -> ExpandErrorView {
        match self {
            ExpandError::Attribute(e) => ExpandErrorView::Attribute(*e),
            ExpandError::Format { lit, error } => ExpandErrorView::Format {
                lit: *lit,
                error: error@,
            },
            ExpandError::TransparentStruct => ExpandErrorView::TransparentStruct,
            ExpandError::TransparentVariant => ExpandErrorView::TransparentVariant,
            ExpandError::UnsupportedData => ExpandErrorView::UnsupportedData,
        }
    }
}

/// A refusal, with the variant it concerns (for an enum).
#[derive(Debug)]
pub struct DeriveError {
    pub variant: Option<usize>,
    pub error: ExpandError,
}

pub struct DeriveErrorView {
    pub variant: Option<usize>,
    pub error: ExpandErrorView,
}

impl View for DeriveError {
    type V = DeriveErrorView;

    open spec fn view(&self) -> DeriveErrorView {
        DeriveErrorView { variant: self.variant, error: self.error@ }
    }
}

pub open spec fn field_count(f: Fields) -> nat {
    match f {
        Fields::Unit => 0,
        Fields::Unnamed(n) => n as nat,
        Fields::Named(names) => names@.len(),
    }
}

/// The value of the message literal `m`.
pub open spec fn lit_value(attrs: Seq<Attribute>, m: MessageLit) -> Seq<char> {
    match attrs[m.attr as int].tokens@[m.token as int] {
        Tok::Literal(s) => match string_literal_value(s@) {
            Some(v) => v,
            None => seq![],
        },
        _ => seq![],
    }
}

/// The given status code, or `500`.
pub open spec fn status_or_default(s: Option<StatusValue>) -> StatusPlan {
    match s {
        Some(v) => StatusPlan::Given(v),
        None => StatusPlan::InternalServerError,
    }
}

/// The rewrite of a message literal for `n` unnamed fields.
pub open spec fn positional_spec(attrs: Seq<Attribute>, m: MessageLit, n: nat) -> Result<
    MessagePlanView,
    ExpandErrorView,
> {
    let v = lit_value(attrs, m);
    match unamed_format_spec(v, n) {
        Err(e) => Err(ExpandErrorView::Format { lit: m, error: e }),
        Ok((fmt, args)) => Ok(MessagePlanView::Positional { lit: m, fmt, args }),
    }
}

/// The status code of an enum variant.
pub open spec fn variant_status_spec(f: Fields, a: VariantAttr) -> Result<StatusPlan, ExpandErrorView> {
    match a {
        VariantAttr::Transparent => if f matches Fields::Unnamed(n) && n == 1 {
            Ok(StatusPlan::Forward)
        } else {
            Err(ExpandErrorView::TransparentVariant)
        },
        VariantAttr::InheritMsg { status_code } => Ok(status_or_default(status_code)),
        VariantAttr::Custom { status_code, .. } => Ok(status_or_default(status_code)),
    }
}

/// The message of an enum variant.
pub open spec fn variant_message_spec(attrs: Seq<Attribute>, f: Fields, a: VariantAttr) -> Result<
    MessagePlanView,
    ExpandErrorView,
> {
    match a {
        VariantAttr::Custom { msg: Some(m), .. } => match f {
            Fields::Unnamed(n) => positional_spec(attrs, m, n as nat),
            _ => Ok(MessagePlanView::Format(m)),
        },
        VariantAttr::Custom { msg: None, .. } => Ok(MessagePlanView::Reason),
        VariantAttr::Transparent => if f matches Fields::Unnamed(n) && n == 1 {
            Ok(MessagePlanView::Forward)
        } else {
            Err(ExpandErrorView::TransparentVariant)
        },
        VariantAttr::InheritMsg { .. } => Ok(MessagePlanView::Display),
    }
}

/// Both methods of an enum variant.
pub open spec fn variant_spec(v: Variant) -> Result<ArmPlanView, ExpandErrorView> {
    match variant_attrs_spec(v.attrs@) {
        Err(e) => Err(ExpandErrorView::Attribute(e)),
        Ok(a) => match variant_status_spec(v.fields, a) {
            Err(e) => Err(e),
            Ok(s) => match variant_message_spec(v.attrs@, v.fields, a) {
                Err(e) => Err(e),
                Ok(m) => Ok(ArmPlanView { status: s, message: m }),
            },
        },
    }
}

/// Both methods of a struct.
pub open spec fn struct_spec(attrs: Seq<Attribute>, f: Fields) -> Result<ArmPlanView, ExpandErrorView> {
    match variant_attrs_spec(attrs) {
        Err(e) => Err(ExpandErrorView::Attribute(e)),
        Ok(a) => match a {
            VariantAttr::Transparent => if field_count(f) == 1 {
                Ok(ArmPlanView { status: StatusPlan::Forward, message: MessagePlanView::Forward })
            } else {
                Err(ExpandErrorView::TransparentStruct)
            },
            VariantAttr::InheritMsg { status_code } => Ok(
                ArmPlanView {
                    status: status_or_default(status_code),
                    message: MessagePlanView::Display,
                },
            ),
            VariantAttr::Custom { msg: None, status_code } => Ok(
                ArmPlanView { status: status_or_default(status_code), message: MessagePlanView::Reason },
            ),
            VariantAttr::Custom { msg: Some(m), status_code } => {
                let message = match f {
                    Fields::Unnamed(n) => positional_spec(attrs, m, n as nat),
                    _ => Ok(MessagePlanView::Format(m)),
                };
                match message {
                    Err(e) => Err(e),
                    Ok(mp) => Ok(ArmPlanView { status: status_or_default(status_code), message: mp }),
                }
            },
        },
    }
}

/// The plans of the variants from position `k` on, after those in `acc`; the
/// first refused variant stops the derive.
pub open spec fn variants_from(vs: Seq<Variant>, k: int, acc: Seq<ArmPlanView>) -> Result<
    Seq<ArmPlanView>,
    DeriveErrorView,
>
    decreases vs.len() - k,
{
    if k < 0 || k >= vs.len() {
        Ok(acc)
    } else {
        match variant_spec(vs[k]) {
            Err(e) => Err(DeriveErrorView { variant: Some(k as usize), error: e }),
            Ok(a) => variants_from(vs, k + 1, acc.push(a)),
        }
    }
}

/// What the derive generates for an item.
pub open spec fn expand_spec(input: DeriveInput) -> Result<DerivePlanView, DeriveErrorView> {
    match input.data {
        Data::Struct(f) => match struct_spec(input.attrs@, f) {
            Err(e) => Err(DeriveErrorView { variant: None, error: e }),
            Ok(a) => Ok(DerivePlanView::Struct(a)),
        },
        Data::Enum(vs) => match variants_from(vs@, 0, seq![]) {
            Err(e) => Err(e),
            Ok(arms) => Ok(DerivePlanView::Enum(arms)),
        },
        Data::Union => Err(
            DeriveErrorView { variant: None, error: ExpandErrorView::UnsupportedData },
        ),
    }
}

/// The diagnostic of a refusal.
pub open spec fn expand_error_text(e: ExpandErrorView) -> Seq<char> {
    match e {
        ExpandErrorView::Attribute(a) => attr_error_text(a.error),
        ExpandErrorView::Format { error, .. } => format_error_text(error),
        ExpandErrorView::TransparentStruct => "the `#[api_error(transparent)]` attribute is only allowed on structs with only one field"@,
        ExpandErrorView::TransparentVariant => "the `#[api_error(transparent)]` attribute is only allowed on unamed variants with only one field"@,
        ExpandErrorView::UnsupportedData => "ApiError can only be derived for structs and enums"@,
    }
}

impl ExpandError {
    /// The diagnostic text of this refusal.
    pub fn message(&self) -> (r: String)
        ensures
            r@ == expand_error_text(self@),
    {
        match self {
            ExpandError::Attribute(a) => a.error.message(),
            ExpandError::Format { error, .. } => error.message(),
            ExpandError::TransparentStruct => "the `#[api_error(transparent)]` attribute is only allowed on structs with only one field".to_owned(),
            ExpandError::TransparentVariant => "the `#[api_error(transparent)]` attribute is only allowed on unamed variants with only one field".to_owned(),
            ExpandError::UnsupportedData => "ApiError can only be derived for structs and enums".to_owned(),
        }
    }
}

/// The name that an unnamed field is bound to in a pattern.
pub open spec fn binder_name(i: nat) -> Seq<char> {
    "__field"@ + decimal_chars(i)
}

/// The names that a struct's or variant's fields are bound to, in order.
pub open spec fn binders_spec(f: Fields) -> Seq<Seq<char>> {
    match f {
        Fields::Unit => seq![],
        Fields::Unnamed(n) => Seq::new(n as nat, |i: int| binder_name(i as nat)),
        Fields::Named(names) => names@.map_values(|s: String| s@),
    }
}

/// The names that the fields of a variant are bound to in its match pattern:
/// `__field0`, `__field1`, ... for unnamed fields, the field names otherwise.
pub fn expand_variant_pattern(fields: &Fields) -> (r: Vec<String>)
    ensures
        r@.map_values(|s: String| s@) == binders_spec(*fields),
{
    let mut r: Vec<String> = Vec::new();
    match fields {
        Fields::Unit => {
            assert(r@.map_values(|s: String| s@) =~= binders_spec(*fields));
        },
        Fields::Unnamed(n) => {
            let mut i: usize = 0;
            while i < *n
                invariant
                    i <= *n,
                    r@.map_values(|s: String| s@) =~= Seq::new(i as nat, |j: int| binder_name(j as nat)),
                decreases *n - i,
            {
                let mut name = "__field".to_owned();
                name.append(decimal(i).as_str());
                let ghost before = r@;
                let ghost nv = name@;
                r.push(name);
                assert(r@.map_values(|s: String| s@) =~= before.map_values(|s: String| s@).push(nv));
                i = i + 1;
            }
        },
        Fields::Named(names) => {
            let mut i: usize = 0;
            while i < names.len()
                invariant
                    i <= names@.len(),
                    r@.map_values(|s: String| s@) =~= names@.subrange(0, i as int).map_values(|s: String| s@),
                decreases names.len() - i,
            {
                let ghost before = r@;
                let name = names[i].clone();
                r.push(name);
                assert(r@.map_values(|s: String| s@) =~= before.map_values(|s: String| s@).push(
                    names@[i as int]@,
                ));
                assert(names@.subrange(0, i + 1).map_values(|s: String| s@) =~= names@.subrange(
                    0,
                    i as int,
                ).map_values(|s: String| s@).push(names@[i as int]@));
                i = i + 1;
            }
            assert(names@.subrange(0, i as int) =~= names@);
        },
    }
    r
}

pub open spec fn message_result_view(r: Result<MessagePlan, ExpandError>) -> Result<
    MessagePlanView,
    ExpandErrorView,
> {
    match r {
        Ok(m) => Ok(m@),
        Err(e) => Err(e@),
    }
}

pub open spec fn status_result_view(r: Result<StatusPlan, ExpandError>) -> Result<
    StatusPlan,
    ExpandErrorView,
> {
    match r {
        Ok(s) => Ok(s),
        Err(e) => Err(e@),
    }
}

pub open spec fn arm_result_view(r: Result<ArmPlan, ExpandError>) -> Result<
    ArmPlanView,
    ExpandErrorView,
> {
    match r {
        Ok(a) => Ok(a@),
        Err(e) => Err(e@),
    }
}

pub open spec fn derive_result_view(r: Result<DerivePlan, DeriveError>) -> Result<
    DerivePlanView,
    DeriveErrorView,
> {
    match r {
        Ok(p) => Ok(p@),
        Err(e) => Err(e@),
    }
}

/// The value of the message literal `m`.
fn message_value(attrs: &Vec<Attribute>, m: MessageLit) -> (v: String)
    requires
        lit_ok(attrs@, m),
    ensures
        v@ == lit_value(attrs@, m),
{
    match &attrs[m.attr].tokens[m.token] {
        Tok::Literal(text) => match string_literal(text.as_str()) {
            Some(v) => v,
            None => String::new(),
        },
        _ => String::new(),
    }
}

fn status_or_internal_error(s: Option<StatusValue>) -> (r: StatusPlan)
    ensures
        r == status_or_default(s),
{
    match s {
        Some(v) => StatusPlan::Given(v),
        None => StatusPlan::InternalServerError,
    }
}

/// Rewrites the message literal `m` for `n` unnamed fields.
fn expand_positional(attrs: &Vec<Attribute>, m: MessageLit, n: usize) -> (r: Result<
    MessagePlan,
    ExpandError,
>)
    requires
        lit_ok(attrs@, m),
    ensures
        message_result_view(r) == positional_spec(attrs@, m, n as nat),
{
    let v = message_value(attrs, m);
    let r = parse_unamed_msg_format(v.as_str(), n);
    assert(format_result_view(r) == unamed_format_spec(v@, n as nat));
    match r {
        Ok((fmt, args)) => Ok(MessagePlan::Positional { lit: m, fmt, args }),
        Err(error) => Err(ExpandError::Format { lit: m, error }),
    }
}

/// The `status_code` arm of an enum variant.
pub fn expand_status_arm(fields: &Fields, attr: &VariantAttr) -> (r: Result<StatusPlan, ExpandError>)
    ensures
        status_result_view(r) == variant_status_spec(*fields, *attr),
{
    match attr {
        VariantAttr::Transparent => match fields {
            Fields::Unnamed(n) if *n == 1 => Ok(StatusPlan::Forward),
            _ => Err(ExpandError::TransparentVariant),
        },
        VariantAttr::InheritMsg { status_code } => Ok(status_or_internal_error(*status_code)),
        VariantAttr::Custom { status_code, .. } => Ok(status_or_internal_error(*status_code)),
    }
}

/// The `message` arm of an enum variant.
pub fn expand_message_arm(attrs: &Vec<Attribute>, fields: &Fields, attr: VariantAttr) -> (r: Result<
    MessagePlan,
    ExpandError,
>)
    requires
        attr matches VariantAttr::Custom { msg: Some(m), .. } ==> lit_ok(attrs@, m),
    ensures
        message_result_view(r) == variant_message_spec(attrs@, *fields, attr),
{
    match attr {
        VariantAttr::Custom { msg: Some(m), .. } => match fields {
            Fields::Unnamed(n) => expand_positional(attrs, m, *n),
            _ => Ok(MessagePlan::Format(m)),
        },
        VariantAttr::Custom { msg: None, .. } => Ok(MessagePlan::Reason),
        VariantAttr::Transparent => match fields {
            Fields::Unnamed(n) if *n == 1 => Ok(MessagePlan::Forward),
            _ => Err(ExpandError::TransparentVariant),
        },
        VariantAttr::InheritMsg { .. } => Ok(MessagePlan::Display),
    }
}

/// Both arms of an enum variant.
pub fn expand_enum_variant(v: &Variant) -> (r: Result<ArmPlan, ExpandError>)
    ensures
        arm_result_view(r) == variant_spec(*v),
{
    let attr = match parse_variant_attrs(&v.attrs) {
        Ok(a) => a,
        Err(e) => {
            return Err(ExpandError::Attribute(e));
        },
    };
    proof {
        assert(v.attrs@.len() == v.attrs.len());
        lemma_variant_attrs_lit(v.attrs@);
    }
    let status = match expand_status_arm(&v.fields, &attr) {
        Ok(s) => s,
        Err(e) => {
            return Err(e);
        },
    };
    let message = match expand_message_arm(&v.attrs, &v.fields, attr) {
        Ok(m) => m,
        Err(e) => {
            return Err(e);
        },
    };
    Ok(ArmPlan { status, message })
}

fn fields_len(f: &Fields) -> (r: usize)
    ensures
        r as nat == field_count(*f),
{
    match f {
        Fields::Unit => 0,
        Fields::Unnamed(n) => *n,
        Fields::Named(names) => names.len(),
    }
}

/// Both methods of a struct.
pub fn expand_struct(attrs: &Vec<Attribute>, fields: &Fields) -> (r: Result<ArmPlan, ExpandError>)
    ensures
        arm_result_view(r) == struct_spec(attrs@, *fields),
{
    let attr = match parse_variant_attrs(attrs) {
        Ok(a) => a,
        Err(e) => {
            return Err(ExpandError::Attribute(e));
        },
    };
    proof {
        assert(attrs@.len() == attrs.len());
        lemma_variant_attrs_lit(attrs@);
    }
    match attr {
        VariantAttr::Transparent => if fields_len(fields) == 1 {
            Ok(ArmPlan { status: StatusPlan::Forward, message: MessagePlan::Forward })
        } else {
            Err(ExpandError::TransparentStruct)
        },
        VariantAttr::InheritMsg { status_code } => Ok(
            ArmPlan { status: status_or_internal_error(status_code), message: MessagePlan::Display },
        ),
        VariantAttr::Custom { msg: None, status_code } => Ok(
            ArmPlan { status: status_or_internal_error(status_code), message: MessagePlan::Reason },
        ),
        VariantAttr::Custom { msg: Some(m), status_code } => {
            let message = match fields {
                Fields::Unnamed(n) => match expand_positional(attrs, m, *n) {
                    Ok(p) => p,
                    Err(e) => {
                        return Err(e);
                    },
                },
                _ => MessagePlan::Format(m),
            };
            Ok(ArmPlan { status: status_or_internal_error(status_code), message })
        },
    }
}

/// The arms of all the variants of an enum, in order.
pub fn expand_enum(variants: &Vec<Variant>) -> (r: Result<DerivePlan, DeriveError>)
    ensures
        derive_result_view(r) == match variants_from(variants@, 0, seq![]) {
            Ok(arms) => Ok(DerivePlanView::Enum(arms)),
            Err(e) => Err(e),
        },
{
    let mut arms: Vec<ArmPlan> = Vec::new();
    let mut k: usize = 0;
    assert(arms@.map_values(|a: ArmPlan| a@) =~= Seq::<ArmPlanView>::empty());
    while k < variants.len()
        invariant
            k <= variants@.len(),
            variants_from(variants@, 0, seq![]) == variants_from(
                variants@,
                k as int,
                arms@.map_values(|a: ArmPlan| a@),
            ),
        decreases variants.len() - k,
    {
        match expand_enum_variant(&variants[k]) {
            Err(error) => {
                return Err(DeriveError { variant: Some(k), error });
            },
            Ok(a) => {
                let ghost before = arms@.map_values(|a: ArmPlan| a@);
                arms.push(a);
                assert(arms@.map_values(|a: ArmPlan| a@) =~= before.push(a@));
            },
        }
        k = k + 1;
    }
    Ok(DerivePlan::Enum(arms))
}

/// What the derive generates for an item: the plan of its methods, or why it
/// is refused.
pub fn expand(input: &DeriveInput) -> (r: Result<DerivePlan, DeriveError>)
    ensures
        derive_result_view(r) == expand_spec(*input),
{
    match &input.data {
        Data::Enum(vs) => expand_enum(vs),
        Data::Struct(f) => match expand_struct(&input.attrs, f) {
            Ok(a) => Ok(DerivePlan::Struct(a)),
            Err(error) => Err(DeriveError { variant: None, error }),
        },
        Data::Union => Err(DeriveError { variant: None, error: ExpandError::UnsupportedData }),
    }
}

} // verus!
