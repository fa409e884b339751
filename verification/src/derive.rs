//! Deriving a [`ChoiceSpace`](crate::choice::ChoiceSpace) from an enum's
//! declaration: which keys its variants have on the wire, and how they are
//! described.
//!
//! - **Key**: a variant's own `#[serde(rename = "...")]`, else the enum's
//!   `#[serde(rename_all = "...")]` convention applied to the variant's name,
//!   else the bare name.
//! - **Description**: the variant's doc comment, lines joined with spaces. It
//!   is required: an option without one would degrade the endpoint's ability
//!   to pick it.
use crate::names::{option_view, result_view};
use crate::question::Criteria;
use crate::text::{self, trim_text};
use heck::{
    ToKebabCase, ToLowerCamelCase, ToPascalCase, ToShoutyKebabCase, ToShoutySnakeCase, ToSnakeCase,
};
use vstd::prelude::*;

verus! {

/// What follows the name of an attribute's setting.
#[derive(Debug)]
pub enum MetaValue {
    /// Nothing: `name`.
    Bare,
    /// A string literal: `name = "text"`.
    Text(String),
    /// Anything else: another value, or a list.
    Other,
}

/// A [`MetaValue`], with its text as a sequence of characters.
pub enum MetaValueView {
    /// See [`MetaValue::Bare`].
    Bare,
    /// See [`MetaValue::Text`].
    Text(Seq<char>),
    /// See [`MetaValue::Other`].
    Other,
}

impl View for MetaValue {
    type V = MetaValueView;

    open spec fn view(&self) -> MetaValueView {
        match self {
            MetaValue::Bare => MetaValueView::Bare,
            MetaValue::Text(s) => MetaValueView::Text(s@),
            MetaValue::Other => MetaValueView::Other,
        }
    }
}

/// One setting of an attribute.
#[derive(Debug)]
pub struct MetaItem {
    /// Its name.
    pub name: String,
    /// What follows the name.
    pub value: MetaValue,
}

impl View for MetaItem {
    type V = (Seq<char>, MetaValueView);

    open spec fn view(&self) -> (Seq<char>, MetaValueView) {
        (self.name@, self.value@)
    }
}

/// An attribute of a declaration.
#[derive(Debug)]
pub struct Attribute {
    /// Its name.
    pub name: String,
    /// The string literal after its name, as in `name = "text"`.
    pub text: Option<String>,
    /// The settings in its brackets, in order; `None` where it has no brackets
    /// or what they hold is no list of settings.
    pub items: Option<Vec<MetaItem>>,
}

/// An [`Attribute`], with plain values for its parts.
pub struct AttributeView {
    /// Its name.
    pub name: Seq<char>,
    /// The string literal after its name.
    pub text: Option<Seq<char>>,
    /// The settings in its brackets.
    pub items: Option<Seq<(Seq<char>, MetaValueView)>>,
}

/// The views of a sequence of settings.
pub open spec fn item_views(items: Seq<MetaItem>) -> Seq<(Seq<char>, MetaValueView)> {
    items.map_values(|i: MetaItem| i@)
}

impl View for Attribute {
    type V = AttributeView;

    open spec fn view(&self) -> AttributeView {
        AttributeView {
            name: self.name@,
            text: option_view(self.text),
            items: match self.items {
                Some(items) => Some(item_views(items@)),
                None => None,
            },
        }
    }
}

/// The views of a sequence of attributes.
pub open spec fn attribute_views(attributes: Seq<Attribute>) -> Seq<AttributeView> {
    attributes.map_values(|a: Attribute| a@)
}

/// The declaration of one variant.
#[derive(Debug)]
pub struct VariantDecl {
    /// Its name.
    pub ident: String,
    /// Whether it has no fields.
    pub unit: bool,
    /// Its attributes, in order. Each line of a doc comment is one.
    pub attributes: Vec<Attribute>,
}

/// A [`VariantDecl`], with plain values for its parts.
pub struct VariantView {
    /// Its name.
    pub ident: Seq<char>,
    /// Whether it has no fields.
    pub unit: bool,
    /// Its attributes.
    pub attributes: Seq<AttributeView>,
}

impl View for VariantDecl {
    type V = VariantView;

    open spec fn view(&self) -> VariantView {
        VariantView {
            ident: self.ident@,
            unit: self.unit,
            attributes: attribute_views(self.attributes@),
        }
    }
}

/// The views of a sequence of variants.
pub open spec fn variant_views(variants: Seq<VariantDecl>) -> Seq<VariantView> {
    variants.map_values(|v: VariantDecl| v@)
}

/// The declaration of a type.
#[derive(Debug)]
pub struct Declaration {
    /// Its attributes, in order.
    pub attributes: Vec<Attribute>,
    /// Its variants, in order; `None` where it is no enum.
    pub variants: Option<Vec<VariantDecl>>,
}

/// A [`Declaration`], with plain values for its parts.
pub struct DeclarationView {
    /// Its attributes.
    pub attributes: Seq<AttributeView>,
    /// Its variants.
    pub variants: Option<Seq<VariantView>>,
}

impl View for Declaration {
    type V = DeclarationView;

    open spec fn view(&self) -> DeclarationView {
        DeclarationView {
            attributes: attribute_views(self.attributes@),
            variants: match self.variants {
                Some(variants) => Some(variant_views(variants@)),
                None => None,
            },
        }
    }
}

/// One option of a derived choice.
#[derive(Debug)]
pub struct Arm {
    /// Its key on the wire.
    pub key: String,
    /// Its description.
    pub description: String,
    /// The variant it stands for.
    pub ident: String,
}

/// An [`Arm`], with texts as sequences of characters.
pub struct ArmView {
    /// Its key.
    pub key: Seq<char>,
    /// Its description.
    pub description: Seq<char>,
    /// The variant it stands for.
    pub ident: Seq<char>,
}

impl View for Arm {
    type V = ArmView;

    open spec fn view(&self) -> ArmView {
        ArmView { key: self.key@, description: self.description@, ident: self.ident@ }
    }
}

/// The views of a sequence of options.
pub open spec fn arm_views(arms: Seq<Arm>) -> Seq<ArmView> {
    arms.map_values(|a: Arm| a@)
}

/// Why a choice cannot be derived.
#[derive(Debug)]
pub struct DeriveError {
    /// The place of the variant that is to blame; `None` where the whole
    /// declaration is.
    pub variant: Option<usize>,
    /// What is wrong.
    pub message: String,
}

/// A [`DeriveError`], with its text as a sequence of characters.
pub struct DeriveErrorView {
    /// The place of the variant that is to blame.
    pub variant: Option<usize>,
    /// What is wrong.
    pub message: Seq<char>,
}

impl View for DeriveError {
    type V = DeriveErrorView;

    open spec fn view(&self) -> DeriveErrorView {
        DeriveErrorView { variant: self.variant, message: self.message@ }
    }
}

/// The text of the last setting with a name that has one.
pub open spec fn found_in(
    items: Seq<(Seq<char>, MetaValueView)>,
    name: Seq<char>,
) -> Option<Seq<char>>
    decreases items.len(),
{
    if items.len() == 0 {
        None
    } else if items.last().0 == name && items.last().1 is Text {
        Some(items.last().1->Text_0)
    } else {
        found_in(items.drop_last(), name)
    }
}

/// The text that an attribute gives a setting, where it is a `serde` attribute
/// that has it.
pub open spec fn given_by(attribute: AttributeView, name: Seq<char>) -> Option<Seq<char>> {
    match attribute.items {
        Some(items) => if attribute.name == "serde"@ {
            found_in(items, name)
        } else {
            None
        },
        None => None,
    }
}

/// The text that the first attribute with such a setting gives. Other
/// attributes, and anything else in an attribute, are passed over.
pub open spec fn setting(attributes: Seq<AttributeView>, name: Seq<char>) -> Option<Seq<char>>
    decreases attributes.len(),
{
    if attributes.len() == 0 {
        None
    } else {
        match given_by(attributes[0], name) {
            Some(text) => Some(text),
            None => setting(attributes.drop_first(), name),
        }
    }
}

/// What `str::to_lowercase` gives.
pub uninterp spec fn lower_case(s: Seq<char>) -> Seq<char>;

/// What `str::to_uppercase` gives.
pub uninterp spec fn upper_case(s: Seq<char>) -> Seq<char>;

/// What `heck::ToPascalCase` gives.
pub uninterp spec fn pascal_case(s: Seq<char>) -> Seq<char>;

/// What `heck::ToLowerCamelCase` gives.
pub uninterp spec fn camel_case(s: Seq<char>) -> Seq<char>;

/// What `heck::ToSnakeCase` gives.
pub uninterp spec fn snake_case(s: Seq<char>) -> Seq<char>;

/// What `heck::ToShoutySnakeCase` gives.
pub uninterp spec fn shouty_snake_case(s: Seq<char>) -> Seq<char>;

/// What `heck::ToKebabCase` gives.
pub uninterp spec fn kebab_case(s: Seq<char>) -> Seq<char>;

/// What `heck::ToShoutyKebabCase` gives.
pub uninterp spec fn shouty_kebab_case(s: Seq<char>) -> Seq<char>;

/// Calls `str::to_lowercase`; the result is a function of the text alone.
#[verifier::external_body]
fn to_lower(s: &str) -> (r: String)
    ensures
        r@ == lower_case(s@),
{
    s.to_lowercase()
}

/// Calls `str::to_uppercase`; the result is a function of the text alone.
#[verifier::external_body]
fn to_upper(s: &str) -> (r: String)
    ensures
        r@ == upper_case(s@),
{
    s.to_uppercase()
}

/// Calls `heck::ToPascalCase::to_pascal_case`; the result is a function of the
/// text alone.
#[verifier::external_body]
fn to_pascal(s: &str) -> (r: String)
    ensures
        r@ == pascal_case(s@),
{
    s.to_pascal_case()
}

/// Calls `heck::ToLowerCamelCase::to_lower_camel_case`; the result is a
/// function of the text alone.
#[verifier::external_body]
fn to_camel(s: &str) -> (r: String)
    ensures
        r@ == camel_case(s@),
{
    s.to_lower_camel_case()
}

/// Calls `heck::ToSnakeCase::to_snake_case`; the result is a function of the
/// text alone.
#[verifier::external_body]
fn to_snake(s: &str) -> (r: String)
    ensures
        r@ == snake_case(s@),
{
    s.to_snake_case()
}

/// Calls `heck::ToShoutySnakeCase::to_shouty_snake_case`; the result is a
/// function of the text alone.
#[verifier::external_body]
fn to_shouty_snake(s: &str) -> (r: String)
    ensures
        r@ == shouty_snake_case(s@),
{
    s.to_shouty_snake_case()
}

/// Calls `heck::ToKebabCase::to_kebab_case`; the result is a function of the
/// text alone.
#[verifier::external_body]
fn to_kebab(s: &str) -> (r: String)
    ensures
        r@ == kebab_case(s@),
{
    s.to_kebab_case()
}

/// Calls `heck::ToShoutyKebabCase::to_shouty_kebab_case`; the result is a
/// function of the text alone.
#[verifier::external_body]
fn to_shouty_kebab(s: &str) -> (r: String)
    ensures
        r@ == shouty_kebab_case(s@),
{
    s.to_shouty_kebab_case()
}

/// A name under a renaming convention; a convention that is none leaves it as
/// it is.
pub open spec fn renamed(name: Seq<char>, convention: Option<Seq<char>>) -> Seq<char> {
    match convention {
        None => name,
        Some(c) => if c == "lowercase"@ {
            lower_case(name)
        } else if c == "UPPERCASE"@ {
            upper_case(name)
        } else if c == "PascalCase"@ {
            pascal_case(name)
        } else if c == "camelCase"@ {
            camel_case(name)
        } else if c == "snake_case"@ {
            snake_case(name)
        } else if c == "SCREAMING_SNAKE_CASE"@ {
            shouty_snake_case(name)
        } else if c == "kebab-case"@ {
            kebab_case(name)
        } else if c == "SCREAMING-KEBAB-CASE"@ {
            shouty_kebab_case(name)
        } else {
            name
        },
    }
}

/// The key of a variant: its own name for the wire, else its name under the
/// enum's convention.
pub open spec fn key_of(variant: VariantView, rename_all: Option<Seq<char>>) -> Seq<char> {
    match setting(variant.attributes, "rename"@) {
        Some(key) => key,
        None => renamed(variant.ident, rename_all),
    }
}

/// The line of a doc comment that an attribute is, trimmed; nothing of any
/// other attribute.
pub open spec fn doc_line(attribute: AttributeView) -> Seq<char> {
    match attribute.text {
        Some(line) => if attribute.name == "doc"@ {
            trim_text(line)
        } else {
            Seq::empty()
        },
        None => Seq::empty(),
    }
}

/// The lines of a doc comment, trimmed and joined with spaces; blank ones are
/// left out.
pub open spec fn doc_text(attributes: Seq<AttributeView>) -> Seq<char>
    decreases attributes.len(),
{
    if attributes.len() == 0 {
        Seq::empty()
    } else {
        let front = doc_text(attributes.drop_last());
        let line = doc_line(attributes.last());
        if line.len() == 0 {
            front
        } else if front.len() == 0 {
            line
        } else {
            front + " "@ + line
        }
    }
}

/// The option that a variant gives, or what is wrong with it.
pub open spec fn arm_of(variant: VariantView, rename_all: Option<Seq<char>>) -> Result<
    ArmView,
    Seq<char>,
> {
    if !variant.unit {
        Err(
            "ooda::Choice only supports unit variants (no fields) -- a Choice option is a bounded name, not a payload"@,
        )
    } else if doc_text(variant.attributes).len() == 0 {
        Err(
            "variant `"@ + variant.ident
                + "` needs a doc comment (`/// ...`) -- a Choice option with no description degrades the endpoint's ability to pick it correctly"@,
        )
    } else {
        Ok(
            ArmView {
                key: key_of(variant, rename_all),
                description: doc_text(variant.attributes),
                ident: variant.ident,
            },
        )
    }
}

/// The options that variants give, or what is wrong with the first that gives
/// none.
pub open spec fn arms_of(variants: Seq<VariantView>, rename_all: Option<Seq<char>>) -> Result<
    Seq<ArmView>,
    DeriveErrorView,
>
    decreases variants.len(),
{
    if variants.len() == 0 {
        Ok(Seq::empty())
    } else {
        match arms_of(variants.drop_last(), rename_all) {
            Err(e) => Err(e),
            Ok(front) => match arm_of(variants.last(), rename_all) {
                Err(message) => Err(
                    DeriveErrorView { variant: Some((variants.len() - 1) as usize), message },
                ),
                Ok(arm) => Ok(front.push(arm)),
            },
        }
    }
}

/// The options of a declaration, or why it has none.
pub open spec fn expansion(declaration: DeclarationView) -> Result<Seq<ArmView>, DeriveErrorView> {
    match declaration.variants {
        None => Err(
            DeriveErrorView {
                variant: None,
                message: "ooda::Choice can only be derived for an enum"@,
            },
        ),
        Some(variants) => arms_of(variants, setting(declaration.attributes, "rename_all"@)),
    }
}

/// The view of a list of options that may not be there.
pub open spec fn arms_view(result: Result<Vec<Arm>, DeriveError>) -> Result<
    Seq<ArmView>,
    DeriveErrorView,
> {
    match result {
        Ok(arms) => Ok(arm_views(arms@)),
        Err(e) => Err(e@),
    }
}

proof fn lemma_found_at(
    items: Seq<(Seq<char>, MetaValueView)>,
    name: Seq<char>,
    n: int,
    found: Option<Seq<char>>,
)
    requires
        0 <= n < items.len(),
        found == found_in(items.take(n), name),
    ensures
        found_in(items.take(n + 1), name) == if items[n].0 == name && items[n].1 is Text {
            Some(items[n].1->Text_0)
        } else {
            found
        },
{
    let next = items.take(n + 1);
    assert(next.drop_last() =~= items.take(n));
}

fn find_text(items: &Vec<MetaItem>, name: &str) -> (r: Option<String>)
    ensures
        option_view(r) == found_in(item_views(items@), name@),
{
    let ghost all = item_views(items@);
    let mut found: Option<String> = None;
    let mut i: usize = 0;
    assert(all.take(0) =~= Seq::<(Seq<char>, MetaValueView)>::empty());
    while i < items.len()
        invariant
            i <= items@.len(),
            all == item_views(items@),
            option_view(found) == found_in(all.take(i as int), name@),
        decreases items@.len() - i,
    {
        let item = &items[i];
        proof {
            assert(all[i as int] == item@);
            lemma_found_at(all, name@, i as int, option_view(found));
        }
        if text::same(item.name.as_str(), name) {
            if let MetaValue::Text(s) = &item.value {
                found = Some(s.clone());
            }
        }
        i += 1;
    }
    assert(all.take(i as int) =~= all);
    found
}

fn find_setting(attributes: &Vec<Attribute>, name: &str) -> (r: Option<String>)
    ensures
        option_view(r) == setting(attribute_views(attributes@), name@),
{
    let ghost all = attribute_views(attributes@);
    let mut i: usize = 0;
    assert(all.skip(0) =~= all);
    while i < attributes.len()
        invariant
            i <= attributes@.len(),
            all == attribute_views(attributes@),
            setting(all, name@) == setting(all.skip(i as int), name@),
        decreases attributes@.len() - i,
    {
        let attribute = &attributes[i];
        proof {
            let rest = all.skip(i as int);
            assert(rest[0] == attribute@);
            assert(rest.drop_first() =~= all.skip(i + 1));
        }
        if let Some(items) = &attribute.items {
            if text::same(attribute.name.as_str(), "serde") {
                let found = find_text(items, name);
                if found.is_some() {
                    return found;
                }
            }
        }
        i += 1;
    }
    None
}

/// Reads the enum's own `#[serde(rename_all = "...")]`, if it has one.
pub fn enum_rename_all(declaration: &Declaration) -> (r: Option<String>)
    ensures
        option_view(r) == setting(declaration@.attributes, "rename_all"@),
{
    find_setting(&declaration.attributes, "rename_all")
}

/// Reads a variant's own `#[serde(rename = "...")]`, if it has one.
pub fn serde_rename(variant: &VariantDecl) -> (r: Option<String>)
    ensures
        option_view(r) == setting(variant@.attributes, "rename"@),
{
    find_setting(&variant.attributes, "rename")
}

/// The key of a variant on the wire.
pub fn variant_key(variant: &VariantDecl, rename_all: &Option<String>) -> (r: String)
    ensures
        r@ == key_of(variant@, option_view(*rename_all)),
{
    if let Some(key) = serde_rename(variant) {
        return key;
    }
    let raw = variant.ident.as_str();
    let convention = match rename_all {
        Some(convention) => convention.as_str(),
        None => {
            return raw.to_owned();
        },
    };
    if text::same(convention, "lowercase") {
        to_lower(raw)
    } else if text::same(convention, "UPPERCASE") {
        to_upper(raw)
    } else if text::same(convention, "PascalCase") {
        to_pascal(raw)
    } else if text::same(convention, "camelCase") {
        to_camel(raw)
    } else if text::same(convention, "snake_case") {
        to_snake(raw)
    } else if text::same(convention, "SCREAMING_SNAKE_CASE") {
        to_shouty_snake(raw)
    } else if text::same(convention, "kebab-case") {
        to_kebab(raw)
    } else if text::same(convention, "SCREAMING-KEBAB-CASE") {
        to_shouty_kebab(raw)
    } else {
        raw.to_owned()
    }
}

/// The text of a doc comment.
pub fn doc_comment(attributes: &Vec<Attribute>) -> (r: String)
    ensures
        r@ == doc_text(attribute_views(attributes@)),
{
    let ghost all = attribute_views(attributes@);
    let mut out = String::new();
    let mut i: usize = 0;
    assert(all.take(0) =~= Seq::<AttributeView>::empty());
    assert(out@ =~= Seq::<char>::empty());
    while i < attributes.len()
        invariant
            i <= attributes@.len(),
            all == attribute_views(attributes@),
            out@ == doc_text(all.take(i as int)),
        decreases attributes@.len() - i,
    {
        let attribute = &attributes[i];
        proof {
            let next = all.take(i + 1);
            assert(next.drop_last() =~= all.take(i as int));
            assert(next.last() == attribute@);
        }
        if let Some(line) = &attribute.text {
            if text::same(attribute.name.as_str(), "doc") {
                let line = text::trim(line.as_str());
                if !line.as_str().is_empty() {
                    if out.as_str().is_empty() {
                        out = line;
                    } else {
                        out = text::join3(out.as_str(), " ", line.as_str());
                    }
                }
            }
        }
        i += 1;
    }
    assert(all.take(i as int) =~= all);
    out
}

/// The description of a variant; an error where it has no doc comment.
pub fn variant_description(variant: &VariantDecl) -> (r: Result<String, String>)
    ensures
        doc_text(variant@.attributes).len() > 0 ==> result_view(r) == Ok::<Seq<char>, Seq<char>>(
            doc_text(variant@.attributes),
        ),
        doc_text(variant@.attributes).len() == 0 ==> result_view(r) == Err::<Seq<char>, Seq<char>>(
            "variant `"@ + variant@.ident
                + "` needs a doc comment (`/// ...`) -- a Choice option with no description degrades the endpoint's ability to pick it correctly"@,
        ),
{
    let doc = doc_comment(&variant.attributes);
    if !doc.as_str().is_empty() {
        return Ok(doc);
    }
    Err(
        text::join3(
            "variant `",
            variant.ident.as_str(),
            "` needs a doc comment (`/// ...`) -- a Choice option with no description degrades the endpoint's ability to pick it correctly",
        ),
    )
}

fn arm(variant: &VariantDecl, rename_all: &Option<String>) -> (r: Result<Arm, String>)
    ensures
        result_view(r) == arm_of(variant@, option_view(*rename_all)),
{
    if !variant.unit {
        return Err(
            "ooda::Choice only supports unit variants (no fields) -- a Choice option is a bounded name, not a payload".to_owned(),
        );
    }
    let key = variant_key(variant, rename_all);
    match variant_description(variant) {
        Ok(description) => Ok(Arm { key, description, ident: variant.ident.clone() }),
        Err(message) => Err(message),
    }
}

proof fn lemma_first_bad_variant(
    variants: Seq<VariantView>,
    rename_all: Option<Seq<char>>,
    i: int,
)
    requires
        0 <= i < variants.len(),
        arms_of(variants.take(i), rename_all) is Ok,
        arm_of(variants[i], rename_all) is Err,
    ensures
        arms_of(variants, rename_all) == Err::<Seq<ArmView>, DeriveErrorView>(
            DeriveErrorView {
                variant: Some(i as usize),
                message: arm_of(variants[i], rename_all)->Err_0,
            },
        ),
    decreases variants.len(),
{
    if i < variants.len() - 1 {
        let front = variants.drop_last();
        assert(front.take(i) =~= variants.take(i));
        lemma_first_bad_variant(front, rename_all, i);
    }
}

/// The options of a declaration, one per variant and in order; an error where
/// it is no enum, or for the first variant that has fields or no doc comment.
pub fn expand(declaration: &Declaration) -> (r: Result<Vec<Arm>, DeriveError>)
    ensures
        arms_view(r) == expansion(declaration@),
{
    let variants = match &declaration.variants {
        Some(variants) => variants,
        None => {
            return Err(
                DeriveError {
                    variant: None,
                    message: "ooda::Choice can only be derived for an enum".to_owned(),
                },
            );
        },
    };
    let rename_all = enum_rename_all(declaration);
    let ghost all = variant_views(variants@);
    let ghost convention = option_view(rename_all);
    let mut out: Vec<Arm> = Vec::new();
    let mut i: usize = 0;
    assert(arm_views(out@) =~= Seq::<ArmView>::empty());
    while i < variants.len()
        invariant
            i <= variants@.len(),
            all == variant_views(variants@),
            declaration.variants == Some(*variants),
            convention == option_view(rename_all),
            convention == setting(declaration@.attributes, "rename_all"@),
            arms_of(all.take(i as int), convention) == Ok::<Seq<ArmView>, DeriveErrorView>(
                arm_views(out@),
            ),
        decreases variants@.len() - i,
    {
        proof {
            let next = all.take(i + 1);
            assert(next.drop_last() =~= all.take(i as int));
        }
        match arm(&variants[i], &rename_all) {
            Ok(one) => {
                let ghost before = arm_views(out@);
                out.push(one);
                assert(arm_views(out@) =~= before.push(one@));
            },
            Err(message) => {
                proof {
                    lemma_first_bad_variant(all, convention, i as int);
                }
                return Err(DeriveError { variant: Some(i), message });
            },
        }
        i += 1;
    }
    assert(all.take(i as int) =~= all);
    Ok(out)
}

/// The option set of a derived choice: each key with its description.
pub open spec fn arm_pairs(arms: Seq<ArmView>) -> Seq<(Seq<char>, Seq<char>)> {
    arms.map_values(|a: ArmView| (a.key, a.description))
}

/// The place of the first option with a key.
pub open spec fn arm_place(arms: Seq<ArmView>, key: Seq<char>) -> Option<int>
    decreases arms.len(),
{
    if arms.len() == 0 {
        None
    } else if arms[0].key == key {
        Some(0)
    } else {
        match arm_place(arms.drop_first(), key) {
            Some(i) => Some(i + 1),
            None => None,
        }
    }
}

/// The option set of a derived choice, in declaration order.
pub fn options_of(arms: &Vec<Arm>) -> (r: Criteria)
    ensures
        r@ == arm_pairs(arm_views(arms@)),
{
    let mut out = Criteria::new();
    let mut i: usize = 0;
    while i < arms.len()
        invariant
            i <= arms@.len(),
            out@.len() == i,
            forall|j: int|
                0 <= j < i ==> #[trigger] out@[j] == (arms@[j].key@, arms@[j].description@),
        decreases arms@.len() - i,
    {
        out.push(arms[i].key.as_str(), arms[i].description.as_str());
        i += 1;
    }
    out
}

proof fn lemma_arm_place(arms: Seq<ArmView>, key: Seq<char>, i: int)
    requires
        0 <= i <= arms.len(),
        forall|j: int| 0 <= j < i ==> (#[trigger] arms[j]).key != key,
        i < arms.len() ==> arms[i].key == key,
    ensures
        arm_place(arms, key) == if i < arms.len() {
            Some(i)
        } else {
            None
        },
    decreases arms.len(),
{
    if i > 0 {
        let rest = arms.drop_first();
        lemma_arm_place(rest, key, i - 1);
    }
}

/// The place of the variant that a wire key stands for; `None` for a key
/// outside the option set.
pub fn variant_of_key(arms: &Vec<Arm>, key: &str) -> (r: Option<usize>)
    ensures
        match r {
            Some(i) => arm_place(arm_views(arms@), key@) == Some(i as int) && i < arms@.len(),
            None => arm_place(arm_views(arms@), key@) is None,
        },
{
    let ghost all = arm_views(arms@);
    let mut i: usize = 0;
    while i < arms.len()
        invariant
            i <= arms@.len(),
            all == arm_views(arms@),
            forall|j: int| 0 <= j < i ==> (#[trigger] all[j]).key != key@,
        decreases arms@.len() - i,
    {
        if text::same(arms[i].key.as_str(), key) {
            proof {
                lemma_arm_place(all, key@, i as int);
            }
            return Some(i);
        }
        i += 1;
    }
    proof {
        lemma_arm_place(all, key@, i as int);
    }
    None
}

/// The option set and the reading of its answers cannot drift apart: every key
/// that is offered is read back as a variant with that key, as its own variant
/// where no two keys are the same, and no other key is.
pub proof fn law_options_are_read_back(arms: Seq<ArmView>, i: int, key: Seq<char>)
    requires
        0 <= i < arms.len(),
    ensures
        arm_place(arms, arms[i].key) matches Some(j) && 0 <= j <= i && arms[j].key == arms[i].key,
        (forall|a: int, b: int| 0 <= a < b < arms.len() ==> arms[a].key != arms[b].key)
            ==> arm_place(arms, arms[i].key) == Some(i),
        arm_place(arms, key) is Some == arm_pairs(arms).map_values(
            |p: (Seq<char>, Seq<char>)| p.0,
        ).contains(key),
{
    lemma_placed(arms, arms[i].key, i);
    let keys = arm_pairs(arms).map_values(|p: (Seq<char>, Seq<char>)| p.0);
    if keys.contains(key) {
        let at = choose|at: int| 0 <= at < keys.len() && keys[at] == key;
        lemma_placed(arms, key, at);
    } else {
        assert forall|j: int| 0 <= j < arms.len() implies (#[trigger] arms[j]).key != key by {
            assert(keys[j] == arms[j].key);
        }
        lemma_arm_place(arms, key, arms.len() as int);
    }
}

proof fn lemma_placed(arms: Seq<ArmView>, key: Seq<char>, i: int)
    requires
        0 <= i < arms.len(),
        arms[i].key == key,
    ensures
        arm_place(arms, key) matches Some(j) && 0 <= j <= i && arms[j].key == key,
    decreases arms.len(),
{
    if arms[0].key != key {
        lemma_placed(arms.drop_first(), key, i - 1);
    }
}

/// A variant's own name for the wire wins over the enum's convention, which
/// wins over the bare name.
pub proof fn law_key_precedence(variant: VariantView, rename_all: Option<Seq<char>>)
    ensures
        setting(variant.attributes, "rename"@) is Some ==> key_of(variant, rename_all) == setting(
            variant.attributes,
            "rename"@,
        )->0,
        setting(variant.attributes, "rename"@) is None && rename_all is None ==> key_of(
            variant,
            rename_all,
        ) == variant.ident,
{
}

/// A derived choice has one option per variant, in order, each with a
/// description.
pub proof fn law_one_option_per_variant(variants: Seq<VariantView>, rename_all: Option<Seq<char>>)
    ensures
        arms_of(variants, rename_all) matches Ok(arms) ==> arms.len() == variants.len() && forall|
            i: int,
        |
            0 <= i < arms.len() ==> (#[trigger] arms[i]).ident == variants[i].ident
                && arms[i].key == key_of(variants[i], rename_all) && arms[i].description
                == doc_text(variants[i].attributes) && arms[i].description.len() > 0,
    decreases variants.len(),
{
    if variants.len() > 0 {
        law_one_option_per_variant(variants.drop_last(), rename_all);
    }
}

/// Whether an attribute says nothing of a setting: it is no `serde` attribute,
/// has no settings, or none of them has the name and a text.
pub open spec fn silent(attribute: AttributeView, name: Seq<char>) -> bool {
    attribute.name != "serde"@ || attribute.items is None || forall|m: int|
        0 <= m < attribute.items->0.len() ==> (#[trigger] attribute.items->0[m]).0 != name || !(
        attribute.items->0[m].1 is Text)
}

/// A setting is read from the first `serde` attribute that gives it a text, and
/// within it from the last place that does; where no attribute does there is
/// none.
pub proof fn law_setting_comes_from_the_first_attribute_that_has_it(
    attributes: Seq<AttributeView>,
    name: Seq<char>,
    i: int,
    k: int,
    text: Seq<char>,
)
    requires
        0 <= i <= attributes.len(),
        forall|j: int| 0 <= j < i ==> silent(#[trigger] attributes[j], name),
    ensures
        i == attributes.len() ==> setting(attributes, name) is None,
        i < attributes.len() && attributes[i].name == "serde"@ ==> (attributes[i].items
            matches Some(items) ==> 0 <= k < items.len() && items[k] == (
            name,
            MetaValueView::Text(text),
        ) && (forall|m: int|
            k < m < items.len() ==> (#[trigger] items[m]).0 != name || !(items[m].1 is Text))
            ==> setting(attributes, name) == Some(text)),
    decreases attributes.len(),
{
    if i > 0 {
        let rest = attributes.drop_first();
        assert(silent(attributes[0], name));
        if let Some(items) = attributes[0].items {
            if attributes[0].name == "serde"@ {
                assert forall|m: int| 0 <= m < items.len() implies (#[trigger] items[m]).0 != name
                    || !(items[m].1 is Text) by {
                    assert(attributes[0].items->0[m].0 != name || !(attributes[0].items->0[m].1
                        is Text));
                }
                lemma_nothing_found(items, name);
            }
        }
        assert(given_by(attributes[0], name) is None);
        assert forall|j: int| 0 <= j < i - 1 implies silent(#[trigger] rest[j], name) by {
            assert(rest[j] == attributes[j + 1]);
        }
        law_setting_comes_from_the_first_attribute_that_has_it(rest, name, i - 1, k, text);
    } else if attributes.len() > 0 && attributes[0].name == "serde"@ {
        if let Some(items) = attributes[0].items {
            if 0 <= k < items.len() && items[k] == (name, MetaValueView::Text(text)) && (forall|
                m: int,
            |
                k < m < items.len() ==> (#[trigger] items[m]).0 != name || !(items[m].1 is Text)) {
                lemma_last_found(items, name, k);
            }
        }
    }
}

proof fn lemma_nothing_found(items: Seq<(Seq<char>, MetaValueView)>, name: Seq<char>)
    requires
        forall|m: int|
            0 <= m < items.len() ==> (#[trigger] items[m]).0 != name || !(items[m].1 is Text),
    ensures
        found_in(items, name) is None,
    decreases items.len(),
{
    if items.len() > 0 {
        assert(items[items.len() - 1].0 != name || !(items[items.len() - 1].1 is Text));
        lemma_nothing_found(items.drop_last(), name);
    }
}

proof fn lemma_last_found(items: Seq<(Seq<char>, MetaValueView)>, name: Seq<char>, k: int)
    requires
        0 <= k < items.len(),
        items[k].0 == name,
        items[k].1 is Text,
        forall|m: int|
            k < m < items.len() ==> (#[trigger] items[m]).0 != name || !(items[m].1 is Text),
    ensures
        found_in(items, name) == Some(items[k].1->Text_0),
    decreases items.len(),
{
    if k < items.len() - 1 {
        assert(items[items.len() - 1].0 != name || !(items[items.len() - 1].1 is Text));
        lemma_last_found(items.drop_last(), name, k);
    }
}

/// A name is written under the convention that the enum names, in the words of
/// `serde`, and as it stands under none or an unknown one.
pub proof fn law_conventions(name: Seq<char>, convention: Seq<char>)
    ensures
        renamed(name, None) == name,
        renamed(name, Some("lowercase"@)) == lower_case(name),
        renamed(name, Some("UPPERCASE"@)) == upper_case(name),
        renamed(name, Some("PascalCase"@)) == pascal_case(name),
        renamed(name, Some("camelCase"@)) == camel_case(name),
        renamed(name, Some("snake_case"@)) == snake_case(name),
        renamed(name, Some("SCREAMING_SNAKE_CASE"@)) == shouty_snake_case(name),
        renamed(name, Some("kebab-case"@)) == kebab_case(name),
        renamed(name, Some("SCREAMING-KEBAB-CASE"@)) == shouty_kebab_case(name),
        convention != "lowercase"@ && convention != "UPPERCASE"@ && convention != "PascalCase"@
            && convention != "camelCase"@ && convention != "snake_case"@ && convention
            != "SCREAMING_SNAKE_CASE"@ && convention != "kebab-case"@ && convention
            != "SCREAMING-KEBAB-CASE"@ ==> renamed(name, Some(convention)) == name,
{
    reveal_strlit("lowercase");
    reveal_strlit("UPPERCASE");
    reveal_strlit("PascalCase");
    reveal_strlit("camelCase");
    reveal_strlit("snake_case");
    reveal_strlit("SCREAMING_SNAKE_CASE");
    reveal_strlit("kebab-case");
    reveal_strlit("SCREAMING-KEBAB-CASE");
    assert("lowercase"@.len() == 9 && "lowercase"@[0] == 'l');
    assert("UPPERCASE"@.len() == 9 && "UPPERCASE"@[0] == 'U');
    assert("PascalCase"@.len() == 10 && "PascalCase"@[0] == 'P');
    assert("camelCase"@.len() == 9 && "camelCase"@[0] == 'c');
    assert("snake_case"@.len() == 10 && "snake_case"@[0] == 's');
    assert("SCREAMING_SNAKE_CASE"@.len() == 20 && "SCREAMING_SNAKE_CASE"@[9] == '_');
    assert("kebab-case"@.len() == 10 && "kebab-case"@[0] == 'k');
    assert("SCREAMING-KEBAB-CASE"@.len() == 20 && "SCREAMING-KEBAB-CASE"@[9] == '-');
}

/// A variant without a name of its own for the wire has its name under the
/// enum's convention as its key.
pub proof fn law_key_without_a_name_of_its_own(
    variant: VariantView,
    rename_all: Option<Seq<char>>,
)
    requires
        forall|j: int|
            0 <= j < variant.attributes.len() ==> silent(
                #[trigger] variant.attributes[j],
                "rename"@,
            ),
    ensures
        key_of(variant, rename_all) == renamed(variant.ident, rename_all),
{
    law_setting_comes_from_the_first_attribute_that_has_it(
        variant.attributes,
        "rename"@,
        variant.attributes.len() as int,
        0,
        Seq::empty(),
    );
}

/// Each line of a doc comment adds itself to the description, trimmed and with
/// a space before it where something stands there already; a blank line and any
/// other attribute add nothing.
pub proof fn law_description_is_the_doc_comment(
    attributes: Seq<AttributeView>,
    attribute: AttributeView,
    line: Seq<char>,
)
    ensures
        doc_text(Seq::<AttributeView>::empty()).len() == 0,
        attribute.name != "doc"@ || attribute.text is None || attribute.text == Some(line)
            && trim_text(line).len() == 0 ==> doc_text(attributes.push(attribute)) == doc_text(
            attributes,
        ),
        attribute.name == "doc"@ && attribute.text == Some(line) && trim_text(line).len() > 0
            ==> doc_text(attributes.push(attribute)) == if doc_text(attributes).len() == 0 {
            trim_text(line)
        } else {
            doc_text(attributes) + " "@ + trim_text(line)
        },
{
    assert(attributes.push(attribute).drop_last() =~= attributes);
}

/// A choice is derived exactly from an enum whose variants all have no fields
/// and a doc comment. Otherwise the first variant to blame is named by its
/// place: for its fields, or for its missing description.
pub proof fn law_choice_is_derived_from_documented_unit_variants(declaration: DeclarationView)
    ensures
        declaration.variants is None ==> expansion(declaration) == Err::<
            Seq<ArmView>,
            DeriveErrorView,
        >(
            DeriveErrorView {
                variant: None,
                message: "ooda::Choice can only be derived for an enum"@,
            },
        ),
        declaration.variants matches Some(variants) ==> {
            &&& expansion(declaration) is Ok <==> forall|i: int|
                0 <= i < variants.len() ==> (#[trigger] variants[i]).unit && doc_text(
                    variants[i].attributes,
                ).len() > 0
            &&& expansion(declaration) matches Ok(arms) ==> {
                &&& arms.len() == variants.len()
                &&& forall|i: int|
                    0 <= i < arms.len() ==> {
                        &&& (#[trigger] arms[i]).ident == variants[i].ident
                        &&& arms[i].description == doc_text(variants[i].attributes)
                        &&& arms[i].key == key_of(
                            variants[i],
                            setting(declaration.attributes, "rename_all"@),
                        )
                    }
            }
        },
{
    if let Some(variants) = declaration.variants {
        let rename_all = setting(declaration.attributes, "rename_all"@);
        law_one_option_per_variant(variants, rename_all);
        lemma_arms_or_not(variants, rename_all);
    }
}

proof fn lemma_arms_or_not(variants: Seq<VariantView>, rename_all: Option<Seq<char>>)
    ensures
        arms_of(variants, rename_all) is Ok <==> forall|i: int|
            0 <= i < variants.len() ==> (#[trigger] variants[i]).unit && doc_text(
                variants[i].attributes,
            ).len() > 0,
    decreases variants.len(),
{
    if variants.len() > 0 {
        let front = variants.drop_last();
        let last = variants.len() - 1;
        lemma_arms_or_not(front, rename_all);
        if arms_of(variants, rename_all) is Ok {
            assert forall|i: int| 0 <= i < variants.len() implies (#[trigger] variants[i]).unit
                && doc_text(variants[i].attributes).len() > 0 by {
                if i < last {
                    assert(front[i] == variants[i]);
                }
            }
        }
        if forall|i: int|
            0 <= i < variants.len() ==> (#[trigger] variants[i]).unit && doc_text(
                variants[i].attributes,
            ).len() > 0 {
            assert forall|i: int| 0 <= i < front.len() implies (#[trigger] front[i]).unit
                && doc_text(front[i].attributes).len() > 0 by {
                assert(front[i] == variants[i]);
            }
            assert(variants[last].unit);
        }
    }
}

/// The first variant that gives no option is the one to blame: for its fields,
/// else for its missing description.
pub proof fn law_first_faulty_variant_is_named(
    variants: Seq<VariantView>,
    rename_all: Option<Seq<char>>,
    i: int,
)
    requires
        0 <= i < variants.len() <= usize::MAX,
        forall|j: int|
            0 <= j < i ==> (#[trigger] variants[j]).unit && doc_text(variants[j].attributes).len()
                > 0,
    ensures
        !variants[i].unit ==> arms_of(variants, rename_all) == Err::<
            Seq<ArmView>,
            DeriveErrorView,
        >(
            DeriveErrorView {
                variant: Some(i as usize),
                message:
                    "ooda::Choice only supports unit variants (no fields) -- a Choice option is a bounded name, not a payload"@,
            },
        ),
        variants[i].unit && doc_text(variants[i].attributes).len() == 0 ==> arms_of(
            variants,
            rename_all,
        ) == Err::<Seq<ArmView>, DeriveErrorView>(
            DeriveErrorView {
                variant: Some(i as usize),
                message: "variant `"@ + variants[i].ident
                    + "` needs a doc comment (`/// ...`) -- a Choice option with no description degrades the endpoint's ability to pick it correctly"@,
            },
        ),
{
    let earlier = variants.take(i);
    assert forall|j: int| 0 <= j < earlier.len() implies (#[trigger] earlier[j]).unit && doc_text(
        earlier[j].attributes,
    ).len() > 0 by {
        assert(earlier[j] == variants[j]);
    }
    lemma_arms_or_not(earlier, rename_all);
    if !variants[i].unit || doc_text(variants[i].attributes).len() == 0 {
        lemma_first_bad_variant(variants, rename_all, i);
    }
}

/// The option set offers each key with its own description, in order.
pub proof fn law_options_keep_their_descriptions(arms: Seq<ArmView>, i: int)
    requires
        0 <= i < arms.len(),
    ensures
        arm_pairs(arms).len() == arms.len(),
        arm_pairs(arms)[i] == (arms[i].key, arms[i].description),
{
}

} // verus!
