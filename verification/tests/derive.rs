use ooda::derive::{
    doc_comment, expand, options_of, variant_of_key, Arm, Attribute, Declaration, MetaItem,
    MetaValue, VariantDecl,
};
use ooda::json::parse;
use ooda::{
    decide_choice, decide_choice_traced, ChoiceSpace, Criteria, Decision, Question, Real, Request,
    ScriptedClient, Trace,
};

fn serde(items: Option<Vec<MetaItem>>) -> Attribute {
    Attribute { name: "serde".into(), text: None, items }
}

fn setting(name: &str, text: &str) -> Attribute {
    serde(Some(vec![MetaItem { name: name.into(), value: MetaValue::Text(text.into()) }]))
}

fn line(text: &str) -> Attribute {
    Attribute { name: "doc".into(), text: Some(text.into()), items: None }
}

fn variant(ident: &str, doc: &str, rename: Option<&str>) -> VariantDecl {
    VariantDecl {
        ident: ident.into(),
        unit: true,
        attributes: rename
            .into_iter()
            .map(|key| setting("rename", key))
            .chain([line(doc)])
            .collect(),
    }
}

#[derive(Debug, Clone, Copy, PartialEq, Eq)]
enum PlainChoice {
    MoveIt,
    OpenIt,
}

fn plain() -> Vec<Arm> {
    expand(&Declaration {
        attributes: vec![],
        variants: Some(vec![
            variant("MoveIt", " Move the feature to clear the anchor.", None),
            variant("OpenIt", " Open a relief pocket instead.", None),
        ]),
    })
    .unwrap()
}

impl ChoiceSpace for PlainChoice {
    fn options() -> Criteria {
        options_of(&plain())
    }

    fn from_key(key: &str) -> Option<Self> {
        variant_of_key(&plain(), key).map(|i| [PlainChoice::MoveIt, PlainChoice::OpenIt][i])
    }
}

#[derive(Debug, Clone, Copy, PartialEq, Eq)]
enum RenamedChoice {
    MoveIt,
    OpenIt,
    Abstain,
}

fn renamed() -> Vec<Arm> {
    expand(&Declaration {
        attributes: vec![setting("rename_all", "snake_case")],
        variants: Some(vec![
            variant("MoveIt", " Uses the enum's snake_case convention.", None),
            variant(
                "OpenIt",
                " Uses its own serde rename instead of the enum convention.",
                Some("OPEN"),
            ),
            variant(
                "None",
                " Uses its own serde rename, overriding the enum's rename_all.",
                Some("abstain"),
            ),
        ]),
    })
    .unwrap()
}

impl ChoiceSpace for RenamedChoice {
    fn options() -> Criteria {
        options_of(&renamed())
    }

    fn from_key(key: &str) -> Option<Self> {
        variant_of_key(&renamed(), key)
            .map(|i| [RenamedChoice::MoveIt, RenamedChoice::OpenIt, RenamedChoice::Abstain][i])
    }
}

#[test]
fn plain_variants_use_bare_identifiers_as_keys() {
    let options = PlainChoice::options();
    let keys: Vec<&str> = options.keys();
    assert_eq!(keys, ["MoveIt", "OpenIt"]);
    assert_eq!(PlainChoice::from_key("MoveIt"), Some(PlainChoice::MoveIt));
    assert_eq!(PlainChoice::from_key("nope"), None);
}

#[test]
fn doc_comments_become_descriptions() {
    let request = Request::single(
        parse("{}").unwrap(),
        "edit_choice",
        Question::choice("pick one", PlainChoice::options()),
    );
    let wire = request.questions.get("edit_choice").unwrap().wire();
    assert_eq!(
        wire.get("criteria").unwrap().get("MoveIt").unwrap().as_str(),
        Some("Move the feature to clear the anchor.")
    );
}

#[test]
fn key_resolution_precedence_is_serde_rename_then_rename_all() {
    let options = RenamedChoice::options();
    let keys: Vec<&str> = options.keys();
    assert_eq!(keys, ["move_it", "OPEN", "abstain"]);
    assert_eq!(
        RenamedChoice::from_key("move_it"),
        Some(RenamedChoice::MoveIt)
    );
    assert_eq!(RenamedChoice::from_key("OPEN"), Some(RenamedChoice::OpenIt));
    assert_eq!(
        RenamedChoice::from_key("abstain"),
        Some(RenamedChoice::Abstain)
    );
}

#[test]
fn decide_choice_resolves_a_derived_enum_end_to_end() {
    let num = |x: f64| Real::finite(&serde_json::Number::from_f64(x).unwrap());
    let mut client = ScriptedClient::new(vec![
        r#"{"answers":{"edit_choice":{"type":"choice","choice":"OpenIt",
            "probabilities":{"OpenIt":0.8},"confidence":0.8}}}"#
            .to_owned(),
    ]);
    let decision: Decision<PlainChoice> =
        decide_choice(&mut client, parse("{}").unwrap(), "edit_choice", "pick one").unwrap();
    assert_eq!(decision.answer, PlainChoice::OpenIt);
    assert_eq!(decision.confidence, num(0.8));

    let mut trace = Trace::new();
    let mut client2 = ScriptedClient::new(vec![
        r#"{"answers":{"edit_choice":{"type":"choice","choice":"MoveIt","confidence":0.99}}}"#
            .to_owned(),
    ]);
    let traced: Decision<PlainChoice> = decide_choice_traced(
        &mut client2,
        parse("{}").unwrap(),
        "edit_choice",
        "pick one",
        &mut trace,
    )
    .unwrap();
    assert_eq!(traced.answer, PlainChoice::MoveIt);
    assert!(trace.all_at_least(&num(0.9)));
}

#[test]
fn every_convention_names_a_variant_in_its_own_way() {
    let key = |convention: &str| {
        expand(&Declaration {
            attributes: vec![setting("rename_all", convention)],
            variants: Some(vec![variant("MoveItNow", "Go.", None)]),
        })
        .unwrap()[0]
            .key
            .clone()
    };
    assert_eq!(key("lowercase"), "moveitnow");
    assert_eq!(key("UPPERCASE"), "MOVEITNOW");
    assert_eq!(key("PascalCase"), "MoveItNow");
    assert_eq!(key("camelCase"), "moveItNow");
    assert_eq!(key("snake_case"), "move_it_now");
    assert_eq!(key("SCREAMING_SNAKE_CASE"), "MOVE_IT_NOW");
    assert_eq!(key("kebab-case"), "move-it-now");
    assert_eq!(key("SCREAMING-KEBAB-CASE"), "MOVE-IT-NOW");
    assert_eq!(key("Title Case"), "MoveItNow");
}

#[test]
fn a_pascal_case_key_is_cased_anew() {
    let arms = expand(&Declaration {
        attributes: vec![setting("rename_all", "PascalCase")],
        variants: Some(vec![variant("move_it", "Go.", None)]),
    })
    .unwrap();
    assert_eq!(arms[0].key, "MoveIt");
}

#[test]
fn other_settings_of_an_attribute_are_passed_over() {
    let busy = serde(Some(vec![
        MetaItem { name: "tag".into(), value: MetaValue::Text("type".into()) },
            MetaItem { name: "rename_all".into(), value: MetaValue::Other },
            MetaItem { name: "untagged".into(), value: MetaValue::Bare },
            MetaItem { name: "rename_all".into(), value: MetaValue::Text("snake_case".into()) },
    ]));
    let mut foreign = setting("rename_all", "UPPERCASE");
    foreign.name = "schemars".into();
    let arms = expand(&Declaration {
        attributes: vec![foreign, serde(None), busy, setting("rename_all", "lowercase")],
        variants: Some(vec![variant("MoveIt", "Go.", None)]),
    })
    .unwrap();
    assert_eq!(arms[0].key, "move_it");
}

#[test]
fn what_cannot_be_derived_says_why() {
    let whole = expand(&Declaration { attributes: vec![], variants: None }).unwrap_err();
    assert_eq!(whole.variant, None);
    assert_eq!(whole.message, "ooda::Choice can only be derived for an enum");

    let fields = VariantDecl { unit: false, ..variant("B", "doc", None) };
    let payload = expand(&Declaration {
        attributes: vec![],
        variants: Some(vec![variant("A", "doc", None), fields]),
    })
    .unwrap_err();
    assert_eq!(payload.variant, Some(1));
    assert!(payload.message.starts_with("ooda::Choice only supports unit variants"));

    let bare = expand(&Declaration {
        attributes: vec![],
        variants: Some(vec![variant("A", "  ", None)]),
    })
    .unwrap_err();
    assert_eq!(bare.variant, Some(0));
    assert!(bare.message.starts_with("variant `A` needs a doc comment (`/// ...`) -- "));
}

#[test]
fn doc_lines_are_trimmed_and_joined() {
    let mut lines: Vec<Attribute> = [" one ", "", "  ", "two"].map(line).into();
    lines.insert(1, Attribute { name: "docs".into(), text: Some("no".into()), items: None });
    lines.push(Attribute { name: "doc".into(), text: None, items: None });
    assert_eq!(doc_comment(&lines), "one two");
    assert_eq!(doc_comment(&vec![]), "");
}

#[test]
fn a_key_that_two_variants_share_is_read_as_the_first() {
    let arms = expand(&Declaration {
        attributes: vec![],
        variants: Some(vec![variant("A", "a", Some("k")), variant("B", "b", Some("k"))]),
    })
    .unwrap();
    assert_eq!(variant_of_key(&arms, "k"), Some(0));
    assert_eq!(arms[1].ident, "B");
    assert_eq!(arms[1].description, "b");
}
