use auto_mapping::attributes::{
    accept_try_from, casing_literal, extend_with_texts, text_items, parse_casing_tag, parse_child_attributes, parse_container_attributes, read_type_identifier,
    Attribute, AttributeBody, ConfigError, ConfigErrorKind, Directive, ListItem,
};
use auto_mapping::types::{rename_all, same_text, RenameAll, SourcePosition};

fn flag(name: &str) -> Directive {
    Directive::Flag { name: name.to_string() }
}

fn text(name: &str, value: &str) -> Directive {
    Directive::Text { name: name.to_string(), value: value.to_string() }
}

fn list(name: &str, items: Vec<ListItem>) -> Directive {
    Directive::List { name: name.to_string(), items }
}

fn item(s: &str) -> ListItem {
    ListItem::Text(s.to_string())
}

fn block(entries: Vec<Directive>) -> Attribute {
    Attribute { name: "mapping".to_string(), body: AttributeBody::List(entries) }
}

fn fault(kind: ConfigErrorKind, block: usize, entry: usize) -> ConfigError {
    let message = match kind {
        ConfigErrorKind::DuplicateDirective => "duplicate attribute",
        ConfigErrorKind::UnrecognizedDirective => "unexpected mapping attribute",
        ConfigErrorKind::InvalidDirectiveValue => "unexpected value for rename_all",
    };
    ConfigError { kind, at: SourcePosition { block, entry }, message: message.to_string() }
}

fn malformed(words: &str) -> Attribute {
    Attribute {
        name: "mapping".to_string(),
        body: AttributeBody::Malformed { message: words.to_string() },
    }
}

fn refusal(text: &str) -> String {
    syn::LitStr::new(text, proc_macro2::Span::call_site())
        .parse::<syn::Ident>()
        .unwrap_err()
        .to_string()
}

#[test]
fn rename_all_rewrites_into_each_convention() {
    assert_eq!(rename_all("UserName", RenameAll::LowerCase), "username");
    assert_eq!(rename_all("userName", RenameAll::SnakeCase), "user_name");
    assert_eq!(rename_all("userName", RenameAll::UpperCase), "USERNAME");
    assert_eq!(rename_all("userName", RenameAll::ScreamingSnakeCase), "USER_NAME");
    assert_eq!(rename_all("userName", RenameAll::KebabCase), "user-name");
    assert_eq!(rename_all("user_name", RenameAll::CamelCase), "userName");
    assert_eq!(rename_all("user_name", RenameAll::PascalCase), "UserName");
}

#[test]
fn rename_all_of_empty_is_empty() {
    let tags = [
        RenameAll::LowerCase,
        RenameAll::SnakeCase,
        RenameAll::UpperCase,
        RenameAll::ScreamingSnakeCase,
        RenameAll::KebabCase,
        RenameAll::CamelCase,
        RenameAll::PascalCase,
    ];
    for tag in tags {
        assert_eq!(rename_all("", tag), "");
    }
}

#[test]
fn same_text_compares_whole_texts() {
    assert!(same_text("alias", "alias"));
    assert!(!same_text("alias", "alia"));
    assert!(!same_text("alias", "aliaz"));
    assert!(same_text("", ""));
    assert!(same_text("caf\u{e9}", "caf\u{e9}"));
}

#[test]
fn casing_tags_are_the_seven_literals() {
    assert_eq!(parse_casing_tag("lowercase"), Some(RenameAll::LowerCase));
    assert_eq!(parse_casing_tag("snake_case"), Some(RenameAll::SnakeCase));
    assert_eq!(parse_casing_tag("UPPERCASE"), Some(RenameAll::UpperCase));
    assert_eq!(parse_casing_tag("SCREAMING_SNAKE_CASE"), Some(RenameAll::ScreamingSnakeCase));
    assert_eq!(parse_casing_tag("kebab-case"), Some(RenameAll::KebabCase));
    assert_eq!(parse_casing_tag("camelCase"), Some(RenameAll::CamelCase));
    assert_eq!(parse_casing_tag("PascalCase"), Some(RenameAll::PascalCase));
    assert_eq!(parse_casing_tag("Snake_Case"), None);
    assert_eq!(parse_casing_tag(""), None);
}

#[test]
fn container_without_blocks_has_defaults() {
    let parsed = parse_container_attributes(&[]).unwrap();
    assert!(!parsed.transparent);
    assert!(parsed.type_name_override.is_none());
    assert!(parsed.rename_all.is_none());
    assert!(parsed.possible_prefix.is_empty());
    assert!(parsed.possible_separator.is_empty());
}

#[test]
fn container_reads_every_directive() {
    let input = vec![
        block(vec![
            flag("transparent"),
            text("rename_all", "snake_case"),
            text("type_name", "account"),
        ]),
        block(vec![
            list("possible_prefix", vec![item("a"), ListItem::Other, item("b")]),
            list("possible_separator", vec![item("_")]),
            list("possible_prefix", vec![item("a")]),
        ]),
    ];
    let parsed = parse_container_attributes(&input).unwrap();
    assert!(parsed.transparent);
    assert_eq!(parsed.rename_all, Some(RenameAll::SnakeCase));
    let name = parsed.type_name_override.unwrap();
    assert_eq!(name.val, "account");
    assert_eq!(name.span, SourcePosition { block: 0, entry: 2 });
    assert_eq!(parsed.possible_prefix, vec!["a", "b", "a"]);
    assert_eq!(parsed.possible_separator, vec!["_"]);
}

#[test]
fn container_skips_other_blocks_and_plain_ones() {
    let input = vec![
        Attribute { name: "serde".to_string(), body: AttributeBody::List(vec![flag("bogus")]) },
        Attribute {
            name: "doc".to_string(),
            body: AttributeBody::Malformed { message: "expected literal".to_string() },
        },
        Attribute { name: "mapping".to_string(), body: AttributeBody::Plain },
        block(vec![flag("transparent")]),
    ];
    let parsed = parse_container_attributes(&input).unwrap();
    assert!(parsed.transparent);
}

#[test]
fn container_rejects_a_malformed_block() {
    let input = vec![block(vec![flag("transparent")]), malformed("expected literal")];
    let err = parse_container_attributes(&input).unwrap_err();
    assert_eq!(err.kind, ConfigErrorKind::UnrecognizedDirective);
    assert_eq!(err.at, SourcePosition { block: 1, entry: 0 });
    assert_eq!(err.message, "expected literal");
    assert_eq!(err.message(), "expected literal");
}

#[test]
fn container_rejects_unknown_keys_and_shapes() {
    let cases = vec![
        flag("flatten"),
        text("alias", "x"),
        text("possible_prefix", "x"),
        list("rename_all", vec![item("snake_case")]),
        Directive::Value { name: "rename_all".to_string() },
        Directive::Literal,
    ];
    for case in cases {
        let input = vec![block(vec![flag("transparent"), case])];
        assert_eq!(
            parse_container_attributes(&input).unwrap_err(),
            fault(ConfigErrorKind::UnrecognizedDirective, 0, 1)
        );
    }
}

#[test]
fn container_rejects_an_unknown_casing_tag() {
    let input = vec![block(vec![text("rename_all", "Title Case")])];
    let err = parse_container_attributes(&input).unwrap_err();
    assert_eq!(err, fault(ConfigErrorKind::InvalidDirectiveValue, 0, 0));
    assert_eq!(err.message(), "unexpected value for rename_all");
}

#[test]
fn duplicate_rename_all_with_equal_values_is_rejected() {
    let input = vec![block(vec![text("rename_all", "snake_case"), text("rename_all", "snake_case")])];
    let err = parse_container_attributes(&input).unwrap_err();
    assert_eq!(err, fault(ConfigErrorKind::DuplicateDirective, 0, 1));
    assert_eq!(err.message(), "duplicate attribute");
}

#[test]
fn duplicate_rename_all_with_other_values_is_rejected() {
    let input = vec![
        block(vec![text("rename_all", "snake_case")]),
        block(vec![flag("transparent"), text("rename_all", "camelCase")]),
    ];
    assert_eq!(
        parse_container_attributes(&input).unwrap_err(),
        fault(ConfigErrorKind::DuplicateDirective, 1, 1)
    );
}

#[test]
fn duplicate_transparent_and_type_name_are_rejected() {
    let twice = vec![block(vec![flag("transparent"), flag("transparent")])];
    assert_eq!(
        parse_container_attributes(&twice).unwrap_err(),
        fault(ConfigErrorKind::DuplicateDirective, 0, 1)
    );
    let names = vec![block(vec![text("type_name", "a"), text("type_name", "b")])];
    assert_eq!(
        parse_container_attributes(&names).unwrap_err(),
        fault(ConfigErrorKind::DuplicateDirective, 0, 1)
    );
}

#[test]
fn first_fault_wins() {
    let input = vec![block(vec![
        flag("unknown"),
        text("rename_all", "snake_case"),
        text("rename_all", "snake_case"),
    ])];
    let err = parse_container_attributes(&input).unwrap_err();
    assert_eq!(err, fault(ConfigErrorKind::UnrecognizedDirective, 0, 0));
    assert_eq!(err.message(), "unexpected mapping attribute");
}

#[test]
fn type_identifiers_are_read_by_the_parser() {
    assert_eq!(read_type_identifier("Wrapper"), Ok("Wrapper".to_string()));
    assert_eq!(read_type_identifier(" Wrapper "), Ok("Wrapper".to_string()));
    for text in ["a::b", "1abc", "", "struct", "\"open", "not a type"] {
        assert_eq!(read_type_identifier(text), Err(refusal(text)));
        assert!(!refusal(text).is_empty());
    }
}

#[test]
fn child_without_blocks_has_defaults() {
    let parsed = parse_child_attributes(&[]).unwrap();
    assert!(parsed.alias.is_none());
    assert!(!parsed.default);
    assert!(!parsed.flatten);
    assert!(parsed.try_from.is_none());
}

#[test]
fn child_reads_every_directive() {
    let input = vec![
        block(vec![text("alias", "id"), flag("default")]),
        block(vec![flag("flatten"), text("try_from", " Wrapper ")]),
    ];
    let parsed = parse_child_attributes(&input).unwrap();
    assert_eq!(parsed.alias, Some("id".to_string()));
    assert!(parsed.default);
    assert!(parsed.flatten);
    assert_eq!(parsed.try_from, Some("Wrapper".to_string()));
}

#[test]
fn child_rejects_a_malformed_type_identifier() {
    let input = vec![block(vec![flag("default"), text("try_from", "not a type")])];
    let err = parse_child_attributes(&input).unwrap_err();
    assert_eq!(err.kind, ConfigErrorKind::InvalidDirectiveValue);
    assert_eq!(err.at, SourcePosition { block: 0, entry: 1 });
    assert_eq!(err.message, refusal("not a type"));
    assert_eq!(err.message(), refusal("not a type"));
}

#[test]
fn child_rejects_duplicates() {
    let cases = vec![
        vec![text("alias", "a"), text("alias", "a")],
        vec![text("try_from", "A"), text("try_from", "not a type")],
        vec![flag("default"), flag("default")],
        vec![flag("flatten"), flag("flatten")],
    ];
    for case in cases {
        assert_eq!(
            parse_child_attributes(&[block(case)]).unwrap_err(),
            fault(ConfigErrorKind::DuplicateDirective, 0, 1)
        );
    }
}

#[test]
fn child_rejects_unknown_keys_and_shapes() {
    let cases = vec![
        flag("transparent"),
        text("rename_all", "snake_case"),
        list("alias", vec![item("x")]),
        Directive::Value { name: "alias".to_string() },
        Directive::Literal,
    ];
    for case in cases {
        assert_eq!(
            parse_child_attributes(&[block(vec![case])]).unwrap_err(),
            fault(ConfigErrorKind::UnrecognizedDirective, 0, 0)
        );
    }
    let err = parse_child_attributes(&[malformed("unexpected token")]).unwrap_err();
    assert_eq!(err.kind, ConfigErrorKind::UnrecognizedDirective);
    assert_eq!(err.at, SourcePosition { block: 0, entry: 0 });
    assert_eq!(err.message, "unexpected token");
}

#[test]
fn casing_literals_read_back() {
    let tags = [
        (RenameAll::LowerCase, "lowercase"),
        (RenameAll::SnakeCase, "snake_case"),
        (RenameAll::UpperCase, "UPPERCASE"),
        (RenameAll::ScreamingSnakeCase, "SCREAMING_SNAKE_CASE"),
        (RenameAll::KebabCase, "kebab-case"),
        (RenameAll::CamelCase, "camelCase"),
        (RenameAll::PascalCase, "PascalCase"),
    ];
    for (tag, literal) in tags {
        assert_eq!(casing_literal(tag), literal);
        assert_eq!(parse_casing_tag(&casing_literal(tag)), Some(tag));
    }
}

#[test]
fn container_directives_round_trip() {
    let input = vec![
        block(vec![
            list("possible_separator", vec![item("_"), ListItem::Other, item("")]),
            text("type_name", "account"),
            flag("transparent"),
        ]),
        block(vec![
            list("possible_prefix", vec![item("a"), item("a")]),
            text("rename_all", "kebab-case"),
        ]),
    ];
    let parsed = parse_container_attributes(&input).unwrap();
    let written = parsed.to_attributes();
    assert_eq!(written.len(), 1);
    let again = parse_container_attributes(&written).unwrap();
    assert_eq!(again.transparent, parsed.transparent);
    assert_eq!(again.rename_all, parsed.rename_all);
    assert_eq!(again.possible_prefix, parsed.possible_prefix);
    assert_eq!(again.possible_separator, parsed.possible_separator);
    assert_eq!(again.type_name_override.unwrap().val, parsed.type_name_override.unwrap().val);
    assert_eq!(again.possible_separator, vec!["_", ""]);
    assert_eq!(again.rename_all, Some(RenameAll::KebabCase));
}

#[test]
fn empty_container_round_trips() {
    let parsed = parse_container_attributes(&[]).unwrap();
    let again = parse_container_attributes(&parsed.to_attributes()).unwrap();
    assert!(!again.transparent);
    assert!(again.type_name_override.is_none());
    assert!(again.rename_all.is_none());
    assert!(again.possible_prefix.is_empty());
    assert!(again.possible_separator.is_empty());
}

#[test]
fn child_directives_round_trip() {
    let input = vec![block(vec![
        text("try_from", "Wrapper"),
        flag("flatten"),
        text("alias", "the id"),
        flag("default"),
    ])];
    let parsed = parse_child_attributes(&input).unwrap();
    let again = parse_child_attributes(&parsed.to_attributes()).unwrap();
    assert_eq!(again.alias, Some("the id".to_string()));
    assert!(again.default);
    assert!(again.flatten);
    assert_eq!(again.try_from, Some("Wrapper".to_string()));
    let bare = parse_child_attributes(&[]).unwrap();
    let bare_again = parse_child_attributes(&bare.to_attributes()).unwrap();
    assert!(bare_again.alias.is_none() && bare_again.try_from.is_none());
    assert!(!bare_again.default && !bare_again.flatten);
}

#[test]
fn list_items_hold_the_texts() {
    let items = text_items(&vec!["a".to_string(), "".to_string()]);
    assert_eq!(items.len(), 2);
    let kept = extend_with_texts(vec!["x".to_string()], &items);
    assert_eq!(kept, vec!["x", "a", ""]);
    let mixed = vec![ListItem::Other, item("b"), ListItem::Other];
    assert_eq!(extend_with_texts(vec![], &mixed), vec!["b"]);
}

#[test]
fn accepted_intermediate_type_and_refusal_words() {
    let bare = parse_child_attributes(&[]).unwrap();
    let set = accept_try_from(bare.clone(), Ok("Raw".to_string()), SourcePosition { block: 2, entry: 3 })
        .unwrap();
    assert_eq!(set.try_from, Some("Raw".to_string()));
    let refused =
        accept_try_from(bare, Err("expected identifier".to_string()), SourcePosition { block: 2, entry: 3 })
            .unwrap_err();
    assert_eq!(refused.kind, ConfigErrorKind::InvalidDirectiveValue);
    assert_eq!(refused.at, SourcePosition { block: 2, entry: 3 });
    assert_eq!(refused.message, "expected identifier");
    let again = accept_try_from(set, Ok("Other".to_string()), SourcePosition { block: 0, entry: 1 })
        .unwrap_err();
    assert_eq!(again, fault(ConfigErrorKind::DuplicateDirective, 0, 1));
}

#[test]
fn parsed_intermediate_types_read_back() {
    for text in ["Wrapper", " Wrapper ", "r#type", "_x1"] {
        let parsed = parse_child_attributes(&[block(vec![text_entry(text)])]).unwrap();
        assert!(parsed.reads_back());
        let again = parse_child_attributes(&parsed.to_attributes()).unwrap();
        assert_eq!(again.try_from, parsed.try_from);
    }
    let mut odd = parse_child_attributes(&[]).unwrap();
    assert!(odd.reads_back());
    odd.try_from = Some("not a type".to_string());
    assert!(!odd.reads_back());
    odd.try_from = Some(" Wrapper ".to_string());
    assert!(!odd.reads_back());
}

fn text_entry(value: &str) -> Directive {
    text("try_from", value)
}

#[test]
fn entries_spread_over_blocks_parse() {
    let input = vec![
        block(vec![flag("transparent"), list("possible_prefix", vec![item("a")])]),
        Attribute { name: "other".to_string(), body: AttributeBody::List(vec![flag("transparent")]) },
        Attribute { name: "mapping".to_string(), body: AttributeBody::Plain },
        block(vec![text("type_name", "t"), list("possible_prefix", vec![item("b")])]),
        block(vec![text("rename_all", "PascalCase")]),
    ];
    let parsed = parse_container_attributes(&input).unwrap();
    assert!(parsed.transparent);
    assert_eq!(parsed.rename_all, Some(RenameAll::PascalCase));
    assert_eq!(parsed.possible_prefix, vec!["a", "b"]);
    assert_eq!(parsed.type_name_override.unwrap().span, SourcePosition { block: 3, entry: 0 });
}
