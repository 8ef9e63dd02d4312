use auto_mapping::attributes::{
    Attribute, AttributeBody, ConfigError, ConfigErrorKind, Directive, ListItem,
};
use auto_mapping::joined_row::{enter_nested, expand_derive_from_joined_mapping_row, CyclicFlatten};
use auto_mapping::row::{
    assemble_record, expand_derive_from_mapping_row, find_column, has_column, is_path_option,
    plan_field, resolve_base_name, resolve_candidates, strip_raw_prefix, Action, Event, Failure,
    Field, FieldPlan, FieldType, Outcome, PlanError, PlanShape, RecordData, RecordInput,
};
use auto_mapping::types::{ChildAttributes, ContainerAttributes, RenameAll, SourcePosition};

fn strings(items: &[&str]) -> Vec<String> {
    items.iter().map(|s| s.to_string()).collect()
}

fn container(rename: Option<RenameAll>, prefixes: &[&str], separators: &[&str]) -> ContainerAttributes {
    ContainerAttributes {
        transparent: false,
        type_name_override: None,
        rename_all: rename,
        possible_prefix: strings(prefixes),
        possible_separator: strings(separators),
    }
}

fn child(alias: Option<&str>, default: bool, flatten: bool, try_from: Option<&str>) -> ChildAttributes {
    ChildAttributes {
        alias: alias.map(|s| s.to_string()),
        default,
        flatten,
        try_from: try_from.map(|s| s.to_string()),
    }
}

fn scalar(optional: bool, default: bool, try_from: Option<&str>) -> FieldPlan {
    plan_field("amount", optional, &container(None, &[], &[]), &child(None, default, false, try_from))
}

fn block(entries: Vec<Directive>) -> Attribute {
    Attribute { name: "mapping".to_string(), body: AttributeBody::List(entries) }
}

fn path(first: &str) -> FieldType {
    FieldType::Path { leading_colon: false, first_segment: first.to_string() }
}

/// Fills one field from a row of integers, performing what the plan asks for.
fn fill(plan: &FieldPlan, row: &[(&str, i64)], convert_ok: bool) -> (Outcome, Option<i64>) {
    let columns: Vec<String> = row.iter().map(|(n, _)| n.to_string()).collect();
    let mut value = None;
    let mut action = plan.begin(&columns);
    loop {
        match action {
            Action::Fetch { candidate } => {
                let name = &plan.candidates[candidate];
                match row.iter().find(|(n, _)| n == name) {
                    Some((_, v)) => {
                        value = Some(*v);
                        action = plan.after_fetch(Event::Value);
                    }
                    None => action = plan.after_fetch(Event::NotFound),
                }
            }
            Action::Nested => action = plan.after_fetch(Event::Failed),
            Action::Convert => action = Action::Finish(plan.after_conversion(convert_ok)),
            Action::Finish(outcome) => return (outcome, value),
        }
    }
}

#[test]
fn raw_marks_are_stripped() {
    assert_eq!(strip_raw_prefix("r#type"), "type");
    assert_eq!(strip_raw_prefix("r#r#type"), "type");
    assert_eq!(strip_raw_prefix("type"), "type");
    assert_eq!(strip_raw_prefix("r"), "r");
    assert_eq!(strip_raw_prefix("r#"), "");
    assert_eq!(strip_raw_prefix("ar#b"), "ar#b");
    assert_eq!(strip_raw_prefix(""), "");
}

#[test]
fn base_name_without_alias_or_convention_is_the_field_name() {
    assert_eq!(resolve_base_name("userName", &None, None), "userName");
    assert_eq!(resolve_base_name("r#type", &None, None), "type");
}

#[test]
fn base_name_follows_the_naming_convention() {
    assert_eq!(resolve_base_name("userName", &None, Some(RenameAll::SnakeCase)), "user_name");
    assert_eq!(resolve_base_name("r#userName", &None, Some(RenameAll::KebabCase)), "user-name");
}

#[test]
fn alias_bypasses_the_naming_convention() {
    let alias = Some("UserID".to_string());
    assert_eq!(resolve_base_name("userName", &alias, Some(RenameAll::SnakeCase)), "UserID");
    assert_eq!(resolve_base_name("userName", &alias, None), "UserID");
}

#[test]
fn candidates_are_prefix_major_and_end_with_the_base() {
    let got = resolve_candidates(&strings(&["a", "b"]), &strings(&["_", "__", "."]), &"id".to_string());
    assert_eq!(got, vec!["a_id", "a__id", "a.id", "b_id", "b__id", "b.id", "id"]);
    assert_eq!(got.len(), 2 * 3 + 1);
}

#[test]
fn candidates_without_prefix_or_separator_are_the_base_alone() {
    let base = "id".to_string();
    assert_eq!(resolve_candidates(&strings(&[]), &strings(&["_"]), &base), vec!["id"]);
    assert_eq!(resolve_candidates(&strings(&["a"]), &strings(&[]), &base), vec!["id"]);
    assert_eq!(resolve_candidates(&strings(&[]), &strings(&[]), &base), vec!["id"]);
}

#[test]
fn candidates_keep_duplicates() {
    let got = resolve_candidates(&strings(&["a", "a"]), &strings(&["", ""]), &"a".to_string());
    assert_eq!(got, vec!["aa", "aa", "aa", "aa", "a"]);
}

#[test]
fn option_is_told_by_the_first_segment() {
    assert!(is_path_option(&path("Option")));
    assert!(!is_path_option(&path("Vec")));
    assert!(!is_path_option(&path("option")));
    assert!(!is_path_option(&FieldType::Path {
        leading_colon: true,
        first_segment: "Option".to_string()
    }));
    assert!(!is_path_option(&FieldType::Other));
}

#[test]
fn plan_shapes() {
    let c = container(None, &["t"], &["_"]);
    let plain = plan_field("id", false, &c, &child(None, false, false, None));
    assert_eq!(plain.shape(), PlanShape::Scalar);
    assert_eq!(plain.candidates, vec!["t_id", "id"]);
    assert_eq!(plain.name, "id");
    let converted = plan_field("id", true, &c, &child(Some("key"), true, false, Some("Raw")));
    assert_eq!(converted.shape(), PlanShape::ScalarConvert);
    assert_eq!(converted.candidates, vec!["t_key", "key"]);
    assert_eq!(converted.intermediate, Some("Raw".to_string()));
    assert!(converted.optional);
    assert!(converted.default_on_missing);
    let nested = plan_field("owner", false, &c, &child(None, false, true, None));
    assert_eq!(nested.shape(), PlanShape::Flatten);
    assert!(nested.candidates.is_empty());
    let both = plan_field("owner", false, &c, &child(None, false, true, Some("Raw")));
    assert_eq!(both.shape(), PlanShape::FlattenConvert);
    assert!(both.candidates.is_empty());
}

#[test]
fn columns_are_probed_in_order() {
    let candidates = strings(&["a_id", "b_id", "id"]);
    assert_eq!(find_column(&candidates, &strings(&["id", "b_id"])), Some(1));
    assert_eq!(find_column(&candidates, &strings(&["id"])), Some(2));
    assert_eq!(find_column(&candidates, &strings(&["a_id", "b_id", "id"])), Some(0));
    assert_eq!(find_column(&candidates, &strings(&["ID"])), None);
    assert_eq!(find_column(&candidates, &strings(&[])), None);
    assert!(has_column(&strings(&["x", "y"]), "y"));
    assert!(!has_column(&strings(&["x", "y"]), "z"));
}

#[test]
fn snake_case_field_finds_its_column() {
    let c = container(Some(RenameAll::SnakeCase), &[], &[]);
    let plan = plan_field("userName", false, &c, &child(None, false, false, None));
    assert_eq!(plan.candidates, vec!["user_name"]);
    let columns = strings(&["id", "user_name"]);
    assert_eq!(plan.begin(&columns), Action::Fetch { candidate: 0 });
    assert_eq!(fill(&plan, &[("id", 1), ("user_name", 42)], true), (Outcome::Value, Some(42)));
}

#[test]
fn required_field_without_column_fails() {
    let plan = scalar(false, false, None);
    assert_eq!(
        plan.begin(&strings(&["other"])),
        Action::Finish(Outcome::Failed(Failure::ColumnNotFound))
    );
    assert_eq!(fill(&plan, &[("other", 1)], true).0, Outcome::Failed(Failure::ColumnNotFound));
}

#[test]
fn required_field_without_column_takes_its_default() {
    let plan = scalar(false, true, None);
    assert_eq!(plan.begin(&strings(&["other"])), Action::Finish(Outcome::Default));
    assert_eq!(fill(&plan, &[("other", 1)], true), (Outcome::Default, None));
}

#[test]
fn optional_field_without_column_is_absent() {
    for default in [false, true] {
        let plan = scalar(true, default, None);
        assert_eq!(plan.begin(&strings(&[])), Action::Finish(Outcome::Absent));
        assert_eq!(fill(&plan, &[], true), (Outcome::Absent, None));
    }
}

#[test]
fn optional_field_with_column_is_present() {
    let plan = scalar(true, false, None);
    assert_eq!(fill(&plan, &[("amount", 7)], true), (Outcome::Present, Some(7)));
    let converted = scalar(true, false, Some("Raw"));
    assert_eq!(fill(&converted, &[("amount", 7)], true), (Outcome::Present, Some(7)));
}

#[test]
fn failed_conversion_is_never_masked() {
    for optional in [false, true] {
        for default in [false, true] {
            let plan = scalar(optional, default, Some("Raw"));
            assert_eq!(plan.after_fetch(Event::Value), Action::Convert);
            assert_eq!(plan.after_conversion(false), Outcome::Failed(Failure::ConversionFailed));
            assert_eq!(
                fill(&plan, &[("amount", 7)], false).0,
                Outcome::Failed(Failure::ConversionFailed)
            );
        }
    }
}

#[test]
fn missing_column_is_settled_before_conversion() {
    assert_eq!(scalar(false, true, Some("Raw")).after_fetch(Event::NotFound), Action::Finish(Outcome::Default));
    assert_eq!(scalar(true, false, Some("Raw")).after_fetch(Event::NotFound), Action::Finish(Outcome::Absent));
    assert_eq!(
        scalar(false, false, Some("Raw")).after_fetch(Event::NotFound),
        Action::Finish(Outcome::Failed(Failure::ColumnNotFound))
    );
}

#[test]
fn other_fetch_errors_are_passed_on() {
    for optional in [false, true] {
        for default in [false, true] {
            let plan = scalar(optional, default, None);
            assert_eq!(
                plan.after_fetch(Event::Failed),
                Action::Finish(Outcome::Failed(Failure::Propagated))
            );
        }
    }
}

#[test]
fn nested_failure_is_passed_on_and_no_record_is_built() {
    let c = container(None, &[], &[]);
    let nested = plan_field("owner", false, &c, &child(None, true, true, None));
    assert_eq!(nested.begin(&strings(&["owner"])), Action::Nested);
    for event in [Event::NotFound, Event::Failed] {
        assert_eq!(
            nested.after_fetch(event),
            Action::Finish(Outcome::Failed(Failure::Propagated))
        );
    }
    assert_eq!(nested.after_fetch(Event::Value), Action::Finish(Outcome::Value));
    let outcomes = vec![Outcome::Value, fill(&nested, &[], true).0, Outcome::Failed(Failure::ColumnNotFound)];
    assert_eq!(assemble_record(&outcomes), Err((1, Failure::Propagated)));
}

#[test]
fn flattened_conversion() {
    let c = container(None, &[], &[]);
    let plan = plan_field("owner", true, &c, &child(None, false, true, Some("Raw")));
    assert_eq!(plan.after_fetch(Event::Value), Action::Convert);
    assert_eq!(plan.after_conversion(true), Outcome::Value);
    assert_eq!(plan.after_conversion(false), Outcome::Failed(Failure::ConversionFailed));
}

#[test]
fn record_is_built_only_from_values() {
    assert_eq!(assemble_record(&vec![]), Ok(()));
    assert_eq!(
        assemble_record(&vec![Outcome::Value, Outcome::Present, Outcome::Absent, Outcome::Default]),
        Ok(())
    );
    assert_eq!(
        assemble_record(&vec![
            Outcome::Value,
            Outcome::Failed(Failure::ConversionFailed),
            Outcome::Failed(Failure::ColumnNotFound)
        ]),
        Err((1, Failure::ConversionFailed))
    );
}

fn record(attrs: Vec<Attribute>, fields: Vec<Field>) -> RecordInput {
    RecordInput { ident: "Account".to_string(), attrs, data: RecordData::Named(fields) }
}

fn field(name: Option<&str>, entries: Vec<Directive>, ty: FieldType) -> Field {
    Field { ident: name.map(|s| s.to_string()), attrs: vec![block(entries)], ty }
}

#[test]
fn record_plan_follows_the_declared_order() {
    let input = record(
        vec![block(vec![
            Directive::Text { name: "rename_all".to_string(), value: "snake_case".to_string() },
            Directive::List {
                name: "possible_prefix".to_string(),
                items: vec![ListItem::Text("acc".to_string()), ListItem::Other],
            },
            Directive::List {
                name: "possible_separator".to_string(),
                items: vec![ListItem::Text("_".to_string()), ListItem::Text(".".to_string())],
            },
        ])],
        vec![
            field(Some("userName"), vec![], path("String")),
            field(None, vec![Directive::Literal], path("String")),
            field(
                Some("r#type"),
                vec![Directive::Flag { name: "default".to_string() }],
                path("Option"),
            ),
            field(
                Some("owner"),
                vec![Directive::Flag { name: "flatten".to_string() }],
                FieldType::Other,
            ),
        ],
    );
    let plan = expand_derive_from_mapping_row(&input).unwrap();
    assert_eq!(plan.ident, "Account");
    assert_eq!(plan.fields.len(), 3);
    assert_eq!(plan.fields[0].name, "userName");
    assert_eq!(plan.fields[0].candidates, vec!["acc_user_name", "acc.user_name", "user_name"]);
    assert!(!plan.fields[0].optional);
    assert_eq!(plan.fields[1].name, "r#type");
    assert_eq!(plan.fields[1].candidates, vec!["acc_type", "acc.type", "type"]);
    assert!(plan.fields[1].optional);
    assert!(plan.fields[1].default_on_missing);
    assert_eq!(plan.fields[2].shape(), PlanShape::Flatten);
    assert!(plan.fields[2].candidates.is_empty());
}

#[test]
fn record_plan_fails_on_the_first_fault() {
    let dup = ConfigError {
        kind: ConfigErrorKind::DuplicateDirective,
        at: SourcePosition { block: 0, entry: 1 },
        message: "duplicate attribute".to_string(),
    };
    let twice = vec![
        Directive::Flag { name: "transparent".to_string() },
        Directive::Flag { name: "transparent".to_string() },
    ];
    let bad_type = record(vec![block(twice)], vec![field(Some("a"), vec![Directive::Literal], path("u8"))]);
    assert_eq!(expand_derive_from_mapping_row(&bad_type).unwrap_err(), PlanError::Container(dup));
    let bad_field = record(
        vec![],
        vec![
            field(Some("a"), vec![], path("u8")),
            field(Some("b"), vec![Directive::Literal], path("u8")),
            field(Some("c"), vec![Directive::Literal], path("u8")),
        ],
    );
    assert_eq!(
        expand_derive_from_mapping_row(&bad_field).unwrap_err(),
        PlanError::Field {
            index: 1,
            cause: ConfigError {
                kind: ConfigErrorKind::UnrecognizedDirective,
                at: SourcePosition { block: 0, entry: 0 },
                message: "unexpected mapping attribute".to_string(),
            },
        }
    );
}

#[test]
fn only_named_structures_have_a_plan() {
    let input = RecordInput { ident: "E".to_string(), attrs: vec![], data: RecordData::Other };
    assert_eq!(expand_derive_from_mapping_row(&input).unwrap_err(), PlanError::UnsupportedStructure);
    assert_eq!(
        expand_derive_from_joined_mapping_row(&input).unwrap_err(),
        PlanError::UnsupportedStructure
    );
}

#[test]
fn joined_record_nests_every_named_field() {
    let input = record(
        vec![block(vec![Directive::Literal])],
        vec![
            field(Some("account"), vec![Directive::Literal], path("Account")),
            field(None, vec![], path("Skipped")),
            field(Some("owner"), vec![], path("Option")),
        ],
    );
    let plan = expand_derive_from_joined_mapping_row(&input).unwrap();
    assert_eq!(plan.ident, "Account");
    assert_eq!(plan.fields.len(), 2);
    assert_eq!(plan.fields[0].name, "account");
    assert_eq!(plan.fields[1].name, "owner");
    for f in &plan.fields {
        assert_eq!(f.shape(), PlanShape::Flatten);
        assert!(f.candidates.is_empty());
        assert!(!f.optional);
        assert!(!f.default_on_missing);
        assert_eq!(f.begin(&vec![]), Action::Nested);
    }
}

#[test]
fn a_record_nested_in_itself_is_refused() {
    let outer = enter_nested(vec![], "Account").unwrap();
    assert_eq!(outer, vec!["Account"]);
    let inner = enter_nested(outer, "Owner").unwrap();
    assert_eq!(inner, vec!["Account", "Owner"]);
    assert_eq!(enter_nested(inner.clone(), "Account"), Err(CyclicFlatten { entered_at: 0 }));
    assert_eq!(enter_nested(inner.clone(), "Owner"), Err(CyclicFlatten { entered_at: 1 }));
    assert_eq!(enter_nested(inner, "Address").unwrap().len(), 3);
}
