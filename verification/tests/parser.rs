//! Tests of the directive parser and of the per-field defaults.

use datalink_derive::digits::dec_digits;
use datalink_derive::model::{
    CompileError, FieldInput, NestedForm, NestedOpt, OptLoc, TopForm, TopOpt,
};
use datalink_derive::parse::{accessor, default_key, default_target, parse_field_options};

fn named(name: &str, opts: Vec<TopOpt>) -> FieldInput {
    FieldInput { ident: Some(name.to_string()), opts }
}

fn positional(opts: Vec<TopOpt>) -> FieldInput {
    FieldInput { ident: None, opts }
}

fn bare(name: &str) -> TopOpt {
    TopOpt { name: name.to_string(), form: TopForm::Bare }
}

fn link(nested: Vec<NestedOpt>) -> TopOpt {
    TopOpt { name: "link".to_string(), form: TopForm::Grouped(nested) }
}

fn assigned(name: &str, expr: &str) -> NestedOpt {
    NestedOpt { name: name.to_string(), form: NestedForm::Assigned(expr.to_string()) }
}

#[test]
fn decimal_rendering() {
    assert_eq!(dec_digits(0), "0");
    assert_eq!(dec_digits(7), "7");
    assert_eq!(dec_digits(10), "10");
    assert_eq!(dec_digits(409), "409");
    assert_eq!(dec_digits(120030), "120030");
}

#[test]
fn defaults_of_a_named_field() {
    let f = named("width", vec![]);
    assert_eq!(default_key(&f, 3), "\"width\"");
    assert_eq!(default_target(&f, 3), "self.width.to_owned()");
    assert_eq!(accessor(&f, 3), "self.width");
}

#[test]
fn defaults_of_a_positional_field() {
    let f = positional(vec![]);
    assert_eq!(default_key(&f, 12), "12");
    assert_eq!(default_target(&f, 12), "self.12.to_owned()");
    assert_eq!(accessor(&f, 12), "self.12");
}

#[test]
fn plain_field_parses_to_no_directives() {
    let f = named("a", vec![]);
    let o = parse_field_options(0, &f).unwrap();
    assert!(!o.skip);
    assert!(!o.value);
    assert!(o.links.is_empty());
}

#[test]
fn skip_and_value_flags_are_set() {
    let f = named("a", vec![bare("skip"), bare("value")]);
    let o = parse_field_options(0, &f).unwrap();
    assert!(o.skip);
    assert!(o.value);
    assert!(o.links.is_empty());
}

#[test]
fn link_entries_resolve_their_own_defaults() {
    let f = named("a", vec![link(vec![assigned("key", "\"x\"")]), link(vec![])]);
    let o = parse_field_options(0, &f).unwrap();
    assert_eq!(o.links.len(), 2);
    assert_eq!(o.links[0].key, "\"x\"");
    assert_eq!(o.links[0].target, "self.a.to_owned()");
    assert_eq!(o.links[1].key, "\"a\"");
    assert_eq!(o.links[1].target, "self.a.to_owned()");
}

#[test]
fn id_expression_is_stored() {
    let f = named("a", vec![link(vec![assigned("id", "self.a.uuid()")])]);
    let o = parse_field_options(0, &f).unwrap();
    assert_eq!(o.links.len(), 1);
    assert_eq!(o.links[0].id.as_deref(), Some("self.a.uuid()"));
}

#[test]
fn skip_with_a_value_is_malformed() {
    let f = named("a", vec![TopOpt { name: "skip".to_string(), form: TopForm::Assigned }]);
    let r = parse_field_options(0, &f);
    assert_eq!(
        r.unwrap_err(),
        CompileError::MalformedOption(OptLoc { field: 0, opt: 0, nested: None })
    );
}

#[test]
fn bare_link_is_malformed() {
    let f = named("a", vec![bare("value"), bare("link")]);
    let r = parse_field_options(0, &f);
    assert_eq!(
        r.unwrap_err(),
        CompileError::MalformedOption(OptLoc { field: 0, opt: 1, nested: None })
    );
}

#[test]
fn bare_nested_key_is_malformed() {
    let f = named("a", vec![link(vec![
        assigned("key", "\"x\""),
        NestedOpt { name: "target".to_string(), form: NestedForm::Bare },
    ])]);
    let r = parse_field_options(2, &f);
    assert_eq!(
        r.unwrap_err(),
        CompileError::MalformedOption(OptLoc { field: 2, opt: 0, nested: Some(1) })
    );
}

#[test]
fn grouped_nested_option_is_malformed() {
    let f = named("a", vec![link(vec![
        NestedOpt { name: "id".to_string(), form: NestedForm::Grouped },
    ])]);
    let r = parse_field_options(0, &f);
    assert_eq!(
        r.unwrap_err(),
        CompileError::MalformedOption(OptLoc { field: 0, opt: 0, nested: Some(0) })
    );
}

#[test]
fn unknown_name_beats_malformed_form_later_in_the_list() {
    // The parse stops at the first offending option: here the unknown name
    // comes first, so the malformed `skip` after it is never reached.
    let f = named("a", vec![
        bare("mystery"),
        TopOpt { name: "skip".to_string(), form: TopForm::Assigned },
    ]);
    let r = parse_field_options(0, &f);
    assert_eq!(
        r.unwrap_err(),
        CompileError::UnsupportedProperty(OptLoc { field: 0, opt: 0, nested: None })
    );
}
