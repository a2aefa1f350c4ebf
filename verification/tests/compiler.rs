//! End-to-end tests of the compiler: whole-record synthesis, ordering,
//! defaults, and the error cases.

use datalink_derive::model::{
    CompileError, FieldInput, NestedForm, NestedOpt, OptLoc, RecordDef, RecordShape, TopForm,
    TopOpt,
};
use datalink_derive::synth::{gen_impls_for_struct, impl_derive_data};

fn named(name: &str, opts: Vec<TopOpt>) -> FieldInput {
    FieldInput { ident: Some(name.to_string()), opts }
}

fn positional(opts: Vec<TopOpt>) -> FieldInput {
    FieldInput { ident: None, opts }
}

fn bare(name: &str) -> TopOpt {
    TopOpt { name: name.to_string(), form: TopForm::Bare }
}

fn link(nested: Vec<NestedOpt>) -> TopOpt {
    TopOpt { name: "link".to_string(), form: TopForm::Grouped(nested) }
}

fn assigned(name: &str, expr: &str) -> NestedOpt {
    NestedOpt { name: name.to_string(), form: NestedForm::Assigned(expr.to_string()) }
}

fn struct_def(name: &str, fields: Vec<FieldInput>) -> RecordDef {
    RecordDef { ident: name.to_string(), shape: RecordShape::Struct(fields) }
}

fn expected_impl(name: &str, vbody: &str, lbody: &str) -> String {
    let mut s = String::new();
    s.push_str("impl ::datalink::data::Data for ");
    s.push_str(name);
    s.push_str(" {\n#[allow(unused_variables)]\n#[inline]\nfn provide_value(&self, mut request: ::datalink::value::ValueRequest) {\nuse ::datalink::value::Provided as _;\nself.provide_requested(&mut request).debug_assert_provided();\n}\n#[allow(unused_variables)]\n#[inline]\nfn provide_requested<R: ::datalink::value::Req>(&self, request: &mut ::datalink::value::ValueRequest<R>) -> impl ::datalink::value::Provided {\n");
    s.push_str(vbody);
    s.push_str("}\n#[allow(unused_variables)]\nfn provide_links(&self, links: &mut dyn ::datalink::links::Links) -> Result<(), ::datalink::links::LinkError> {\nuse ::datalink::links::LinksExt as _;\n");
    s.push_str(lbody);
    s.push_str("Ok(())\n}\n}\n");
    s
}

#[test]
fn unannotated_fields_link_by_default() {
    // Three plain fields: the link provider pairs each field's name with an
    // owned copy of its value, in declaration order; no value is exposed.
    let fields = vec![named("a", vec![]), named("b", vec![]), named("c", vec![])];
    let (vbody, lbody) = gen_impls_for_struct(&fields).unwrap();
    assert_eq!(vbody, "");
    assert_eq!(
        lbody,
        "links.push_link((\"a\", self.a.to_owned()))?;\n\
         links.push_link((\"b\", self.b.to_owned()))?;\n\
         links.push_link((\"c\", self.c.to_owned()))?;\n"
    );
}

#[test]
fn skip_and_value_annotations() {
    // `b` is skipped and `c` is exposed as a value; both keep their other
    // behavior: `a` and `c` are linked, `b` contributes nothing.
    let fields = vec![
        named("a", vec![]),
        named("b", vec![bare("skip")]),
        named("c", vec![bare("value")]),
    ];
    let (vbody, lbody) = gen_impls_for_struct(&fields).unwrap();
    assert_eq!(vbody, "request.provide_ref(&self.c);\n");
    assert_eq!(
        lbody,
        "links.push_link((\"a\", self.a.to_owned()))?;\n\
         links.push_link((\"c\", self.c.to_owned()))?;\n"
    );
}

#[test]
fn two_link_directives_cumulate_in_written_order() {
    // Two explicit link directives on one field: one entry each, in the
    // order written, each resolving its own defaults independently.
    let fields = vec![named(
        "a",
        vec![
            link(vec![assigned("key", "\"x\"")]),
            link(vec![assigned("key", "\"y\""), assigned("target", "self.a.len()")]),
        ],
    )];
    let (vbody, lbody) = gen_impls_for_struct(&fields).unwrap();
    assert_eq!(vbody, "");
    assert_eq!(
        lbody,
        "links.push_link((\"x\", self.a.to_owned()))?;\n\
         links.push_link((\"y\", self.a.len()))?;\n"
    );
}

#[test]
fn unknown_nested_option_fails_with_no_output() {
    let fields = vec![named("a", vec![link(vec![assigned("bogus", "true")])])];
    let r = gen_impls_for_struct(&fields);
    assert_eq!(
        r.unwrap_err(),
        CompileError::UnsupportedProperty(OptLoc { field: 0, opt: 0, nested: Some(0) })
    );
}

#[test]
fn unknown_top_level_option_fails() {
    let fields = vec![named("a", vec![]), named("b", vec![bare("bogus")])];
    let r = gen_impls_for_struct(&fields);
    assert_eq!(
        r.unwrap_err(),
        CompileError::UnsupportedProperty(OptLoc { field: 1, opt: 0, nested: None })
    );
}

#[test]
fn first_error_wins() {
    // Both fields are bad; the first field's error is reported.
    let fields = vec![named("a", vec![bare("wrong")]), named("b", vec![bare("also wrong")])];
    let r = gen_impls_for_struct(&fields);
    assert_eq!(
        r.unwrap_err(),
        CompileError::UnsupportedProperty(OptLoc { field: 0, opt: 0, nested: None })
    );
}

#[test]
fn skip_wins_over_cooccurring_annotations() {
    // A skipped field contributes nothing even when `value` and `link`
    // stand beside `skip`, and whatever their order.
    let fields = vec![
        named("a", vec![bare("value"), bare("skip"), link(vec![assigned("key", "\"k\"")])]),
        named("b", vec![link(vec![]), bare("skip")]),
    ];
    let (vbody, lbody) = gen_impls_for_struct(&fields).unwrap();
    assert_eq!(vbody, "");
    assert_eq!(lbody, "");
}

#[test]
fn value_exposed_once_despite_many_directives() {
    // `value` marks the field once, however often it is repeated and
    // however many links the field also carries.
    let fields = vec![named(
        "a",
        vec![bare("value"), bare("value"), link(vec![]), link(vec![assigned("key", "\"k\"")])],
    )];
    let (vbody, lbody) = gen_impls_for_struct(&fields).unwrap();
    assert_eq!(vbody, "request.provide_ref(&self.a);\n");
    assert_eq!(
        lbody,
        "links.push_link((\"a\", self.a.to_owned()))?;\n\
         links.push_link((\"k\", self.a.to_owned()))?;\n"
    );
}

#[test]
fn link_directive_fills_missing_parts_from_defaults() {
    // Overriding only the key keeps the default target, and vice versa.
    let fields = vec![
        named("a", vec![link(vec![assigned("key", "\"x\"")])]),
        named("b", vec![link(vec![assigned("target", "self.b.id()")])]),
    ];
    let (_, lbody) = gen_impls_for_struct(&fields).unwrap();
    assert_eq!(
        lbody,
        "links.push_link((\"x\", self.a.to_owned()))?;\n\
         links.push_link((\"b\", self.b.id()))?;\n"
    );
}

#[test]
fn later_nested_assignment_wins_within_one_group() {
    let fields = vec![named(
        "a",
        vec![link(vec![assigned("key", "\"first\""), assigned("key", "\"second\"")])],
    )];
    let (_, lbody) = gen_impls_for_struct(&fields).unwrap();
    assert_eq!(lbody, "links.push_link((\"second\", self.a.to_owned()))?;\n");
}

#[test]
fn id_is_parsed_but_inert() {
    // An `id` expression is accepted and leaves no trace in the output:
    // the rendered entry equals the one written without it.
    let with_id = vec![named("a", vec![link(vec![assigned("id", "self.a.id()")])])];
    let without = vec![named("a", vec![link(vec![])])];
    let (_, with_id_body) = gen_impls_for_struct(&with_id).unwrap();
    let (_, without_body) = gen_impls_for_struct(&without).unwrap();
    assert_eq!(with_id_body, without_body);
    assert_eq!(without_body, "links.push_link((\"a\", self.a.to_owned()))?;\n");
}

#[test]
fn positional_fields_use_their_index() {
    // Eleven positional fields: keys are bare indexes, and the eleventh
    // renders in two digits.
    let mut fields: Vec<FieldInput> = Vec::new();
    for _ in 0..11 {
        fields.push(positional(vec![]));
    }
    let (_, lbody) = gen_impls_for_struct(&fields).unwrap();
    let lines: Vec<&str> = lbody.lines().collect();
    assert_eq!(lines.len(), 11);
    assert_eq!(lines[0], "links.push_link((0, self.0.to_owned()))?;");
    assert_eq!(lines[9], "links.push_link((9, self.9.to_owned()))?;");
    assert_eq!(lines[10], "links.push_link((10, self.10.to_owned()))?;");
}

#[test]
fn whole_impl_text_for_mixed_record() {
    let def = struct_def(
        "Rec",
        vec![
            named("a", vec![]),
            named("b", vec![bare("skip")]),
            named("c", vec![bare("value")]),
        ],
    );
    let out = impl_derive_data(&def).unwrap();
    assert_eq!(
        out,
        expected_impl(
            "Rec",
            "request.provide_ref(&self.c);\n",
            "links.push_link((\"a\", self.a.to_owned()))?;\nlinks.push_link((\"c\", self.c.to_owned()))?;\n",
        )
    );
}

#[test]
fn empty_record_compiles_to_empty_bodies() {
    let def = struct_def("Nothing", vec![]);
    let out = impl_derive_data(&def).unwrap();
    assert_eq!(out, expected_impl("Nothing", "", ""));
}

#[test]
fn recompiling_unchanged_input_is_byte_identical() {
    // Two independently built, equal inputs compile to identical bytes.
    let build = || {
        struct_def(
            "Rec",
            vec![
                named("a", vec![link(vec![assigned("key", "\"x\"")]), bare("value")]),
                positional(vec![]),
            ],
        )
    };
    let first = impl_derive_data(&build()).unwrap();
    let second = impl_derive_data(&build()).unwrap();
    assert_eq!(first, second);
}

#[test]
fn enum_and_union_shapes_are_rejected() {
    let e = RecordDef { ident: "E".to_string(), shape: RecordShape::Enum };
    let u = RecordDef { ident: "U".to_string(), shape: RecordShape::Union };
    assert_eq!(impl_derive_data(&e).unwrap_err(), CompileError::UnsupportedShape);
    assert_eq!(impl_derive_data(&u).unwrap_err(), CompileError::UnsupportedShape);
}

#[test]
fn error_messages() {
    let unsupported = CompileError::UnsupportedProperty(OptLoc { field: 0, opt: 0, nested: None });
    let malformed = CompileError::MalformedOption(OptLoc { field: 0, opt: 0, nested: None });
    assert_eq!(unsupported.message(), "unsupported property");
    assert_eq!(malformed.message(), "malformed option");
    assert_eq!(CompileError::UnsupportedShape.message(), "unsupported record shape");
}
