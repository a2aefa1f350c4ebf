//! The synthesis engine: walks the record's fields in declaration order,
//! parses each field's directives, accumulates the value and link
//! exposures, and renders the text of the two generated procedures and of
//! the enclosing capability implementation.
//!
//! Both generated procedures are deterministic: their statements stand in
//! field declaration order, and a field's link entries in the order their
//! directives were written. A skipped field contributes nothing; a field
//! with no explicit link directive contributes exactly one default entry.

use vstd::prelude::*;
use vstd::string::StringExecFns;
use crate::model::{
    CompileError, FieldInput, LinkOptions, LinkSpec, RecordDef, RecordShape,
};
use crate::parse::{
    accessor, default_key, default_target, parse_field_options, spec_accessor, spec_default_key,
    spec_default_target, spec_field_options,
};

verus! {

/// One generated value-provider statement: registers a reference to the
/// field's current value with the caller's request.
pub open spec fn spec_value_stmt(acc: Seq<char>) -> Seq<char> {
    "request.provide_ref(&"@ + acc + ");\n"@
}

/// The generated value-provider body: one registration per exposed field,
/// in declaration order.
pub open spec fn spec_values_body(vals: Seq<Seq<char>>) -> Seq<char>
    decreases vals.len(),
{
    if vals.len() == 0 {
        Seq::empty()
    } else {
        spec_value_stmt(vals[0]) + spec_values_body(vals.drop_first())
    }
}

/// One generated link-provider statement: pushes the entry's `(key,
/// target)` pair onto the caller's collector, and propagates a failed push
/// at once through `?`. The entry's inert `id` is not rendered.
pub open spec fn spec_link_stmt(l: LinkSpec) -> Seq<char> {
    "links.push_link(("@ + l.key + ", "@ + l.target + "))?;\n"@
}

/// The generated link-provider body: one push per link entry, in order.
pub open spec fn spec_links_body(links: Seq<LinkSpec>) -> Seq<char>
    decreases links.len(),
{
    if links.len() == 0 {
        Seq::empty()
    } else {
        spec_link_stmt(links[0]) + spec_links_body(links.drop_first())
    }
}

/// The default link entry of a field: its name or index as the key, an
/// owned copy of its value as the target.
pub open spec fn spec_default_link(f: FieldInput, i: int) -> LinkSpec {
    LinkSpec { key: spec_default_key(f, i), target: spec_default_target(f, i), id: None }
}

/// The value exposures one field contributes: nothing if it is skipped or
/// not marked `value`, one accessor otherwise.
pub open spec fn spec_field_values(f: FieldInput, i: int) -> Seq<Seq<char>> {
    match spec_field_options(f, i) {
        Ok(o) => if o.skip {
            Seq::empty()
        } else if o.value {
            seq![spec_accessor(f, i)]
        } else {
            Seq::empty()
        },
        Err(_) => Seq::empty(),
    }
}

/// The link exposures one field contributes: nothing if it is skipped, its
/// explicit entries in written order if it wrote any, and the single
/// default entry otherwise.
pub open spec fn spec_field_links(f: FieldInput, i: int) -> Seq<LinkSpec> {
    match spec_field_options(f, i) {
        Ok(o) => if o.skip {
            Seq::empty()
        } else if o.links.len() == 0 {
            seq![spec_default_link(f, i)]
        } else {
            o.links
        },
        Err(_) => Seq::empty(),
    }
}

/// The fold over the record's fields, `i` being the index of `fields[0]`:
/// the first field error aborts the whole compilation; otherwise each
/// field appends its exposures in declaration order.
pub open spec fn spec_collect(
    fields: Seq<FieldInput>,
    i: int,
    vals: Seq<Seq<char>>,
    links: Seq<LinkSpec>,
) -> Result<(Seq<Seq<char>>, Seq<LinkSpec>), CompileError>
    decreases fields.len(),
{
    if fields.len() == 0 {
        Ok((vals, links))
    } else {
        match spec_field_options(fields[0], i) {
            Err(e) => Err(e),
            Ok(_) => spec_collect(
                fields.drop_first(),
                i + 1,
                vals + spec_field_values(fields[0], i),
                links + spec_field_links(fields[0], i),
            ),
        }
    }
}

/// The two generated bodies of a plain record.
pub open spec fn spec_struct_bodies(fields: Seq<FieldInput>) -> Result<
    (Seq<char>, Seq<char>),
    CompileError,
> {
    match spec_collect(fields, 0, Seq::empty(), Seq::empty()) {
        Err(e) => Err(e),
        Ok(e) => Ok((spec_values_body(e.0), spec_links_body(e.1))),
    }
}

/// The text of the whole generated capability implementation: the two
/// provider bodies wrapped into one implementation for the record type,
/// together with the thin dispatcher that narrows an erased request to the
/// typed form before delegating.
pub open spec fn spec_impl_text(name: Seq<char>, vbody: Seq<char>, lbody: Seq<char>) -> Seq<char> {
    "impl ::datalink::data::Data for "@ + name
        + " {\n#[allow(unused_variables)]\n#[inline]\nfn provide_value(&self, mut request: ::datalink::value::ValueRequest) {\nuse ::datalink::value::Provided as _;\nself.provide_requested(&mut request).debug_assert_provided();\n}\n#[allow(unused_variables)]\n#[inline]\nfn provide_requested<R: ::datalink::value::Req>(&self, request: &mut ::datalink::value::ValueRequest<R>) -> impl ::datalink::value::Provided {\n"@
        + vbody
        + "}\n#[allow(unused_variables)]\nfn provide_links(&self, links: &mut dyn ::datalink::links::Links) -> Result<(), ::datalink::links::LinkError> {\nuse ::datalink::links::LinksExt as _;\n"@
        + lbody + "Ok(())\n}\n}\n"@
}

/// Everything the compiler produces for one record definition: the full
/// generated implementation text, or the first error. Sum-type and union
/// shapes are rejected outright.
pub open spec fn spec_compile(def: RecordDef) -> Result<Seq<char>, CompileError> {
    match def.shape {
        RecordShape::Struct(fields) => match spec_struct_bodies(fields@) {
            Err(e) => Err(e),
            Ok(b) => Ok(spec_impl_text(def.ident@, b.0, b.1)),
        },
        RecordShape::Enum => Err(CompileError::UnsupportedShape),
        RecordShape::Union => Err(CompileError::UnsupportedShape),
    }
}

/// Renders the value-provider body: one registration statement per
/// exposure, in the order given.
pub fn gen_provide_values_impl(values: &Vec<String>) -> (s: String)
    ensures
        s@ == spec_values_body(values.deep_view()),
{
    let ghost vs = values.deep_view();
    let mut out = String::new();
    let n = values.len();
    let mut k: usize = 0;
    proof {
        assert(vs.subrange(0, n as int) =~= vs);
        assert(out@ + spec_values_body(vs) =~= spec_values_body(vs));
    }
    while k < n
        invariant
            k <= n,
            n == values.len(),
            vs == values.deep_view(),
            out@ + spec_values_body(vs.subrange(k as int, n as int)) == spec_values_body(vs),
        decreases n - k,
    {
        proof {
            assert(vs.subrange(k as int, n as int).drop_first() =~= vs.subrange(
                k as int + 1,
                n as int,
            ));
            assert(vs.subrange(k as int, n as int)[0] == values@[k as int]@);
        }
        let ghost prev = out@;
        out.append("request.provide_ref(&");
        out.append(values[k].as_str());
        out.append(");\n");
        proof {
            assert(out@ + spec_values_body(vs.subrange(k as int + 1, n as int)) =~= prev
                + spec_values_body(vs.subrange(k as int, n as int)));
        }
        k += 1;
    }
    proof {
        assert(vs.subrange(n as int, n as int) =~= Seq::<Seq<char>>::empty());
        assert(out@ + spec_values_body(Seq::<Seq<char>>::empty()) =~= out@);
    }
    out
}

/// Renders the link-provider body: one push statement per link entry, in
/// the order given. The entries' inert `id` expressions leave no trace in
/// the output.
pub fn gen_provide_links_impl(links: &Vec<LinkOptions>) -> (s: String)
    ensures
        s@ == spec_links_body(links@.map_values(|l: LinkOptions| l@)),
{
    let ghost ls = links@.map_values(|l: LinkOptions| l@);
    let mut out = String::new();
    let n = links.len();
    let mut k: usize = 0;
    proof {
        assert(ls.subrange(0, n as int) =~= ls);
        assert(out@ + spec_links_body(ls) =~= spec_links_body(ls));
    }
    while k < n
        invariant
            k <= n,
            n == links.len(),
            ls == links@.map_values(|l: LinkOptions| l@),
            out@ + spec_links_body(ls.subrange(k as int, n as int)) == spec_links_body(ls),
        decreases n - k,
    {
        proof {
            assert(ls.subrange(k as int, n as int).drop_first() =~= ls.subrange(
                k as int + 1,
                n as int,
            ));
            assert(ls.subrange(k as int, n as int)[0] == links@[k as int]@);
        }
        let ghost prev = out@;
        out.append("links.push_link((");
        out.append(links[k].key.as_str());
        out.append(", ");
        out.append(links[k].target.as_str());
        out.append("))?;\n");
        proof {
            assert(out@ + spec_links_body(ls.subrange(k as int + 1, n as int)) =~= prev
                + spec_links_body(ls.subrange(k as int, n as int)));
        }
        k += 1;
    }
    proof {
        assert(ls.subrange(n as int, n as int) =~= Seq::<LinkSpec>::empty());
        assert(out@ + spec_links_body(Seq::<LinkSpec>::empty()) =~= out@);
    }
    out
}

/// Walks the record's fields in declaration order, parses each field's
/// directives, and renders the two generated bodies. The first field error
/// aborts with no output.
pub fn gen_impls_for_struct(fields: &Vec<FieldInput>) -> (r: Result<
    (String, String),
    CompileError,
>)
    ensures
        ({
            let g = spec_struct_bodies(fields@);
            match r {
                Ok(b) => g == Ok::<(Seq<char>, Seq<char>), CompileError>((b.0@, b.1@)),
                Err(e) => g == Err::<(Seq<char>, Seq<char>), CompileError>(e),
            }
        }),
{
    let mut values: Vec<String> = Vec::new();
    let mut links: Vec<LinkOptions> = Vec::new();
    let n = fields.len();
    let mut k: usize = 0;
    proof {
        assert(fields@.subrange(0, n as int) =~= fields@);
        assert(values.deep_view() =~= Seq::<Seq<char>>::empty());
        assert(links@.map_values(|l: LinkOptions| l@) =~= Seq::<LinkSpec>::empty());
    }
    while k < n
        invariant
            k <= n,
            n == fields.len(),
            spec_collect(
                fields@.subrange(k as int, n as int),
                k as int,
                values.deep_view(),
                links@.map_values(|l: LinkOptions| l@),
            ) == spec_collect(fields@, 0, Seq::empty(), Seq::empty()),
        decreases n - k,
    {
        proof {
            assert(fields@.subrange(k as int, n as int).drop_first() =~= fields@.subrange(
                k as int + 1,
                n as int,
            ));
            assert(fields@.subrange(k as int, n as int)[0] == fields@[k as int]);
        }
        let f = &fields[k];
        let ghost prev_vals = values.deep_view();
        let ghost prev_links = links@.map_values(|l: LinkOptions| l@);
        match parse_field_options(k, f) {
            Err(e) => {
                return Err(e);
            }
            Ok(o) => {
                if !o.skip {
                    if o.value {
                        values.push(accessor(f, k));
                    }
                    if o.links.len() == 0 {
                        links.push(
                            LinkOptions {
                                key: default_key(f, k),
                                target: default_target(f, k),
                                id: None,
                            },
                        );
                    } else {
                        let mut ls = o.links;
                        links.append(&mut ls);
                    }
                }
                proof {
                    assert(values.deep_view() =~= prev_vals + spec_field_values(
                        fields@[k as int],
                        k as int,
                    ));
                    assert(links@.map_values(|l: LinkOptions| l@) =~= prev_links
                        + spec_field_links(fields@[k as int], k as int));
                }
            }
        }
        k += 1;
    }
    proof {
        assert(fields@.subrange(n as int, n as int) =~= Seq::<FieldInput>::empty());
    }
    let vbody = gen_provide_values_impl(&values);
    let lbody = gen_provide_links_impl(&links);
    Ok((vbody, lbody))
}

/// Renders the whole capability implementation of the record type around
/// the two provider bodies.
fn render_impl(name: &String, vbody: &String, lbody: &String) -> (s: String)
    ensures
        s@ == spec_impl_text(name@, vbody@, lbody@),
{
    let mut s: String = "impl ::datalink::data::Data for ".to_owned();
    s.append(name.as_str());
    s.append(
        " {\n#[allow(unused_variables)]\n#[inline]\nfn provide_value(&self, mut request: ::datalink::value::ValueRequest) {\nuse ::datalink::value::Provided as _;\nself.provide_requested(&mut request).debug_assert_provided();\n}\n#[allow(unused_variables)]\n#[inline]\nfn provide_requested<R: ::datalink::value::Req>(&self, request: &mut ::datalink::value::ValueRequest<R>) -> impl ::datalink::value::Provided {\n",
    );
    s.append(vbody.as_str());
    s.append(
        "}\n#[allow(unused_variables)]\nfn provide_links(&self, links: &mut dyn ::datalink::links::Links) -> Result<(), ::datalink::links::LinkError> {\nuse ::datalink::links::LinksExt as _;\n",
    );
    s.append(lbody.as_str());
    s.append("Ok(())\n}\n}\n");
    s
}

/// Compiles one record definition into the text of its capability
/// implementation: a value provider registering a reference per exposed
/// field, and a link provider pushing one `(key, target)` pair per link
/// entry, both in field declaration order. The first malformed or
/// unrecognized directive, and any record shape other than a plain field
/// sequence, aborts with an error and no output.
pub fn impl_derive_data(def: &RecordDef) -> (r: Result<String, CompileError>)
    ensures
        ({
            let g = spec_compile(*def);
            match r {
                Ok(s) => g == Ok::<Seq<char>, CompileError>(s@),
                Err(e) => g == Err::<Seq<char>, CompileError>(e),
            }
        }),
{
    match &def.shape {
        RecordShape::Struct(fields) => match gen_impls_for_struct(fields) {
            Ok(b) => Ok(render_impl(&def.ident, &b.0, &b.1)),
            Err(e) => Err(e),
        },
        RecordShape::Enum => Err(CompileError::UnsupportedShape),
        RecordShape::Union => Err(CompileError::UnsupportedShape),
    }
}

} // verus!
