//! The directive parser: reads one field's annotation options and produces
//! its normalized [`FieldOptions`], or the first error.
//!
//! Recognized top-level options are `skip` and `value` (bare words) and
//! `link(...)` (a group). Inside a `link` group, `key`, `target` and `id`
//! take an expression each; `id` is stored but inert. Any other name, at
//! either level, is an unsupported property; a recognized name written in
//! a form it does not take is a malformed option. Either aborts the parse
//! at the first occurrence.

use vstd::prelude::*;
use vstd::string::StringExecFns;
use crate::digits::{dec_digits, spec_dec_digits};
use crate::model::{
    CompileError, FieldInput, FieldOptions, FieldOptsSpec, LinkOptions, LinkSpec, NestedForm,
    NestedOpt, OptLoc, TopForm, TopOpt, no_options,
};

verus! {

/// The text of the field's own name, or of its index for a positional
/// field, as it stands in an access path.
pub open spec fn spec_field_name_text(f: FieldInput, i: int) -> Seq<char> {
    match f.ident {
        Some(n) => n@,
        None => spec_dec_digits(i as nat),
    }
}

/// The default key of a field's link entries: the field's name as a string
/// literal, or its bare index for a positional field.
pub open spec fn spec_default_key(f: FieldInput, i: int) -> Seq<char> {
    match f.ident {
        Some(n) => "\""@ + n@ + "\""@,
        None => spec_dec_digits(i as nat),
    }
}

/// The default target of a field's link entries: an owned copy of the
/// field's current value.
pub open spec fn spec_default_target(f: FieldInput, i: int) -> Seq<char> {
    "self."@ + spec_field_name_text(f, i) + ".to_owned()"@
}

/// The expression that reads the field's current value.
pub open spec fn spec_accessor(f: FieldInput, i: int) -> Seq<char> {
    "self."@ + spec_field_name_text(f, i)
}

/// The fold of the options inside one `link(...)` group: options are
/// consulted in written order, a later assignment to the same name
/// replacing an earlier one; the first unrecognized or malformed option is
/// the error of the whole parse. `fld` and `opt` locate the enclosing
/// group; `base` is the index of `nested[0]` within it.
pub open spec fn parse_link_opts(
    nested: Seq<NestedOpt>,
    fld: int,
    opt: int,
    base: int,
    acc: LinkSpec,
) -> Result<LinkSpec, CompileError>
    decreases nested.len(),
{
    if nested.len() == 0 {
        Ok(acc)
    } else {
        let n = nested[0];
        let here = OptLoc { field: fld as usize, opt: opt as usize, nested: Some(base as usize) };
        if n.name@ == "key"@ {
            match n.form {
                NestedForm::Assigned(e) => parse_link_opts(
                    nested.drop_first(),
                    fld,
                    opt,
                    base + 1,
                    LinkSpec { key: e@, target: acc.target, id: acc.id },
                ),
                _ => Err(CompileError::MalformedOption(here)),
            }
        } else if n.name@ == "target"@ {
            match n.form {
                NestedForm::Assigned(e) => parse_link_opts(
                    nested.drop_first(),
                    fld,
                    opt,
                    base + 1,
                    LinkSpec { key: acc.key, target: e@, id: acc.id },
                ),
                _ => Err(CompileError::MalformedOption(here)),
            }
        } else if n.name@ == "id"@ {
            match n.form {
                NestedForm::Assigned(e) => parse_link_opts(
                    nested.drop_first(),
                    fld,
                    opt,
                    base + 1,
                    LinkSpec { key: acc.key, target: acc.target, id: Some(e@) },
                ),
                _ => Err(CompileError::MalformedOption(here)),
            }
        } else {
            Err(CompileError::UnsupportedProperty(here))
        }
    }
}

/// The fold of one field's top-level options: each is consulted in written
/// order; `skip` and `value` set their flags, each `link(...)` group
/// appends one entry folded from the field's defaults, and the first
/// unrecognized or malformed option is the error of the whole parse.
/// `fld` is the field's index; `base` the index of `opts[0]`.
pub open spec fn parse_top_opts(
    opts: Seq<TopOpt>,
    fld: int,
    base: int,
    defk: Seq<char>,
    deft: Seq<char>,
    acc: FieldOptsSpec,
) -> Result<FieldOptsSpec, CompileError>
    decreases opts.len(),
{
    if opts.len() == 0 {
        Ok(acc)
    } else {
        let o = opts[0];
        let here = OptLoc { field: fld as usize, opt: base as usize, nested: None };
        if o.name@ == "skip"@ {
            match o.form {
                TopForm::Bare => parse_top_opts(
                    opts.drop_first(),
                    fld,
                    base + 1,
                    defk,
                    deft,
                    FieldOptsSpec { skip: true, value: acc.value, links: acc.links },
                ),
                _ => Err(CompileError::MalformedOption(here)),
            }
        } else if o.name@ == "value"@ {
            match o.form {
                TopForm::Bare => parse_top_opts(
                    opts.drop_first(),
                    fld,
                    base + 1,
                    defk,
                    deft,
                    FieldOptsSpec { skip: acc.skip, value: true, links: acc.links },
                ),
                _ => Err(CompileError::MalformedOption(here)),
            }
        } else if o.name@ == "link"@ {
            match o.form {
                TopForm::Grouped(nested) => match parse_link_opts(
                    nested@,
                    fld,
                    base,
                    0,
                    LinkSpec { key: defk, target: deft, id: None },
                ) {
                    Ok(l) => parse_top_opts(
                        opts.drop_first(),
                        fld,
                        base + 1,
                        defk,
                        deft,
                        FieldOptsSpec { skip: acc.skip, value: acc.value, links: acc.links.push(l) },
                    ),
                    Err(e) => Err(e),
                },
                _ => Err(CompileError::MalformedOption(here)),
            }
        } else {
            Err(CompileError::UnsupportedProperty(here))
        }
    }
}

/// The parse of one whole field: its options folded over the empty set of
/// directives, with the field's defaults resolved once up front.
pub open spec fn spec_field_options(f: FieldInput, i: int) -> Result<FieldOptsSpec, CompileError> {
    parse_top_opts(f.opts@, i, 0, spec_default_key(f, i), spec_default_target(f, i), no_options())
}

/// Compares an option name against a recognized keyword.
fn name_is(name: &String, lit: &str) -> (r: bool)
    ensures
        r == (name@ == lit@),
{
    let l: String = lit.to_owned();
    *name == l
}

/// The text of the field's own name or index. See [`spec_field_name_text`].
pub fn field_name_text(f: &FieldInput, i: usize) -> (s: String)
    ensures
        s@ == spec_field_name_text(*f, i as int),
{
    match &f.ident {
        Some(n) => n.clone(),
        None => dec_digits(i),
    }
}

/// The default key of the field's link entries. See [`spec_default_key`].
pub fn default_key(f: &FieldInput, i: usize) -> (s: String)
    ensures
        s@ == spec_default_key(*f, i as int),
{
    match &f.ident {
        Some(n) => {
            let mut s: String = "\"".to_owned();
            s.append(n.as_str());
            s.append("\"");
            s
        }
        None => dec_digits(i),
    }
}

/// The default target of the field's link entries. See
/// [`spec_default_target`].
pub fn default_target(f: &FieldInput, i: usize) -> (s: String)
    ensures
        s@ == spec_default_target(*f, i as int),
{
    let mut s: String = "self.".to_owned();
    let name = field_name_text(f, i);
    s.append(name.as_str());
    s.append(".to_owned()");
    s
}

/// The expression reading the field's current value. See [`spec_accessor`].
pub fn accessor(f: &FieldInput, i: usize) -> (s: String)
    ensures
        s@ == spec_accessor(*f, i as int),
{
    let mut s: String = "self.".to_owned();
    let name = field_name_text(f, i);
    s.append(name.as_str());
    s
}

/// Parses the options inside one `link(...)` group, starting from the
/// field's defaults.
fn parse_link_options(
    fld: usize,
    opt: usize,
    nested: &Vec<NestedOpt>,
    defk: &String,
    deft: &String,
) -> (r: Result<LinkOptions, CompileError>)
    ensures
        ({
            let g = parse_link_opts(
                nested@,
                fld as int,
                opt as int,
                0,
                LinkSpec { key: defk@, target: deft@, id: None },
            );
            match r {
                Ok(l) => g == Ok::<LinkSpec, CompileError>(l@),
                Err(e) => g == Err::<LinkSpec, CompileError>(e),
            }
        }),
{
    let mut link = LinkOptions { key: defk.clone(), target: deft.clone(), id: None };
    let n = nested.len();
    let mut k: usize = 0;
    proof {
        assert(nested@.subrange(0, n as int) =~= nested@);
    }
    while k < n
        invariant
            k <= n,
            n == nested.len(),
            parse_link_opts(
                nested@.subrange(k as int, n as int),
                fld as int,
                opt as int,
                k as int,
                link@,
            ) == parse_link_opts(
                nested@,
                fld as int,
                opt as int,
                0,
                LinkSpec { key: defk@, target: deft@, id: None },
            ),
        decreases n - k,
    {
        proof {
            assert(nested@.subrange(k as int, n as int).drop_first() =~= nested@.subrange(
                k as int + 1,
                n as int,
            ));
        }
        let no = &nested[k];
        if name_is(&no.name, "key") {
            match &no.form {
                NestedForm::Assigned(e) => {
                    link.key = e.clone();
                }
                _ => {
                    return Err(
                        CompileError::MalformedOption(
                            OptLoc { field: fld, opt: opt, nested: Some(k) },
                        ),
                    );
                }
            }
        } else if name_is(&no.name, "target") {
            match &no.form {
                NestedForm::Assigned(e) => {
                    link.target = e.clone();
                }
                _ => {
                    return Err(
                        CompileError::MalformedOption(
                            OptLoc { field: fld, opt: opt, nested: Some(k) },
                        ),
                    );
                }
            }
        } else if name_is(&no.name, "id") {
            match &no.form {
                NestedForm::Assigned(e) => {
                    link.id = Some(e.clone());
                }
                _ => {
                    return Err(
                        CompileError::MalformedOption(
                            OptLoc { field: fld, opt: opt, nested: Some(k) },
                        ),
                    );
                }
            }
        } else {
            return Err(
                CompileError::UnsupportedProperty(OptLoc { field: fld, opt: opt, nested: Some(k) }),
            );
        }
        k += 1;
    }
    proof {
        assert(nested@.subrange(n as int, n as int) =~= Seq::<NestedOpt>::empty());
    }
    Ok(link)
}

/// Parses one field's annotation options into its normalized directives.
/// The field's defaults are resolved once, before any option is consulted,
/// so a link group that overrides only `key` still receives the default
/// `target`, and vice versa.
pub fn parse_field_options(field_index: usize, field: &FieldInput) -> (r: Result<
    FieldOptions,
    CompileError,
>)
    ensures
        ({
            let g = spec_field_options(*field, field_index as int);
            match r {
                Ok(o) => g == Ok::<FieldOptsSpec, CompileError>(o@),
                Err(e) => g == Err::<FieldOptsSpec, CompileError>(e),
            }
        }),
{
    let defk = default_key(field, field_index);
    let deft = default_target(field, field_index);
    let mut opts = FieldOptions { skip: false, value: false, links: Vec::new() };
    let n = field.opts.len();
    let mut k: usize = 0;
    proof {
        assert(opts@.links =~= no_options().links);
        assert(field.opts@.subrange(0, n as int) =~= field.opts@);
    }
    while k < n
        invariant
            k <= n,
            n == field.opts.len(),
            defk@ == spec_default_key(*field, field_index as int),
            deft@ == spec_default_target(*field, field_index as int),
            parse_top_opts(
                field.opts@.subrange(k as int, n as int),
                field_index as int,
                k as int,
                defk@,
                deft@,
                opts@,
            ) == spec_field_options(*field, field_index as int),
        decreases n - k,
    {
        proof {
            assert(field.opts@.subrange(k as int, n as int).drop_first() =~= field.opts@.subrange(
                k as int + 1,
                n as int,
            ));
        }
        let o = &field.opts[k];
        if name_is(&o.name, "skip") {
            match &o.form {
                TopForm::Bare => {
                    opts.skip = true;
                }
                _ => {
                    return Err(
                        CompileError::MalformedOption(
                            OptLoc { field: field_index, opt: k, nested: None },
                        ),
                    );
                }
            }
        } else if name_is(&o.name, "value") {
            match &o.form {
                TopForm::Bare => {
                    opts.value = true;
                }
                _ => {
                    return Err(
                        CompileError::MalformedOption(
                            OptLoc { field: field_index, opt: k, nested: None },
                        ),
                    );
                }
            }
        } else if name_is(&o.name, "link") {
            match &o.form {
                TopForm::Grouped(nested) => {
                    match parse_link_options(field_index, k, nested, &defk, &deft) {
                        Ok(l) => {
                            let ghost prev = opts@.links;
                            opts.links.push(l);
                            proof {
                                assert(opts@.links =~= prev.push(l@));
                            }
                        }
                        Err(e) => {
                            return Err(e);
                        }
                    }
                }
                _ => {
                    return Err(
                        CompileError::MalformedOption(
                            OptLoc { field: field_index, opt: k, nested: None },
                        ),
                    );
                }
            }
        } else {
            return Err(
                CompileError::UnsupportedProperty(OptLoc { field: field_index, opt: k, nested: None }),
            );
        }
        k += 1;
    }
    proof {
        assert(field.opts@.subrange(n as int, n as int) =~= Seq::<TopOpt>::empty());
    }
    Ok(opts)
}

} // verus!
