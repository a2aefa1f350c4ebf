//! The laws of the compiler, stated and proved over the specification
//! functions in which the executable functions' contracts are written.

use vstd::prelude::*;
use crate::model::{
    CompileError, FieldInput, FieldOptsSpec, LinkSpec, NestedForm, NestedOpt, RecordDef, TopForm,
    TopOpt, no_options,
};
use crate::parse::{
    parse_link_opts, parse_top_opts, spec_accessor, spec_default_key, spec_default_target,
    spec_field_options,
};
use crate::synth::{
    spec_compile, spec_collect, spec_default_link, spec_field_links, spec_field_values,
};

verus! {

/// Whether a top-level option is the `skip` directive.
pub open spec fn is_skip(o: TopOpt) -> bool {
    o.name@ == "skip"@
}

/// Whether a top-level option is the `value` directive.
pub open spec fn is_value(o: TopOpt) -> bool {
    o.name@ == "value"@
}

/// Whether a top-level option is a `link` directive.
pub open spec fn is_link(o: TopOpt) -> bool {
    o.name@ == "link"@
}

/// Whether some option of the sequence is the `skip` directive.
pub open spec fn has_skip(opts: Seq<TopOpt>) -> bool {
    exists|j: int| 0 <= j < opts.len() && is_skip(#[trigger] opts[j])
}

/// Whether some option of the sequence is the `value` directive.
pub open spec fn has_value(opts: Seq<TopOpt>) -> bool {
    exists|j: int| 0 <= j < opts.len() && is_value(#[trigger] opts[j])
}

/// The content of a `link(...)` group; empty for a form that carries none
/// (a successful parse only ever meets the grouped form).
pub open spec fn group_of(o: TopOpt) -> Seq<NestedOpt> {
    match o.form {
        TopForm::Grouped(g) => g@,
        _ => Seq::empty(),
    }
}

/// The groups of the sequence's `link` options, in written order.
pub open spec fn link_groups(opts: Seq<TopOpt>) -> Seq<Seq<NestedOpt>>
    decreases opts.len(),
{
    if opts.len() == 0 {
        Seq::empty()
    } else {
        let rest = link_groups(opts.drop_first());
        if is_link(opts[0]) {
            seq![group_of(opts[0])] + rest
        } else {
            rest
        }
    }
}

/// The link entry one `link(...)` group resolves to, folded from `acc` in
/// written order: the error-free image of [`parse_link_opts`]. On an
/// option a successful parse would refuse, the fold stops at `acc`; the
/// laws only consult it where the parse succeeds.
pub open spec fn spec_link_value(nested: Seq<NestedOpt>, acc: LinkSpec) -> LinkSpec
    decreases nested.len(),
{
    if nested.len() == 0 {
        acc
    } else {
        let n = nested[0];
        let rest = nested.drop_first();
        if n.name@ == "key"@ {
            match n.form {
                NestedForm::Assigned(e) => spec_link_value(
                    rest,
                    LinkSpec { key: e@, target: acc.target, id: acc.id },
                ),
                _ => acc,
            }
        } else if n.name@ == "target"@ {
            match n.form {
                NestedForm::Assigned(e) => spec_link_value(
                    rest,
                    LinkSpec { key: acc.key, target: e@, id: acc.id },
                ),
                _ => acc,
            }
        } else if n.name@ == "id"@ {
            match n.form {
                NestedForm::Assigned(e) => spec_link_value(
                    rest,
                    LinkSpec { key: acc.key, target: acc.target, id: Some(e@) },
                ),
                _ => acc,
            }
        } else {
            acc
        }
    }
}

/// The link entries all the sequence's `link` groups resolve to, in
/// written order, each folded independently from the same defaults.
pub open spec fn spec_links_of(opts: Seq<TopOpt>, dk: Seq<char>, dt: Seq<char>) -> Seq<LinkSpec>
    decreases opts.len(),
{
    if opts.len() == 0 {
        Seq::empty()
    } else {
        let rest = spec_links_of(opts.drop_first(), dk, dt);
        if is_link(opts[0]) {
            seq![spec_link_value(group_of(opts[0]), LinkSpec { key: dk, target: dt, id: None })]
                + rest
        } else {
            rest
        }
    }
}

/// The three recognized top-level keywords are pairwise distinct texts.
proof fn lemma_keyword_distinct()
    ensures
        "skip"@ != "value"@,
        "skip"@ != "link"@,
        "value"@ != "link"@,
{
    reveal_strlit("skip");
    reveal_strlit("value");
    reveal_strlit("link");
    assert("skip"@.len() == 4);
    assert("value"@.len() == 5);
    assert("link"@.len() == 4);
    assert("skip"@[0] == 's');
    assert("link"@[0] == 'l');
}

/// Shifts the three option predicates across the head of a sequence.
proof fn lemma_has_shift(opts: Seq<TopOpt>)
    requires
        opts.len() > 0,
    ensures
        has_skip(opts) == (is_skip(opts[0]) || has_skip(opts.drop_first())),
        has_value(opts) == (is_value(opts[0]) || has_value(opts.drop_first())),
{
    let rest = opts.drop_first();
    if has_skip(opts) {
        let j = choose|j: int| 0 <= j < opts.len() && is_skip(#[trigger] opts[j]);
        if j > 0 {
            assert(is_skip(rest[j - 1]));
        }
    }
    if has_skip(rest) {
        let j = choose|j: int| 0 <= j < rest.len() && is_skip(#[trigger] rest[j]);
        assert(is_skip(opts[j + 1]));
    }
    if has_value(opts) {
        let j = choose|j: int| 0 <= j < opts.len() && is_value(#[trigger] opts[j]);
        if j > 0 {
            assert(is_value(rest[j - 1]));
        }
    }
    if has_value(rest) {
        let j = choose|j: int| 0 <= j < rest.len() && is_value(#[trigger] rest[j]);
        assert(is_value(opts[j + 1]));
    }
}

/// A successful fold of a `link(...)` group returns exactly the group's
/// error-free image.
proof fn lemma_parse_link_ok(nested: Seq<NestedOpt>, fld: int, opt: int, base: int, acc: LinkSpec)
    requires
        parse_link_opts(nested, fld, opt, base, acc) is Ok,
    ensures
        parse_link_opts(nested, fld, opt, base, acc)->Ok_0 == spec_link_value(nested, acc),
    decreases nested.len(),
{
    if nested.len() > 0 {
        let n = nested[0];
        let rest = nested.drop_first();
        if n.name@ == "key"@ {
            if let NestedForm::Assigned(e) = n.form {
                lemma_parse_link_ok(
                    rest,
                    fld,
                    opt,
                    base + 1,
                    LinkSpec { key: e@, target: acc.target, id: acc.id },
                );
            }
        } else if n.name@ == "target"@ {
            if let NestedForm::Assigned(e) = n.form {
                lemma_parse_link_ok(
                    rest,
                    fld,
                    opt,
                    base + 1,
                    LinkSpec { key: acc.key, target: e@, id: acc.id },
                );
            }
        } else if n.name@ == "id"@ {
            if let NestedForm::Assigned(e) = n.form {
                lemma_parse_link_ok(
                    rest,
                    fld,
                    opt,
                    base + 1,
                    LinkSpec { key: acc.key, target: acc.target, id: Some(e@) },
                );
            }
        }
    }
}

/// What a successful parse of a field's options returns: `skip` and
/// `value` hold exactly where the directive was written (or already stood
/// in the accumulator), and the link entries are the accumulator's
/// followed by one entry per written `link` group, in order, each folded
/// from the field's defaults.
proof fn lemma_parse_top_ok(
    opts: Seq<TopOpt>,
    fld: int,
    base: int,
    dk: Seq<char>,
    dt: Seq<char>,
    acc: FieldOptsSpec,
)
    requires
        parse_top_opts(opts, fld, base, dk, dt, acc) is Ok,
    ensures
        ({
            let o = parse_top_opts(opts, fld, base, dk, dt, acc)->Ok_0;
            &&& o.skip == (acc.skip || has_skip(opts))
            &&& o.value == (acc.value || has_value(opts))
            &&& o.links == acc.links + spec_links_of(opts, dk, dt)
        }),
    decreases opts.len(),
{
    lemma_keyword_distinct();
    if opts.len() == 0 {
        assert(acc.links + spec_links_of(opts, dk, dt) =~= acc.links);
    } else {
        let o0 = opts[0];
        let rest = opts.drop_first();
        lemma_has_shift(opts);
        if o0.name@ == "skip"@ {
            if o0.form is Bare {
                let acc1 = FieldOptsSpec { skip: true, value: acc.value, links: acc.links };
                lemma_parse_top_ok(rest, fld, base + 1, dk, dt, acc1);
            }
        } else if o0.name@ == "value"@ {
            if o0.form is Bare {
                let acc1 = FieldOptsSpec { skip: acc.skip, value: true, links: acc.links };
                lemma_parse_top_ok(rest, fld, base + 1, dk, dt, acc1);
            }
        } else if o0.name@ == "link"@ {
            if let TopForm::Grouped(g) = o0.form {
                let start = LinkSpec { key: dk, target: dt, id: None };
                let lr = parse_link_opts(g@, fld, base, 0, start);
                if let Ok(l) = lr {
                    lemma_parse_link_ok(g@, fld, base, 0, start);
                    let acc1 = FieldOptsSpec {
                        skip: acc.skip,
                        value: acc.value,
                        links: acc.links.push(l),
                    };
                    lemma_parse_top_ok(rest, fld, base + 1, dk, dt, acc1);
                    assert(acc.links.push(l) + spec_links_of(rest, dk, dt) =~= acc.links + (seq![
                        spec_link_value(group_of(o0), start),
                    ] + spec_links_of(rest, dk, dt)));
                }
            }
        }
    }
}

/// The entries of [`spec_links_of`], one per `link` group in written
/// order, indexed against [`link_groups`].
proof fn lemma_links_of_groups(opts: Seq<TopOpt>, dk: Seq<char>, dt: Seq<char>)
    ensures
        spec_links_of(opts, dk, dt).len() == link_groups(opts).len(),
        forall|j: int| 0 <= j < link_groups(opts).len() ==> spec_links_of(opts, dk, dt)[j]
            == spec_link_value(
            #[trigger] link_groups(opts)[j],
            LinkSpec { key: dk, target: dt, id: None },
        ),
    decreases opts.len(),
{
    if opts.len() > 0 {
        let rest = opts.drop_first();
        lemma_links_of_groups(rest, dk, dt);
        assert forall|j: int| 0 <= j < link_groups(opts).len() implies spec_links_of(
            opts,
            dk,
            dt,
        )[j] == spec_link_value(
            #[trigger] link_groups(opts)[j],
            LinkSpec { key: dk, target: dt, id: None },
        ) by {
            if is_link(opts[0]) {
                if j > 0 {
                    assert(link_groups(opts)[j] == link_groups(rest)[j - 1]);
                    assert(spec_links_of(opts, dk, dt)[j] == spec_links_of(rest, dk, dt)[j - 1]);
                }
            } else {
                assert(link_groups(opts)[j] == link_groups(rest)[j]);
                assert(spec_links_of(opts, dk, dt)[j] == spec_links_of(rest, dk, dt)[j]);
            }
        }
    }
}

/// Default linking: a field carrying no annotations at all is accepted,
/// exposes no value, and its link exposure is exactly one pair of the
/// field's default key — its name or index — with an owned copy of its
/// value.
pub proof fn lemma_default_linking(f: FieldInput, i: int)
    requires
        f.opts@.len() == 0,
    ensures
        spec_field_options(f, i) is Ok,
        spec_field_values(f, i) =~= Seq::<Seq<char>>::empty(),
        spec_field_links(f, i) =~= seq![spec_default_link(f, i)],
{
    assert(spec_field_options(f, i) == Ok::<FieldOptsSpec, CompileError>(no_options()));
}

/// Skip exclusivity: a field with a `skip` directive, whatever else is
/// written beside it, contributes no value exposure and no link entry.
pub proof fn lemma_skip_exclusivity(f: FieldInput, i: int)
    requires
        spec_field_options(f, i) is Ok,
        has_skip(f.opts@),
    ensures
        spec_field_values(f, i) == Seq::<Seq<char>>::empty(),
        spec_field_links(f, i) == Seq::<LinkSpec>::empty(),
{
    lemma_parse_top_ok(
        f.opts@,
        i,
        0,
        spec_default_key(f, i),
        spec_default_target(f, i),
        no_options(),
    );
}

/// Value idempotence: a field marked `value` — once or several times —
/// and not skipped contributes exactly one value exposure, however many
/// link directives it also carries.
pub proof fn lemma_value_idempotence(f: FieldInput, i: int)
    requires
        spec_field_options(f, i) is Ok,
        has_value(f.opts@),
        !has_skip(f.opts@),
    ensures
        spec_field_values(f, i) =~= seq![spec_accessor(f, i)],
{
    lemma_parse_top_ok(
        f.opts@,
        i,
        0,
        spec_default_key(f, i),
        spec_default_target(f, i),
        no_options(),
    );
}

/// Link cumulativity: a field with explicit `link` directives and no
/// `skip` contributes exactly one link entry per directive, in written
/// order, each folded independently from the field's own default key and
/// target.
pub proof fn lemma_link_cumulativity(f: FieldInput, i: int)
    requires
        spec_field_options(f, i) is Ok,
        !has_skip(f.opts@),
        link_groups(f.opts@).len() > 0,
    ensures
        spec_field_links(f, i).len() == link_groups(f.opts@).len(),
        forall|j: int| 0 <= j < link_groups(f.opts@).len() ==> spec_field_links(f, i)[j]
            == spec_link_value(#[trigger] link_groups(f.opts@)[j], spec_default_link(f, i)),
{
    let dk = spec_default_key(f, i);
    let dt = spec_default_target(f, i);
    lemma_parse_top_ok(f.opts@, i, 0, dk, dt, no_options());
    lemma_links_of_groups(f.opts@, dk, dt);
    assert(Seq::<LinkSpec>::empty() + spec_links_of(f.opts@, dk, dt) =~= spec_links_of(
        f.opts@,
        dk,
        dt,
    ));
}

/// Baseline linking: every field that parses and carries no `skip`
/// directive produces at least one link entry — its explicit ones, or the
/// single default entry.
pub proof fn lemma_nonskipped_field_is_linked(f: FieldInput, i: int)
    requires
        spec_field_options(f, i) is Ok,
        !has_skip(f.opts@),
    ensures
        spec_field_links(f, i).len() >= 1,
{
    lemma_parse_top_ok(
        f.opts@,
        i,
        0,
        spec_default_key(f, i),
        spec_default_target(f, i),
        no_options(),
    );
}

/// Determinism: compilation is a pure function of the record definition —
/// two runs over the same field sequence yield the very same generated
/// text, or the very same error. Together with the contract of
/// `impl_derive_data`, whose result is pinned to this function of its
/// input alone, recompiling an unchanged record reproduces the output
/// byte for byte.
pub proof fn lemma_determinism(a: RecordDef, b: RecordDef)
    requires
        a == b,
    ensures
        spec_compile(a) == spec_compile(b),
{
}

/// Whether a nested option's name is one that a `link` group recognizes.
pub open spec fn recognized_nested(n: NestedOpt) -> bool {
    n.name@ == "key"@ || n.name@ == "target"@ || n.name@ == "id"@
}

/// Whether some option of a `link` group carries an unrecognized name.
pub open spec fn has_unknown_nested(g: Seq<NestedOpt>) -> bool {
    exists|m: int| 0 <= m < g.len() && !recognized_nested(#[trigger] g[m])
}

/// Whether a top-level option carries an unrecognized name, either itself
/// or inside its `link` group.
pub open spec fn bad_opt(o: TopOpt) -> bool {
    (!is_skip(o) && !is_value(o) && !is_link(o)) || (is_link(o) && o.form is Grouped
        && has_unknown_nested(group_of(o)))
}

/// Whether some option of the sequence carries an unrecognized name.
pub open spec fn has_bad_opt(opts: Seq<TopOpt>) -> bool {
    exists|j: int| 0 <= j < opts.len() && bad_opt(#[trigger] opts[j])
}

/// A `link` group with an unrecognized option name does not fold.
proof fn lemma_link_err(nested: Seq<NestedOpt>, fld: int, opt: int, base: int, acc: LinkSpec)
    requires
        has_unknown_nested(nested),
    ensures
        parse_link_opts(nested, fld, opt, base, acc) is Err,
    decreases nested.len(),
{
    let n = nested[0];
    let rest = nested.drop_first();
    if recognized_nested(n) {
        let m = choose|m: int| 0 <= m < nested.len() && !recognized_nested(#[trigger] nested[m]);
        assert(!recognized_nested(rest[m - 1]));
        if n.name@ == "key"@ {
            if let NestedForm::Assigned(e) = n.form {
                lemma_link_err(
                    rest,
                    fld,
                    opt,
                    base + 1,
                    LinkSpec { key: e@, target: acc.target, id: acc.id },
                );
            }
        } else if n.name@ == "target"@ {
            if let NestedForm::Assigned(e) = n.form {
                lemma_link_err(
                    rest,
                    fld,
                    opt,
                    base + 1,
                    LinkSpec { key: acc.key, target: e@, id: acc.id },
                );
            }
        } else {
            if let NestedForm::Assigned(e) = n.form {
                lemma_link_err(
                    rest,
                    fld,
                    opt,
                    base + 1,
                    LinkSpec { key: acc.key, target: acc.target, id: Some(e@) },
                );
            }
        }
    }
}

/// A field's options with an unrecognized name somewhere do not parse.
proof fn lemma_parse_err(
    opts: Seq<TopOpt>,
    fld: int,
    base: int,
    dk: Seq<char>,
    dt: Seq<char>,
    acc: FieldOptsSpec,
)
    requires
        has_bad_opt(opts),
    ensures
        parse_top_opts(opts, fld, base, dk, dt, acc) is Err,
    decreases opts.len(),
{
    lemma_keyword_distinct();
    let o0 = opts[0];
    let rest = opts.drop_first();
    if o0.name@ == "skip"@ || o0.name@ == "value"@ {
        if o0.form is Bare {
            let j = choose|j: int| 0 <= j < opts.len() && bad_opt(#[trigger] opts[j]);
            assert(bad_opt(rest[j - 1]));
            if o0.name@ == "skip"@ {
                lemma_parse_err(
                    rest,
                    fld,
                    base + 1,
                    dk,
                    dt,
                    FieldOptsSpec { skip: true, value: acc.value, links: acc.links },
                );
            } else {
                lemma_parse_err(
                    rest,
                    fld,
                    base + 1,
                    dk,
                    dt,
                    FieldOptsSpec { skip: acc.skip, value: true, links: acc.links },
                );
            }
        }
    } else if o0.name@ == "link"@ {
        if let TopForm::Grouped(g) = o0.form {
            let start = LinkSpec { key: dk, target: dt, id: None };
            if has_unknown_nested(g@) {
                lemma_link_err(g@, fld, base, 0, start);
            } else {
                if let Ok(l) = parse_link_opts(g@, fld, base, 0, start) {
                    let j = choose|j: int| 0 <= j < opts.len() && bad_opt(#[trigger] opts[j]);
                    assert(bad_opt(rest[j - 1]));
                    lemma_parse_err(
                        rest,
                        fld,
                        base + 1,
                        dk,
                        dt,
                        FieldOptsSpec {
                            skip: acc.skip,
                            value: acc.value,
                            links: acc.links.push(l),
                        },
                    );
                }
            }
        }
    }
}

/// A record one of whose fields does not parse does not collect.
proof fn lemma_collect_err(
    fields: Seq<FieldInput>,
    i: int,
    vals: Seq<Seq<char>>,
    links: Seq<LinkSpec>,
)
    requires
        exists|j: int|
            0 <= j < fields.len() && spec_field_options(#[trigger] fields[j], i + j) is Err,
    ensures
        spec_collect(fields, i, vals, links) is Err,
    decreases fields.len(),
{
    if spec_field_options(fields[0], i) is Err {
    } else {
        let j = choose|j: int|
            0 <= j < fields.len() && spec_field_options(#[trigger] fields[j], i + j) is Err;
        let rest = fields.drop_first();
        assert(spec_field_options(rest[j - 1], (i + 1) + (j - 1)) is Err);
        lemma_collect_err(
            rest,
            i + 1,
            vals + spec_field_values(fields[0], i),
            links + spec_field_links(fields[0], i),
        );
    }
}

/// Fail-fast on an unknown option: a record one of whose fields carries an
/// unrecognized option name — top-level, or nested inside a `link` group —
/// does not compile, and no text at all is produced for it.
pub proof fn lemma_fail_fast_unknown_option(def: RecordDef)
    requires
        def.shape is Struct,
        exists|i: int|
            0 <= i < def.shape->Struct_0@.len() && has_bad_opt(
                (#[trigger] def.shape->Struct_0@[i]).opts@,
            ),
    ensures
        spec_compile(def) is Err,
{
    let fields = def.shape->Struct_0@;
    let i = choose|i: int|
        0 <= i < def.shape->Struct_0@.len() && has_bad_opt(
            (#[trigger] def.shape->Struct_0@[i]).opts@,
        );
    let f = fields[i];
    lemma_parse_err(
        f.opts@,
        i,
        0,
        spec_default_key(f, i),
        spec_default_target(f, i),
        no_options(),
    );
    assert(spec_field_options(fields[i], 0 + i) is Err);
    lemma_collect_err(fields, 0, Seq::empty(), Seq::empty());
}

} // verus!
