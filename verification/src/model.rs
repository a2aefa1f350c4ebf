//! The data model of the compiler: the annotation options of a record
//! definition as plain values, the normalized per-field directives the
//! parser produces, and the compile-time error type.

use vstd::prelude::*;

verus! {

/// How one option nested inside a `link(...)` group was written.
/// Expression text is carried verbatim; the compiler never interprets it.
pub enum NestedForm {
    /// A bare word, e.g. `key`.
    Bare,
    /// `name = <expr>`, carrying the expression's source text.
    Assigned(String),
    /// `name(...)`; the group's content is never consulted.
    Grouped,
}

/// One option nested inside a `link(...)` group.
pub struct NestedOpt {
    pub name: String,
    pub form: NestedForm,
}

/// How one top-level option of a field annotation was written.
pub enum TopForm {
    /// A bare word, e.g. `skip` or `value`.
    Bare,
    /// `name = <expr>`; the right-hand side is never consulted, since no
    /// recognized top-level option takes a value.
    Assigned,
    /// `name(...)` with its nested options, e.g. `link(key = "x")`.
    Grouped(Vec<NestedOpt>),
}

/// One top-level option of a field annotation.
pub struct TopOpt {
    pub name: String,
    pub form: TopForm,
}

/// One field of the record under compilation: its identifier (`None` for a
/// positional field) and the options of its annotations, flattened in
/// written order. A field's position in the record supplies its index.
pub struct FieldInput {
    pub ident: Option<String>,
    pub opts: Vec<TopOpt>,
}

/// The shape of the record under compilation. Only plain field sequences
/// are supported; sum-type and union shapes are rejected outright.
pub enum RecordShape {
    Struct(Vec<FieldInput>),
    Enum,
    Union,
}

/// A record definition: the record type's name and its shape.
pub struct RecordDef {
    pub ident: String,
    pub shape: RecordShape,
}

/// One normalized link exposure: the key and target expression text, and
/// the parsed but inert `id` expression (reserved; never rendered).
#[derive(Debug)]
pub struct LinkOptions {
    pub key: String,
    pub target: String,
    pub id: Option<String>,
}

/// The normalized directives of one field after parsing: whether the field
/// is skipped, whether it is exposed as a value, and its explicit link
/// entries in written order.
#[derive(Debug)]
pub struct FieldOptions {
    pub skip: bool,
    pub value: bool,
    pub links: Vec<LinkOptions>,
}

/// The position of an offending option: the field's index in the record,
/// the option's index among the field's options, and, for an option inside
/// a `link(...)` group, its index within that group.
#[derive(Debug, Clone, Copy, PartialEq, Eq)]
pub struct OptLoc {
    pub field: usize,
    pub opt: usize,
    pub nested: Option<usize>,
}

/// A compile-time failure. The first failure aborts the whole compilation
/// of the record type; no partial output is produced.
#[derive(Debug, Clone, Copy, PartialEq, Eq)]
pub enum CompileError {
    /// The record is not a plain field sequence.
    UnsupportedShape,
    /// An option name other than the recognized ones stands at the given
    /// position.
    UnsupportedProperty(OptLoc),
    /// A recognized option was written in a form it does not take, e.g.
    /// `skip = 1` or a bare `link`.
    MalformedOption(OptLoc),
}

impl CompileError {
    /// The diagnostic text of the error, for the surrounding build tooling
    /// to attach to the offending annotation.
    pub fn message(&self) -> (m: &'static str)
        ensures
            m@ == match self {
                CompileError::UnsupportedShape => "unsupported record shape"@,
                CompileError::UnsupportedProperty(_) => "unsupported property"@,
                CompileError::MalformedOption(_) => "malformed option"@,
            },
    {
        match self {
            CompileError::UnsupportedShape => "unsupported record shape",
            CompileError::UnsupportedProperty(_) => "unsupported property",
            CompileError::MalformedOption(_) => "malformed option",
        }
    }
}

/// Ghost image of a [`LinkOptions`]: the link's key and target text and
/// the inert id.
pub struct LinkSpec {
    pub key: Seq<char>,
    pub target: Seq<char>,
    pub id: Option<Seq<char>>,
}

impl View for LinkOptions {
    type V = LinkSpec;

    open spec fn view(&self) -> LinkSpec {
        LinkSpec {
            key: self.key@,
            target: self.target@,
            id: match self.id {
                Some(s) => Some(s@),
                None => None,
            },
        }
    }
}

/// Ghost image of a [`FieldOptions`].
pub struct FieldOptsSpec {
    pub skip: bool,
    pub value: bool,
    pub links: Seq<LinkSpec>,
}

impl View for FieldOptions {
    type V = FieldOptsSpec;

    open spec fn view(&self) -> FieldOptsSpec {
        FieldOptsSpec {
            skip: self.skip,
            value: self.value,
            links: self.links@.map_values(|l: LinkOptions| l@),
        }
    }
}

/// The empty set of directives a field's parse starts from.
pub open spec fn no_options() -> FieldOptsSpec {
    FieldOptsSpec { skip: false, value: false, links: Seq::empty() }
}

} // verus!
