//! The declarative description of a target record type: its fields, each
//! field's expected value kind, and per-field overrides.

use vstd::prelude::*;
use crate::pattern::Pattern;
use crate::pattern::regex_named_groups;
use crate::scalar::ScalarKind;
use crate::value::Value;
use crate::value::ValueV;
use crate::value::value_view;

verus! {

/// The model of a field's expected value kind.
pub enum FieldKindV {
    Scalar(ScalarKind),
    Optional(ScalarKind),
    Sequence(ScalarKind),
    OptionalSequence(ScalarKind),
    Nested(Seq<char>, RecordShapeV),
    OptionalNested(Seq<char>, RecordShapeV),
    Union(UnionShapeV),
}

/// The model of one field's binding metadata.
pub struct FieldSpecV {
    pub name: Seq<char>,
    pub kind: FieldKindV,
    pub source: Option<Seq<char>>,
    pub default: Option<ValueV>,
    pub delimiter: Option<Seq<char>>,
}

/// The model of a record shape: its fields in declaration order.
pub struct RecordShapeV {
    pub fields: Seq<FieldSpecV>,
}

/// The model of one union variant: its name, the source text of its
/// discriminating pattern, and its fields.
pub struct VariantSpecV {
    pub name: Seq<char>,
    pub pattern: Seq<char>,
    pub shape: RecordShapeV,
}

/// The model of a tagged union: its variants in declaration order.
pub struct UnionShapeV {
    pub variants: Seq<VariantSpecV>,
}

/// A nested record-typed field: the nested record's own pattern, used to
/// re-match the field's raw string value, and its shape.
pub struct NestedSpec {
    pub pattern: Pattern,
    pub shape: RecordShape,
}

/// What kind of value a field expects.
pub enum FieldKind {
    Scalar(ScalarKind),
    Optional(ScalarKind),
    Sequence(ScalarKind),
    OptionalSequence(ScalarKind),
    Nested(NestedSpec),
    OptionalNested(NestedSpec),
    Union(UnionShape),
}

/// One field's binding metadata: its name, its expected kind, and the
/// optional per-field overrides — a renamed source key, a default value for
/// missing captures, and a sequence delimiter pattern.
pub struct FieldSpec {
    pub name: String,
    pub kind: FieldKind,
    pub source: Option<String>,
    pub default: Option<Value>,
    pub delimiter: Option<Pattern>,
}

/// The ordered field list describing one target record type.
pub struct RecordShape {
    pub fields: Vec<FieldSpec>,
}

/// One variant of a tagged union: its name, its discriminating pattern, and
/// the shape of its fields.
pub struct VariantSpec {
    pub name: String,
    pub pattern: Pattern,
    pub shape: RecordShape,
}

/// A tagged-union record type: variants tried in declaration order.
pub struct UnionShape {
    pub variants: Vec<VariantSpec>,
}

pub open spec fn field_kind_view(k: FieldKind) -> FieldKindV
    decreases k, 1int,
{
    match k {
        FieldKind::Scalar(s) => FieldKindV::Scalar(s),
        FieldKind::Optional(s) => FieldKindV::Optional(s),
        FieldKind::Sequence(s) => FieldKindV::Sequence(s),
        FieldKind::OptionalSequence(s) => FieldKindV::OptionalSequence(s),
        FieldKind::Nested(ns) => FieldKindV::Nested(ns.pattern@, record_shape_view(ns.shape)),
        FieldKind::OptionalNested(ns) => FieldKindV::OptionalNested(
            ns.pattern@,
            record_shape_view(ns.shape),
        ),
        FieldKind::Union(u) => FieldKindV::Union(union_shape_view(u)),
    }
}

pub open spec fn field_spec_view(f: FieldSpec) -> FieldSpecV
    decreases f, 2int,
{
    FieldSpecV {
        name: f.name@,
        kind: field_kind_view(f.kind),
        source: match f.source {
            Option::Some(s) => Option::Some(s@),
            Option::None => Option::None,
        },
        default: match f.default {
            Option::Some(v) => Option::Some(value_view(v)),
            Option::None => Option::None,
        },
        delimiter: match f.delimiter {
            Option::Some(p) => Option::Some(p@),
            Option::None => Option::None,
        },
    }
}

pub open spec fn field_specs_view(fs: Seq<FieldSpec>) -> Seq<FieldSpecV>
    decreases fs, 0int,
{
    Seq::new(
        fs.len(),
        |i: int|
            if 0 <= i < fs.len() {
                field_spec_view(fs[i])
            } else {
                FieldSpecV {
                    name: Seq::empty(),
                    kind: FieldKindV::Scalar(ScalarKind::Text),
                    source: Option::None,
                    default: Option::None,
                    delimiter: Option::None,
                }
            },
    )
}

pub open spec fn record_shape_view(s: RecordShape) -> RecordShapeV
    decreases s, 1int,
{
    proof {
        assert(decreases_to!(s.fields => s.fields@));
    }
    RecordShapeV { fields: field_specs_view(s.fields@) }
}

pub open spec fn variant_spec_view(v: VariantSpec) -> VariantSpecV
    decreases v, 2int,
{
    VariantSpecV { name: v.name@, pattern: v.pattern@, shape: record_shape_view(v.shape) }
}

pub open spec fn variant_specs_view(vs: Seq<VariantSpec>) -> Seq<VariantSpecV>
    decreases vs, 0int,
{
    Seq::new(
        vs.len(),
        |i: int|
            if 0 <= i < vs.len() {
                variant_spec_view(vs[i])
            } else {
                VariantSpecV {
                    name: Seq::empty(),
                    pattern: Seq::empty(),
                    shape: RecordShapeV { fields: Seq::empty() },
                }
            },
    )
}

pub open spec fn union_shape_view(u: UnionShape) -> UnionShapeV
    decreases u, 1int,
{
    proof {
        assert(decreases_to!(u.variants => u.variants@));
    }
    UnionShapeV { variants: variant_specs_view(u.variants@) }
}

impl View for FieldSpec {
    type V = FieldSpecV;

    open spec fn view(&self) -> FieldSpecV {
        field_spec_view(*self)
    }
}

impl View for RecordShape {
    type V = RecordShapeV;

    open spec fn view(&self) -> RecordShapeV {
        record_shape_view(*self)
    }
}

impl View for UnionShape {
    type V = UnionShapeV;

    open spec fn view(&self) -> UnionShapeV {
        union_shape_view(*self)
    }
}

impl FieldSpecV {
    /// The capture key a field is looked up under: its renamed source key
    /// when configured, its own name otherwise. Lookup is case-sensitive and
    /// exact.
    pub open spec fn key(self) -> Seq<char> {
        match self.source {
            Option::Some(k) => k,
            Option::None => self.name,
        }
    }
}

/// The build-time validation owed by the integration layer before a plain
/// record type's first binding: its pattern must declare exactly one named
/// group per declared field.
pub fn validate(pattern: &Pattern, shape: &RecordShape) -> (r: bool)
    ensures
        r == (regex_named_groups(pattern@) == shape@.fields.len()),
{
    pattern.named_group_count() == shape.fields.len()
}

/// The build-time validation of a tagged union: every variant's pattern must
/// declare exactly one named group per field of that variant — none for a
/// unit variant, whose membership is a pure match check.
pub fn validate_union(shape: &UnionShape) -> (r: bool)
    ensures
        r == (forall|i: int|
            0 <= i < shape@.variants.len() ==> regex_named_groups(
                #[trigger] shape@.variants[i].pattern,
            ) == shape@.variants[i].shape.fields.len()),
{
    let ghost vv = variant_specs_view(shape.variants@);
    let n = shape.variants.len();
    let mut i: usize = 0;
    while i < n
        invariant
            i <= n,
            n == shape.variants.len(),
            vv == variant_specs_view(shape.variants@),
            vv.len() == n as int,
            forall|j: int| 0 <= j < n ==> vv[j] == variant_spec_view(shape.variants@[j]),
            forall|j: int|
                0 <= j < i ==> regex_named_groups(#[trigger] vv[j].pattern)
                    == vv[j].shape.fields.len(),
        decreases n - i,
    {
        let v = &shape.variants[i];
        if v.pattern.named_group_count() != v.shape.fields.len() {
            proof {
                assert(shape@.variants == vv);
                assert(regex_named_groups(shape@.variants[i as int].pattern) != shape@.variants[
                    i as int
                ].shape.fields.len());
            }
            return false;
        }
        i = i + 1;
    }
    true
}

impl FieldSpec {
    /// A field whose capture key is its own name, with no overrides.
    pub fn plain(name: &str, kind: FieldKind) -> (r: FieldSpec)
        ensures
            r@.name == name@,
            r@.kind == field_kind_view(kind),
            r@.source is None,
            r@.default is None,
            r@.delimiter is None,
            r@.key() == name@,
    {
        FieldSpec {
            name: name.to_owned(),
            kind,
            source: Option::None,
            default: Option::None,
            delimiter: Option::None,
        }
    }
}

} // verus!
