//! The generic record binder: walking a shape's fields in declaration order,
//! resolving each against the captures (or a structured document), and
//! assembling the bound record — or failing fast with the first field error.

use vstd::prelude::*;
use crate::capture::CaptureSet;
use crate::capture::extract;
use crate::capture::lookup_capture;
use crate::error::BindError;
use crate::error::BindErrorV;
use crate::error::TargetKind;
use crate::pattern::Pattern;
use crate::pattern::regex_captures;
use crate::pattern::regex_match;
use crate::scalar::ScalarKind;
use crate::scalar::coerce_scalar;
use crate::scalar::coerce_scalar_model;
use crate::scalar::is_int_kind;
use crate::scalar::kind_max;
use crate::scalar::kind_min;
use crate::sequence::delim_view;
use crate::sequence::expand_sequence;
use crate::sequence::expand_sequence_model;
use crate::shape::FieldKind;
use crate::shape::FieldKindV;
use crate::shape::FieldSpec;
use crate::shape::FieldSpecV;
use crate::shape::RecordShape;
use crate::shape::RecordShapeV;
use crate::shape::UnionShape;
use crate::shape::UnionShapeV;
use crate::shape::VariantSpec;
use crate::shape::VariantSpecV;
use crate::shape::field_specs_view;
use crate::shape::variant_specs_view;
use crate::value::Structured;
use crate::value::StructuredV;
use crate::value::Value;
use crate::value::ValueV;
use crate::value::clone_value;
use crate::value::fields_view;
use crate::value::lemma_values_view_push;
use crate::value::structured_list_view;
use crate::value::structured_object_view;
use crate::value::structured_view;
use crate::value::value_view;
use crate::value::values_view;

verus! {

pub open spec fn bind_result_view(r: Result<Value, BindError>) -> Result<ValueV, BindErrorV> {
    match r {
        Result::Ok(v) => Result::Ok(v@),
        Result::Err(e) => Result::Err(e@),
    }
}

/// A missing required field yields its configured default, or fails.
pub open spec fn missing_field_model(f: FieldSpecV, structural: bool) -> Result<ValueV, BindErrorV> {
    match f.default {
        Option::Some(v) => Result::Ok(v),
        Option::None => if structural {
            Result::Err(BindErrorV::StructuralMismatch(f.name))
        } else {
            Result::Err(BindErrorV::MissingField(f.name))
        },
    }
}

/// Scalar coercion of a present raw string, the field name attached to any
/// failure.
pub open spec fn coerce_field_model(kind: ScalarKind, field: Seq<char>, raw: Seq<char>) -> Result<
    ValueV,
    BindErrorV,
> {
    match coerce_scalar_model(kind, raw) {
        Option::Some(v) => Result::Ok(v),
        Option::None => Result::Err(
            BindErrorV::CoercionFailure { field, raw, target: TargetKind::Scalar(kind) },
        ),
    }
}

/// Binding a record shape against the ordered captures of one match.
pub open spec fn bind_record_model(shape: RecordShapeV, caps: Seq<(Seq<char>, Seq<char>)>) -> Result<
    ValueV,
    BindErrorV,
>
    decreases shape, 1int,
{
    match bind_fields_model(shape.fields, caps) {
        Result::Ok(fields) => Result::Ok(ValueV::Record(fields)),
        Result::Err(e) => Result::Err(e),
    }
}

/// Walking the fields in declaration order; the first failing field's error
/// is the result.
pub open spec fn bind_fields_model(
    fields: Seq<FieldSpecV>,
    caps: Seq<(Seq<char>, Seq<char>)>,
) -> Result<Seq<(Seq<char>, ValueV)>, BindErrorV>
    decreases fields, 2int,
{
    if fields.len() == 0 {
        Result::Ok(Seq::empty())
    } else {
        match resolve_field_model(fields[0], caps) {
            Result::Err(e) => Result::Err(e),
            Result::Ok(v) => match bind_fields_model(fields.skip(1), caps) {
                Result::Err(e) => Result::Err(e),
                Result::Ok(rest) => Result::Ok(seq![(fields[0].name, v)] + rest),
            },
        }
    }
}

/// Resolving one field against the captures, dispatching on its declared
/// kind. A capture that did not participate is absent: an optional field
/// becomes `Absent` unconditionally, a required one falls back to its
/// default or fails with `MissingField`.
pub open spec fn resolve_field_model(f: FieldSpecV, caps: Seq<(Seq<char>, Seq<char>)>) -> Result<
    ValueV,
    BindErrorV,
>
    decreases f, 3int,
{
    let found = lookup_capture(caps, f.key());
    match f.kind {
        FieldKindV::Scalar(k) => match found {
            Option::None => missing_field_model(f, false),
            Option::Some(raw) => coerce_field_model(k, f.name, raw),
        },
        FieldKindV::Optional(k) => match found {
            Option::None => Result::Ok(ValueV::Absent),
            Option::Some(raw) => coerce_field_model(k, f.name, raw),
        },
        FieldKindV::Sequence(k) => match found {
            Option::None => missing_field_model(f, false),
            Option::Some(raw) => expand_sequence_model(k, f.name, raw, f.delimiter),
        },
        FieldKindV::OptionalSequence(k) => match found {
            Option::None => Result::Ok(ValueV::Absent),
            Option::Some(raw) => expand_sequence_model(k, f.name, raw, f.delimiter),
        },
        FieldKindV::Nested(pat, shape) => match found {
            Option::None => missing_field_model(f, false),
            Option::Some(raw) => bind_nested_model(pat, shape, f.name, raw),
        },
        FieldKindV::OptionalNested(pat, shape) => match found {
            Option::None => Result::Ok(ValueV::Absent),
            Option::Some(raw) => bind_nested_model(pat, shape, f.name, raw),
        },
        FieldKindV::Union(u) => match found {
            Option::None => missing_field_model(f, false),
            Option::Some(raw) => resolve_union_model(u, raw),
        },
    }
}

/// A nested record-typed field is bound by re-matching the field's raw value
/// against the nested record's own pattern and binding the nested captures.
/// A raw value the nested pattern does not match is a conversion failure of
/// this field, not a `NoMatch` of the whole input; errors from binding the
/// nested captures propagate unmodified, keeping the innermost field name.
pub open spec fn bind_nested_model(
    pat: Seq<char>,
    shape: RecordShapeV,
    field: Seq<char>,
    raw: Seq<char>,
) -> Result<ValueV, BindErrorV>
    decreases shape, 2int,
{
    if regex_match(pat, raw) {
        bind_record_model(shape, regex_captures(pat, raw))
    } else {
        Result::Err(BindErrorV::CoercionFailure { field, raw, target: TargetKind::Record })
    }
}

/// Tagged-union resolution: variants are tried in declaration order and the
/// first whose pattern matches commits — a later failure while binding that
/// variant's fields propagates rather than falling through. When no variant
/// pattern matches, the result is `NoVariantMatched`.
pub open spec fn resolve_union_model(u: UnionShapeV, input: Seq<char>) -> Result<
    ValueV,
    BindErrorV,
>
    decreases u, 3int,
{
    try_variants_model(u.variants, input)
}

pub open spec fn try_variants_model(vs: Seq<VariantSpecV>, input: Seq<char>) -> Result<
    ValueV,
    BindErrorV,
>
    decreases vs, 2int,
{
    if vs.len() == 0 {
        Result::Err(BindErrorV::NoVariantMatched(input))
    } else if regex_match(vs[0].pattern, input) {
        match bind_record_model(vs[0].shape, regex_captures(vs[0].pattern, input)) {
            Result::Ok(v) => Result::Ok(ValueV::Variant(vs[0].name, Box::new(v))),
            Result::Err(e) => Result::Err(e),
        }
    } else {
        try_variants_model(vs.skip(1), input)
    }
}

/// The whole flat-string binding: one match of the pattern against the
/// input, then the record binder over its captures. `NoMatch` arises here
/// and only here.
pub open spec fn bind_from_string_model(
    pat: Seq<char>,
    shape: RecordShapeV,
    input: Seq<char>,
) -> Result<ValueV, BindErrorV> {
    if regex_match(pat, input) {
        bind_record_model(shape, regex_captures(pat, input))
    } else {
        Result::Err(BindErrorV::NoMatch(input))
    }
}

fn missing_field(f: &FieldSpec, structural: bool) -> (r: Result<Value, BindError>)
    ensures
        bind_result_view(r) == missing_field_model(f@, structural),
{
    match &f.default {
        Option::Some(d) => Result::Ok(clone_value(d)),
        Option::None => {
            if structural {
                Result::Err(BindError::StructuralMismatch(f.name.clone()))
            } else {
                Result::Err(BindError::MissingField(f.name.clone()))
            }
        },
    }
}

fn coerce_field(kind: ScalarKind, field: &String, raw: String) -> (r: Result<Value, BindError>)
    ensures
        bind_result_view(r) == coerce_field_model(kind, field@, raw@),
{
    match coerce_scalar(kind, raw.as_str()) {
        Option::Some(v) => Result::Ok(v),
        Option::None => Result::Err(
            BindError::CoercionFailure {
                field: field.clone(),
                raw,
                target: TargetKind::Scalar(kind),
            },
        ),
    }
}

fn expand_field_sequence(kind: ScalarKind, f: &FieldSpec, raw: String) -> (r: Result<
    Value,
    BindError,
>)
    ensures
        bind_result_view(r) == expand_sequence_model(kind, f@.name, raw@, f@.delimiter),
{
    let delim = f.delimiter.as_ref();
    assert(delim_view(delim) == f@.delimiter);
    expand_sequence(kind, &f.name, raw.as_str(), delim)
}

/// Binds a record shape against the captures of one match: the Generic
/// Record Binder. Fields are walked in declaration order; the first field
/// error is returned, with the field name attached; on success the bound
/// values are assembled in the same order.
pub fn bind_captures(shape: &RecordShape, caps: &CaptureSet) -> (r: Result<Value, BindError>)
    ensures
        bind_result_view(r) == bind_record_model(shape@, caps@),
    decreases shape, 1int,
{
    proof {
        assert(decreases_to!(shape => shape.fields));
    }
    assert(field_specs_view(shape.fields@).skip(0) =~= field_specs_view(shape.fields@));
    match bind_fields_from(&shape.fields, 0, caps) {
        Result::Ok(fields) => Result::Ok(Value::Record(fields)),
        Result::Err(e) => Result::Err(e),
    }
}

fn bind_fields_from(fields: &Vec<FieldSpec>, i: usize, caps: &CaptureSet) -> (r: Result<
    Vec<(String, Value)>,
    BindError,
>)
    requires
        i <= fields.len(),
    ensures
        match r {
            Result::Ok(vs) => bind_fields_model(field_specs_view(fields@).skip(i as int), caps@)
                == Result::<Seq<(Seq<char>, ValueV)>, BindErrorV>::Ok(fields_view(vs@)),
            Result::Err(e) => bind_fields_model(field_specs_view(fields@).skip(i as int), caps@)
                == Result::<Seq<(Seq<char>, ValueV)>, BindErrorV>::Err(e@),
        },
    decreases fields, fields@.len() - i,
{
    let ghost fv = field_specs_view(fields@);
    if i == fields.len() {
        assert(fv.skip(i as int) =~= Seq::<FieldSpecV>::empty());
        let done: Vec<(String, Value)> = Vec::new();
        assert(fields_view(done@) =~= Seq::<(Seq<char>, ValueV)>::empty());
        return Result::Ok(done);
    }
    proof {
        assert(decreases_to!(fields => fields@));
        assert(decreases_to!(fields@ => fields@[i as int]));
        assert(fv.skip(i as int)[0] == fv[i as int]);
    }
    let f = &fields[i];
    match resolve_field(f, caps) {
        Result::Err(e) => Result::Err(e),
        Result::Ok(v) => {
            proof {
                assert(fv.skip(i as int).skip(1) =~= fv.skip(i + 1));
            }
            match bind_fields_from(fields, i + 1, caps) {
                Result::Err(e) => Result::Err(e),
                Result::Ok(rest) => {
                    let ghost restv = rest@;
                    let mut out: Vec<(String, Value)> = Vec::new();
                    out.push((f.name.clone(), v));
                    let mut rest = rest;
                    out.append(&mut rest);
                    proof {
                        assert(fields_view(out@) =~= seq![(f.name@, value_view(v))] + fields_view(
                            restv,
                        ));
                    }
                    Result::Ok(out)
                },
            }
        },
    }
}

/// Resolves one field against the captures, dispatching on its declared
/// kind.
fn resolve_field(f: &FieldSpec, caps: &CaptureSet) -> (r: Result<Value, BindError>)
    ensures
        bind_result_view(r) == resolve_field_model(f@, caps@),
    decreases f, 0int,
{
    let key: &String = match &f.source {
        Option::Some(s) => s,
        Option::None => &f.name,
    };
    assert(key@ == f@.key());
    let found = caps.lookup(key);
    match &f.kind {
        FieldKind::Scalar(k) => match found {
            Option::None => missing_field(f, false),
            Option::Some(raw) => coerce_field(*k, &f.name, raw),
        },
        FieldKind::Optional(k) => match found {
            Option::None => Result::Ok(Value::Absent),
            Option::Some(raw) => coerce_field(*k, &f.name, raw),
        },
        FieldKind::Sequence(k) => match found {
            Option::None => missing_field(f, false),
            Option::Some(raw) => expand_field_sequence(*k, f, raw),
        },
        FieldKind::OptionalSequence(k) => match found {
            Option::None => Result::Ok(Value::Absent),
            Option::Some(raw) => expand_field_sequence(*k, f, raw),
        },
        FieldKind::Nested(ns) => match found {
            Option::None => missing_field(f, false),
            Option::Some(raw) => {
                proof {
                    assert(decreases_to!(f => f.kind));
                }
                bind_nested(&ns.pattern, &ns.shape, &f.name, raw)
            },
        },
        FieldKind::OptionalNested(ns) => match found {
            Option::None => Result::Ok(Value::Absent),
            Option::Some(raw) => {
                proof {
                    assert(decreases_to!(f => f.kind));
                }
                bind_nested(&ns.pattern, &ns.shape, &f.name, raw)
            },
        },
        FieldKind::Union(u) => match found {
            Option::None => missing_field(f, false),
            Option::Some(raw) => {
                proof {
                    assert(decreases_to!(f => f.kind));
                }
                resolve_union(u, raw.as_str())
            },
        },
    }
}

/// Binds a nested record-typed field: the raw value is re-matched against
/// the nested record's own pattern and the nested captures are bound
/// recursively. A raw value the pattern does not match is a conversion
/// failure of this field.
fn bind_nested(pattern: &Pattern, shape: &RecordShape, field: &String, raw: String) -> (r: Result<
    Value,
    BindError,
>)
    ensures
        bind_result_view(r) == bind_nested_model(pattern@, shape@, field@, raw@),
    decreases shape, 2int,
{
    match pattern.capture_pairs(raw.as_str()) {
        Option::Some(pairs) => {
            let caps = CaptureSet { pairs };
            bind_captures(shape, &caps)
        },
        Option::None => Result::Err(
            BindError::CoercionFailure { field: field.clone(), raw, target: TargetKind::Record },
        ),
    }
}

/// Binds a tagged union from one input string: variants are tried in
/// declaration order, the first whose pattern matches commits, and a later
/// failure while binding that variant's fields propagates rather than
/// falling through to later variants.
pub fn bind_union_from_string(shape: &UnionShape, input: &str) -> (r: Result<Value, BindError>)
    ensures
        bind_result_view(r) == resolve_union_model(shape@, input@),
    decreases shape, 3int,
{
    resolve_union(shape, input)
}

fn resolve_union(shape: &UnionShape, input: &str) -> (r: Result<Value, BindError>)
    ensures
        bind_result_view(r) == resolve_union_model(shape@, input@),
    decreases shape, 2int,
{
    proof {
        assert(decreases_to!(shape => shape.variants));
    }
    assert(variant_specs_view(shape.variants@).skip(0) =~= variant_specs_view(shape.variants@));
    try_variants_from(&shape.variants, 0, input)
}

fn try_variants_from(variants: &Vec<VariantSpec>, j: usize, input: &str) -> (r: Result<
    Value,
    BindError,
>)
    requires
        j <= variants.len(),
    ensures
        bind_result_view(r) == try_variants_model(
            variant_specs_view(variants@).skip(j as int),
            input@,
        ),
    decreases variants, variants@.len() - j,
{
    let ghost vv = variant_specs_view(variants@);
    if j == variants.len() {
        assert(vv.skip(j as int) =~= Seq::<VariantSpecV>::empty());
        return Result::Err(BindError::NoVariantMatched(input.to_owned()));
    }
    proof {
        assert(decreases_to!(variants => variants@));
        assert(decreases_to!(variants@ => variants@[j as int]));
        assert(decreases_to!(variants@[j as int] => variants@[j as int].shape));
        assert(vv.skip(j as int)[0] == vv[j as int]);
    }
    let v = &variants[j];
    match v.pattern.capture_pairs(input) {
        Option::Some(pairs) => {
            let caps = CaptureSet { pairs };
            match bind_captures(&v.shape, &caps) {
                Result::Ok(val) => Result::Ok(Value::Variant(v.name.clone(), Box::new(val))),
                Result::Err(e) => Result::Err(e),
            }
        },
        Option::None => {
            proof {
                assert(vv.skip(j as int).skip(1) =~= vv.skip(j + 1));
            }
            try_variants_from(variants, j + 1, input)
        },
    }
}

/// Deserializes one record from the named capture groups of a pattern
/// matched against an input string: a single match of `pattern`, then the
/// record binder over its captures. Fails with `NoMatch` exactly when the
/// pattern does not match the input at all.
pub fn from_captures(pattern: &Pattern, input: &str, shape: &RecordShape) -> (r: Result<
    Value,
    BindError,
>)
    ensures
        bind_result_view(r) == bind_from_string_model(pattern@, shape@, input@),
{
    match extract(pattern, input) {
        Result::Ok(caps) => bind_captures(shape, &caps),
        Result::Err(e) => Result::Err(e),
    }
}

/// The value recorded under `key` in a structured object's pairs, first
/// occurrence first.
pub open spec fn lookup_structured(fs: Seq<(Seq<char>, StructuredV)>, key: Seq<char>) -> Option<
    StructuredV,
>
    decreases fs.len(),
{
    if fs.len() == 0 {
        Option::None
    } else if fs[0].0 == key {
        Option::Some(fs[0].1)
    } else {
        lookup_structured(fs.skip(1), key)
    }
}

/// Field lookup in a structured document. A document that is not an object
/// provides no field at all.
pub open spec fn doc_lookup_model(doc: StructuredV, key: Seq<char>) -> Option<StructuredV> {
    match doc {
        StructuredV::Object(fs) => lookup_structured(fs, key),
        _ => Option::None,
    }
}

/// Coercing a present structured value to a scalar kind. Text goes through
/// the ordinary scalar coercer; a boolean or an in-range integer is taken
/// directly; any other shape of value does not provide the field and is a
/// structural mismatch.
pub open spec fn coerce_structured_scalar_model(
    kind: ScalarKind,
    field: Seq<char>,
    sv: StructuredV,
) -> Result<ValueV, BindErrorV> {
    match sv {
        StructuredV::Text(s) => coerce_field_model(kind, field, s),
        StructuredV::Bool(b) => if kind == ScalarKind::Bool {
            Result::Ok(ValueV::Bool(b))
        } else {
            Result::Err(BindErrorV::StructuralMismatch(field))
        },
        StructuredV::Int(i) => if is_int_kind(kind) && kind_min(kind) <= i <= kind_max(kind) {
            Result::Ok(ValueV::Int(i))
        } else {
            Result::Err(BindErrorV::StructuralMismatch(field))
        },
        _ => Result::Err(BindErrorV::StructuralMismatch(field)),
    }
}

/// Binding a record shape directly from a structured document, honoring the
/// same field-matching rules as the flat-string path: renamed keys decide
/// the lookup, defaults fill missing fields, optional fields become absent.
pub open spec fn bind_structured_model(shape: RecordShapeV, doc: StructuredV) -> Result<
    ValueV,
    BindErrorV,
>
    decreases shape, 1int,
{
    match bind_structured_fields_model(shape.fields, doc) {
        Result::Ok(fields) => Result::Ok(ValueV::Record(fields)),
        Result::Err(e) => Result::Err(e),
    }
}

pub open spec fn bind_structured_fields_model(fields: Seq<FieldSpecV>, doc: StructuredV) -> Result<
    Seq<(Seq<char>, ValueV)>,
    BindErrorV,
>
    decreases fields, 2int,
{
    if fields.len() == 0 {
        Result::Ok(Seq::empty())
    } else {
        match resolve_structured_field_model(fields[0], doc) {
            Result::Err(e) => Result::Err(e),
            Result::Ok(v) => match bind_structured_fields_model(fields.skip(1), doc) {
                Result::Err(e) => Result::Err(e),
                Result::Ok(rest) => Result::Ok(seq![(fields[0].name, v)] + rest),
            },
        }
    }
}

/// Resolving one field against a structured document. A nested field given
/// an object is bound from it recursively; one given text is re-matched
/// against its own pattern, exactly as on the flat-string path. A sequence
/// field given a list coerces its text elements; one given text splits it.
/// A union field is selected by its variants' patterns, so it needs text.
pub open spec fn resolve_structured_field_model(f: FieldSpecV, doc: StructuredV) -> Result<
    ValueV,
    BindErrorV,
>
    decreases f, 3int,
{
    let found = doc_lookup_model(doc, f.key());
    match f.kind {
        FieldKindV::Scalar(k) => match found {
            Option::None => missing_field_model(f, true),
            Option::Some(sv) => coerce_structured_scalar_model(k, f.name, sv),
        },
        FieldKindV::Optional(k) => match found {
            Option::None => Result::Ok(ValueV::Absent),
            Option::Some(sv) => coerce_structured_scalar_model(k, f.name, sv),
        },
        FieldKindV::Sequence(k) => match found {
            Option::None => missing_field_model(f, true),
            Option::Some(sv) => coerce_structured_parts_model(k, f.name, f.delimiter, sv),
        },
        FieldKindV::OptionalSequence(k) => match found {
            Option::None => Result::Ok(ValueV::Absent),
            Option::Some(sv) => coerce_structured_parts_model(k, f.name, f.delimiter, sv),
        },
        FieldKindV::Nested(pat, shape) => match found {
            Option::None => missing_field_model(f, true),
            Option::Some(sv) => match sv {
                StructuredV::Text(s) => bind_nested_model(pat, shape, f.name, s),
                StructuredV::Object(_) => bind_structured_model(shape, sv),
                _ => Result::Err(BindErrorV::StructuralMismatch(f.name)),
            },
        },
        FieldKindV::OptionalNested(pat, shape) => match found {
            Option::None => Result::Ok(ValueV::Absent),
            Option::Some(sv) => match sv {
                StructuredV::Text(s) => bind_nested_model(pat, shape, f.name, s),
                StructuredV::Object(_) => bind_structured_model(shape, sv),
                _ => Result::Err(BindErrorV::StructuralMismatch(f.name)),
            },
        },
        FieldKindV::Union(u) => match found {
            Option::None => missing_field_model(f, true),
            Option::Some(sv) => match sv {
                StructuredV::Text(s) => resolve_union_model(u, s),
                _ => Result::Err(BindErrorV::StructuralMismatch(f.name)),
            },
        },
    }
}

/// A sequence field's structured value: text is split and coerced as on the
/// flat-string path; a list's elements are each coerced as structured
/// scalars, the first failure deciding.
pub open spec fn coerce_structured_parts_model(
    kind: ScalarKind,
    field: Seq<char>,
    delim: Option<Seq<char>>,
    sv: StructuredV,
) -> Result<ValueV, BindErrorV> {
    match sv {
        StructuredV::Text(s) => expand_sequence_model(kind, field, s, delim),
        StructuredV::List(items) => match coerce_structured_list_model(kind, field, items) {
            Result::Ok(vs) => Result::Ok(ValueV::List(vs)),
            Result::Err(e) => Result::Err(e),
        },
        _ => Result::Err(BindErrorV::StructuralMismatch(field)),
    }
}

pub open spec fn coerce_structured_list_model(
    kind: ScalarKind,
    field: Seq<char>,
    items: Seq<StructuredV>,
) -> Result<Seq<ValueV>, BindErrorV>
    decreases items.len(),
{
    if items.len() == 0 {
        Result::Ok(Seq::empty())
    } else {
        match coerce_structured_scalar_model(kind, field, items[0]) {
            Result::Err(e) => Result::Err(e),
            Result::Ok(v) => match coerce_structured_list_model(kind, field, items.skip(1)) {
                Result::Err(e) => Result::Err(e),
                Result::Ok(rest) => Result::Ok(seq![v] + rest),
            },
        }
    }
}

fn doc_lookup<'a>(doc: &'a Structured, key: &String) -> (r: Option<&'a Structured>)
    ensures
        match r {
            Option::Some(v) => doc_lookup_model(doc@, key@) == Option::Some(v@),
            Option::None => doc_lookup_model(doc@, key@) is None,
        },
{
    match doc {
        Structured::Object(fs) => {
            let ghost fsv = structured_object_view(fs@);
            let n = fs.len();
            assert(fsv.skip(0) =~= fsv);
            let mut i: usize = 0;
            while i < n
                invariant
                    i <= n,
                    n == fs.len(),
                    fsv == structured_object_view(fs@),
                    fsv.len() == n as int,
                    forall|j: int|
                        0 <= j < n ==> fsv[j] == (fs@[j].0@, structured_view(fs@[j].1)),
                    lookup_structured(fsv.skip(i as int), key@) == lookup_structured(fsv, key@),
                    doc@ == StructuredV::Object(fsv),
                decreases n - i,
            {
                assert(fsv.skip(i as int)[0] == fsv[i as int]);
                if fs[i].0.eq(key) {
                    return Option::Some(&fs[i].1);
                }
                assert(fsv.skip(i as int).skip(1) =~= fsv.skip(i + 1));
                i = i + 1;
            }
            assert(fsv.skip(n as int) =~= Seq::<(Seq<char>, StructuredV)>::empty());
            Option::None
        },
        _ => Option::None,
    }
}

fn int_kind_bounds(kind: ScalarKind) -> (r: Option<(i128, i128)>)
    ensures
        r is Some <==> is_int_kind(kind),
        r matches Some(b) ==> b.0 == kind_min(kind) && b.1 == kind_max(kind),
{
    match kind {
        ScalarKind::U8 => Option::Some((0, u8::MAX as i128)),
        ScalarKind::U16 => Option::Some((0, u16::MAX as i128)),
        ScalarKind::U32 => Option::Some((0, u32::MAX as i128)),
        ScalarKind::U64 => Option::Some((0, u64::MAX as i128)),
        ScalarKind::I8 => Option::Some((i8::MIN as i128, i8::MAX as i128)),
        ScalarKind::I16 => Option::Some((i16::MIN as i128, i16::MAX as i128)),
        ScalarKind::I32 => Option::Some((i32::MIN as i128, i32::MAX as i128)),
        ScalarKind::I64 => Option::Some((i64::MIN as i128, i64::MAX as i128)),
        _ => Option::None,
    }
}

fn coerce_structured_scalar(kind: ScalarKind, field: &String, sv: &Structured) -> (r: Result<
    Value,
    BindError,
>)
    ensures
        bind_result_view(r) == coerce_structured_scalar_model(kind, field@, sv@),
{
    match sv {
        Structured::Text(s) => coerce_field(kind, field, s.clone()),
        Structured::Bool(b) => {
            if matches!(kind, ScalarKind::Bool) {
                Result::Ok(Value::Bool(*b))
            } else {
                Result::Err(BindError::StructuralMismatch(field.clone()))
            }
        },
        Structured::Int(i) => {
            match int_kind_bounds(kind) {
                Option::Some(bounds) => {
                    if bounds.0 <= *i && *i <= bounds.1 {
                        Result::Ok(Value::Int(*i))
                    } else {
                        Result::Err(BindError::StructuralMismatch(field.clone()))
                    }
                },
                Option::None => Result::Err(BindError::StructuralMismatch(field.clone())),
            }
        },
        _ => Result::Err(BindError::StructuralMismatch(field.clone())),
    }
}

fn coerce_structured_list(kind: ScalarKind, field: &String, items: &Vec<Structured>) -> (r: Result<
    Value,
    BindError,
>)
    ensures
        bind_result_view(r) == (match coerce_structured_list_model(
            kind,
            field@,
            structured_list_view(items@),
        ) {
            Result::Ok(vs) => Result::<ValueV, BindErrorV>::Ok(ValueV::List(vs)),
            Result::Err(e) => Result::<ValueV, BindErrorV>::Err(e),
        }),
{
    let ghost iv = structured_list_view(items@);
    let mut out: Vec<Value> = Vec::new();
    let mut i: usize = 0;
    assert(iv.skip(0) =~= iv);
    while i < items.len()
        invariant
            i <= items.len(),
            iv == structured_list_view(items@),
            iv.len() == items.len(),
            forall|j: int| 0 <= j < items.len() ==> iv[j] == structured_view(items@[j]),
            values_view(out@).len() == i as int,
            match coerce_structured_list_model(kind, field@, iv.skip(i as int)) {
                Result::Ok(rest) => coerce_structured_list_model(kind, field@, iv) == Result::<
                    Seq<ValueV>,
                    BindErrorV,
                >::Ok(values_view(out@) + rest),
                Result::Err(e) => coerce_structured_list_model(kind, field@, iv) == Result::<
                    Seq<ValueV>,
                    BindErrorV,
                >::Err(e),
            },
        decreases items.len() - i,
    {
        assert(iv.skip(i as int)[0] == iv[i as int]);
        match coerce_structured_scalar(kind, field, &items[i]) {
            Result::Err(e) => {
                return Result::Err(e);
            },
            Result::Ok(v) => {
                proof {
                    lemma_values_view_push(out@, v);
                    assert(iv.skip(i as int).skip(1) =~= iv.skip(i + 1));
                }
                let ghost old_out = out@;
                out.push(v);
                proof {
                    assert(out@ =~= old_out.push(v));
                    if coerce_structured_list_model(kind, field@, iv.skip(i + 1)) is Ok {
                        let rest = coerce_structured_list_model(kind, field@, iv.skip(i + 1))->Ok_0;
                        assert(values_view(out@) + rest =~= values_view(old_out) + (seq![
                            value_view(v),
                        ] + rest));
                    }
                }
                i = i + 1;
            },
        }
    }
    assert(iv.skip(items.len() as int) =~= Seq::<StructuredV>::empty());
    proof {
        assert(values_view(out@) + Seq::<ValueV>::empty() =~= values_view(out@));
    }
    Result::Ok(Value::List(out))
}

fn coerce_structured_parts(kind: ScalarKind, f: &FieldSpec, sv: &Structured) -> (r: Result<
    Value,
    BindError,
>)
    ensures
        bind_result_view(r) == coerce_structured_parts_model(kind, f@.name, f@.delimiter, sv@),
{
    match sv {
        Structured::Text(s) => expand_field_sequence(kind, f, s.clone()),
        Structured::List(items) => coerce_structured_list(kind, &f.name, items),
        _ => Result::Err(BindError::StructuralMismatch(f.name.clone())),
    }
}

/// Resolves one field against a structured document.
fn resolve_structured_field(f: &FieldSpec, doc: &Structured) -> (r: Result<Value, BindError>)
    ensures
        bind_result_view(r) == resolve_structured_field_model(f@, doc@),
    decreases f, 0int,
{
    let key: &String = match &f.source {
        Option::Some(s) => s,
        Option::None => &f.name,
    };
    assert(key@ == f@.key());
    let found = doc_lookup(doc, key);
    match &f.kind {
        FieldKind::Scalar(k) => match found {
            Option::None => missing_field(f, true),
            Option::Some(sv) => coerce_structured_scalar(*k, &f.name, sv),
        },
        FieldKind::Optional(k) => match found {
            Option::None => Result::Ok(Value::Absent),
            Option::Some(sv) => coerce_structured_scalar(*k, &f.name, sv),
        },
        FieldKind::Sequence(k) => match found {
            Option::None => missing_field(f, true),
            Option::Some(sv) => coerce_structured_parts(*k, f, sv),
        },
        FieldKind::OptionalSequence(k) => match found {
            Option::None => Result::Ok(Value::Absent),
            Option::Some(sv) => coerce_structured_parts(*k, f, sv),
        },
        FieldKind::Nested(ns) => match found {
            Option::None => missing_field(f, true),
            Option::Some(sv) => {
                proof {
                    assert(decreases_to!(f => f.kind));
                }
                match sv {
                    Structured::Text(s) => bind_nested(&ns.pattern, &ns.shape, &f.name, s.clone()),
                    Structured::Object(_) => bind_from_structured(&ns.shape, sv),
                    _ => Result::Err(BindError::StructuralMismatch(f.name.clone())),
                }
            },
        },
        FieldKind::OptionalNested(ns) => match found {
            Option::None => Result::Ok(Value::Absent),
            Option::Some(sv) => {
                proof {
                    assert(decreases_to!(f => f.kind));
                }
                match sv {
                    Structured::Text(s) => bind_nested(&ns.pattern, &ns.shape, &f.name, s.clone()),
                    Structured::Object(_) => bind_from_structured(&ns.shape, sv),
                    _ => Result::Err(BindError::StructuralMismatch(f.name.clone())),
                }
            },
        },
        FieldKind::Union(u) => match found {
            Option::None => missing_field(f, true),
            Option::Some(sv) => match sv {
                Structured::Text(s) => resolve_union(u, s.as_str()),
                _ => Result::Err(BindError::StructuralMismatch(f.name.clone())),
            },
        },
    }
}

fn bind_structured_fields_from(fields: &Vec<FieldSpec>, i: usize, doc: &Structured) -> (r: Result<
    Vec<(String, Value)>,
    BindError,
>)
    requires
        i <= fields.len(),
    ensures
        match r {
            Result::Ok(vs) => bind_structured_fields_model(
                field_specs_view(fields@).skip(i as int),
                doc@,
            ) == Result::<Seq<(Seq<char>, ValueV)>, BindErrorV>::Ok(fields_view(vs@)),
            Result::Err(e) => bind_structured_fields_model(
                field_specs_view(fields@).skip(i as int),
                doc@,
            ) == Result::<Seq<(Seq<char>, ValueV)>, BindErrorV>::Err(e@),
        },
    decreases fields, fields@.len() - i,
{
    let ghost fv = field_specs_view(fields@);
    if i == fields.len() {
        assert(fv.skip(i as int) =~= Seq::<FieldSpecV>::empty());
        let done: Vec<(String, Value)> = Vec::new();
        assert(fields_view(done@) =~= Seq::<(Seq<char>, ValueV)>::empty());
        return Result::Ok(done);
    }
    proof {
        assert(decreases_to!(fields => fields@));
        assert(decreases_to!(fields@ => fields@[i as int]));
        assert(fv.skip(i as int)[0] == fv[i as int]);
    }
    let f = &fields[i];
    match resolve_structured_field(f, doc) {
        Result::Err(e) => Result::Err(e),
        Result::Ok(v) => {
            proof {
                assert(fv.skip(i as int).skip(1) =~= fv.skip(i + 1));
            }
            match bind_structured_fields_from(fields, i + 1, doc) {
                Result::Err(e) => Result::Err(e),
                Result::Ok(rest) => {
                    let ghost restv = rest@;
                    let mut out: Vec<(String, Value)> = Vec::new();
                    out.push((f.name.clone(), v));
                    let mut rest = rest;
                    out.append(&mut rest);
                    proof {
                        assert(fields_view(out@) =~= seq![(f.name@, value_view(v))] + fields_view(
                            restv,
                        ));
                    }
                    Result::Ok(out)
                },
            }
        },
    }
}

/// Binds a record shape directly from an already-decomposed structured
/// document, with the same field-matching rules as the flat-string path:
/// renamed keys decide the lookup, defaults fill missing fields, optional
/// fields become absent. A required field the document does not provide is a
/// `StructuralMismatch`.
pub fn bind_from_structured(shape: &RecordShape, doc: &Structured) -> (r: Result<Value, BindError>)
    ensures
        bind_result_view(r) == bind_structured_model(shape@, doc@),
    decreases shape, 1int,
{
    proof {
        assert(decreases_to!(shape => shape.fields));
    }
    assert(field_specs_view(shape.fields@).skip(0) =~= field_specs_view(shape.fields@));
    match bind_structured_fields_from(&shape.fields, 0, doc) {
        Result::Ok(fields) => Result::Ok(Value::Record(fields)),
        Result::Err(e) => Result::Err(e),
    }
}

proof fn lemma_record_no_no_match(shape: RecordShapeV, caps: Seq<(Seq<char>, Seq<char>)>)
    ensures
        !(bind_record_model(shape, caps) matches Result::Err(BindErrorV::NoMatch(_))),
    decreases shape, 1int,
{
    lemma_fields_no_no_match(shape.fields, caps);
}

proof fn lemma_fields_no_no_match(fields: Seq<FieldSpecV>, caps: Seq<(Seq<char>, Seq<char>)>)
    ensures
        !(bind_fields_model(fields, caps) matches Result::Err(BindErrorV::NoMatch(_))),
    decreases fields, 2int,
{
    if fields.len() > 0 {
        lemma_field_no_no_match(fields[0], caps);
        lemma_fields_no_no_match(fields.skip(1), caps);
    }
}

proof fn lemma_field_no_no_match(f: FieldSpecV, caps: Seq<(Seq<char>, Seq<char>)>)
    ensures
        !(resolve_field_model(f, caps) matches Result::Err(BindErrorV::NoMatch(_))),
    decreases f, 3int,
{
    let found = lookup_capture(caps, f.key());
    match f.kind {
        FieldKindV::Nested(pat, shape) => match found {
            Option::Some(raw) => {
                if regex_match(pat, raw) {
                    lemma_record_no_no_match(shape, regex_captures(pat, raw));
                }
            },
            Option::None => {},
        },
        FieldKindV::OptionalNested(pat, shape) => match found {
            Option::Some(raw) => {
                if regex_match(pat, raw) {
                    lemma_record_no_no_match(shape, regex_captures(pat, raw));
                }
            },
            Option::None => {},
        },
        FieldKindV::Union(u) => match found {
            Option::Some(raw) => {
                lemma_union_no_no_match(u, raw);
            },
            Option::None => {},
        },
        _ => {},
    }
}

proof fn lemma_union_no_no_match(u: UnionShapeV, input: Seq<char>)
    ensures
        !(resolve_union_model(u, input) matches Result::Err(BindErrorV::NoMatch(_))),
    decreases u, 3int,
{
    lemma_variants_no_no_match(u.variants, input);
}

proof fn lemma_variants_no_no_match(vs: Seq<VariantSpecV>, input: Seq<char>)
    ensures
        !(try_variants_model(vs, input) matches Result::Err(BindErrorV::NoMatch(_))),
    decreases vs, 2int,
{
    if vs.len() > 0 {
        if regex_match(vs[0].pattern, input) {
            lemma_record_no_no_match(vs[0].shape, regex_captures(vs[0].pattern, input));
        } else {
            lemma_variants_no_no_match(vs.skip(1), input);
        }
    }
}

/// When the pattern matches the input, the flat-string binding either
/// succeeds or fails with a field-level error — `MissingField`,
/// `CoercionFailure`, `NoVariantMatched` or `StructuralMismatch` — and never
/// with `NoMatch`.
pub proof fn lemma_matching_bind_never_no_match(
    pat: Seq<char>,
    shape: RecordShapeV,
    input: Seq<char>,
)
    requires
        regex_match(pat, input),
    ensures
        bind_from_string_model(pat, shape, input) matches Result::Err(e) ==> {
            ||| e is MissingField
            ||| e is CoercionFailure
            ||| e is NoVariantMatched
            ||| e is StructuralMismatch
        },
{
    lemma_record_no_no_match(shape, regex_captures(pat, input));
}

/// When the pattern does not match the input, the flat-string binding fails
/// with exactly `NoMatch`, carrying the input.
pub proof fn lemma_non_matching_bind_is_no_match(
    pat: Seq<char>,
    shape: RecordShapeV,
    input: Seq<char>,
)
    requires
        !regex_match(pat, input),
    ensures
        bind_from_string_model(pat, shape, input) == Result::<ValueV, BindErrorV>::Err(
            BindErrorV::NoMatch(input),
        ),
{
}

/// A capture group that did not participate always resolves an optional
/// field to the absent value, whatever the wrapped kind would make of any
/// raw text — even of an empty string.
pub proof fn lemma_optional_absent(f: FieldSpecV, caps: Seq<(Seq<char>, Seq<char>)>)
    requires
        lookup_capture(caps, f.key()) is None,
        f.kind is Optional || f.kind is OptionalSequence || f.kind is OptionalNested,
    ensures
        resolve_field_model(f, caps) == Result::<ValueV, BindErrorV>::Ok(ValueV::Absent),
{
}

proof fn lemma_try_variants_from_first_match(vs: Seq<VariantSpecV>, input: Seq<char>, i: int)
    requires
        0 <= i < vs.len(),
        forall|j: int| 0 <= j < i ==> !regex_match(#[trigger] vs[j].pattern, input),
        regex_match(vs[i].pattern, input),
    ensures
        try_variants_model(vs, input) == (match bind_record_model(
            vs[i].shape,
            regex_captures(vs[i].pattern, input),
        ) {
            Result::Ok(v) => Result::<ValueV, BindErrorV>::Ok(
                ValueV::Variant(vs[i].name, Box::new(v)),
            ),
            Result::Err(e) => Result::<ValueV, BindErrorV>::Err(e),
        }),
    decreases i,
{
    if i > 0 {
        assert(vs.skip(1)[i - 1] == vs[i]);
        assert(forall|j: int| 0 <= j < i - 1 ==> vs.skip(1)[j] == vs[j + 1]);
        lemma_try_variants_from_first_match(vs.skip(1), input, i - 1);
    }
}

/// Union order is decisive: the first variant in declaration order whose
/// pattern matches the input commits, whether or not any later variant's
/// pattern would also match, and a failure while binding that variant's
/// fields propagates rather than falling through.
pub proof fn lemma_union_order_decisive(u: UnionShapeV, input: Seq<char>, i: int)
    requires
        0 <= i < u.variants.len(),
        forall|j: int| 0 <= j < i ==> !regex_match(#[trigger] u.variants[j].pattern, input),
        regex_match(u.variants[i].pattern, input),
    ensures
        resolve_union_model(u, input) == (match bind_record_model(
            u.variants[i].shape,
            regex_captures(u.variants[i].pattern, input),
        ) {
            Result::Ok(v) => Result::<ValueV, BindErrorV>::Ok(
                ValueV::Variant(u.variants[i].name, Box::new(v)),
            ),
            Result::Err(e) => Result::<ValueV, BindErrorV>::Err(e),
        }),
{
    lemma_try_variants_from_first_match(u.variants, input, i);
}

} // verus!
