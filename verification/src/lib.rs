//! Binds the named capture groups of a compiled text pattern to the fields of
//! a typed record description, turning one line of loosely structured text
//! into a structured value or a descriptive error.

pub mod binder;
pub mod capture;
pub mod error;
pub mod pattern;
pub mod scalar;
pub mod sequence;
pub mod shape;
pub mod value;

pub use binder::bind_captures;
pub use binder::bind_from_string_model;
pub use binder::bind_from_structured;
pub use binder::bind_record_model;
pub use binder::bind_result_view;
pub use binder::bind_structured_model;
pub use binder::bind_union_from_string;
pub use binder::from_captures;
pub use binder::lemma_matching_bind_never_no_match;
pub use binder::lemma_non_matching_bind_is_no_match;
pub use binder::lemma_optional_absent;
pub use binder::lemma_union_order_decisive;
pub use binder::resolve_field_model;
pub use binder::resolve_union_model;
pub use capture::CaptureSet;
pub use capture::extract;
pub use capture::lookup_capture;
pub use error::BindError;
pub use error::BindErrorV;
pub use error::TargetKind;
pub use error::message_of;
pub use pattern::Pattern;
pub use pattern::regex_captures;
pub use pattern::regex_match;
pub use pattern::regex_named_groups;
pub use pattern::regex_source;
pub use pattern::regex_split;
pub use pattern::regex_valid;
pub use scalar::ScalarKind;
pub use scalar::coerce_scalar;
pub use scalar::coerce_scalar_model;
pub use scalar::lemma_render_coerce_round_trip;
pub use scalar::lemma_text_bool_round_trip;
pub use scalar::render_int;
pub use sequence::expand_sequence;
pub use sequence::expand_sequence_model;
pub use sequence::lemma_expand_empty_and_override;
pub use sequence::split_on;
pub use sequence::split_on_comma;
pub use shape::FieldKind;
pub use shape::FieldKindV;
pub use shape::FieldSpec;
pub use shape::FieldSpecV;
pub use shape::NestedSpec;
pub use shape::RecordShape;
pub use shape::RecordShapeV;
pub use shape::UnionShape;
pub use shape::UnionShapeV;
pub use shape::VariantSpec;
pub use shape::VariantSpecV;
pub use shape::validate;
pub use shape::validate_union;
pub use value::Structured;
pub use value::StructuredV;
pub use value::Value;
pub use value::ValueV;
