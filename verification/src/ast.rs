//! The data model: annotation values, compiled type expressions, emitted
//! declarations, the per-object compiler case, and the error taxonomy; with
//! the mathematical models that the contracts are stated over.

use vstd::prelude::*;

verus! {

/// A parsed JSON annotation value. Numbers, booleans and null carry no
/// payload: the schema language never reads such values, it only reports
/// their kind as invalid.
#[derive(Debug, PartialEq, Eq)]
pub enum Value {
    /// A string label: a terminal type, an enumeration, or a sentinel.
    Text(Vec<u8>),
    /// An array carrying one representative element schema.
    Arr(Vec<Value>),
    /// An object: an ordered mapping from field name to value schema.
    Obj(Vec<(Vec<u8>, Value)>),
    Null,
    Boolean,
    Number,
}

/// The kind of a JSON value that a schema may not contain.
#[derive(Debug, Clone, Copy, PartialEq, Eq, Structural)]
pub enum ValueKind {
    NullKind,
    BooleanKind,
    NumberKind,
}

/// A compiled type expression: a primitive, a reference to a named
/// declaration, or a sequence, string-keyed map, or option over another
/// type expression.
#[derive(Debug, PartialEq, Eq)]
pub enum TypeExpr {
    /// The decimal primitive.
    Decimal,
    /// The boolean primitive.
    Boolean,
    /// The generic string primitive.
    Text,
    /// A reference to a declaration by name.
    Named(Vec<u8>),
    /// A homogeneous sequence.
    SeqOf(Box<TypeExpr>),
    /// An open string-keyed map.
    MapOf(Box<TypeExpr>),
    /// A nullable value.
    OptionOf(Box<TypeExpr>),
}

/// A named record field with an optional serialization alias back to the
/// original wire name.
#[derive(Debug, PartialEq, Eq)]
pub struct Field {
    pub name: Vec<u8>,
    pub rename: Option<Vec<u8>>,
    pub ty: TypeExpr,
}

/// The payload of a tagged-union variant.
#[derive(Debug, PartialEq, Eq)]
pub enum Payload {
    Empty,
    Single(TypeExpr),
    Struct(Vec<Field>),
}

/// A tagged-union variant with an optional serialization alias.
#[derive(Debug, PartialEq, Eq)]
pub struct Variant {
    pub name: Vec<u8>,
    pub rename: Option<Vec<u8>>,
    pub payload: Payload,
}

/// A named, emitted type definition.
#[derive(Debug, PartialEq, Eq)]
pub enum Declaration {
    Record { name: Vec<u8>, fields: Vec<Field> },
    TaggedUnion { name: Vec<u8>, variants: Vec<Variant> },
    Alias { name: Vec<u8>, ty: TypeExpr },
    UnitType { name: Vec<u8> },
}

/// The compiler case of one object: a plain record, a
/// standalone-or-verbose union carrying the first standalone field's type,
/// or a wildcard map carrying the compiled payload type.
#[derive(Debug, PartialEq, Eq)]
pub enum Case {
    Regular,
    AlsoStandaloneEnum(TypeExpr),
    WildcardMap(TypeExpr),
}

/// The error taxonomy. `Insufficient` is recoverable (the owning file is
/// skipped); every other condition is fatal to the run.
#[derive(Debug, PartialEq, Eq)]
pub enum TypegenError {
    /// A terminal label explicitly marked "no information available".
    Insufficient { location: Vec<u8> },
    /// An unrecognized terminal label.
    InvalidLabel { label: Vec<u8>, location: Vec<u8> },
    /// An array schema with no element to infer a type from.
    EmptyArray { location: Vec<u8> },
    /// A JSON value of a kind a schema may not contain.
    UnexpectedKind { kind: ValueKind, location: Vec<u8> },
    /// The root of a file is not an array.
    RootNotArray,
    /// A top-level union would need more than three variants.
    TooManyVariants,
}

// ---- mathematical models ----

/// Model of a type expression, over byte sequences.
#[verifier::ext_equal]
pub enum TypeModel {
    Decimal,
    Boolean,
    Text,
    Named(Seq<u8>),
    SeqOf(Box<TypeModel>),
    MapOf(Box<TypeModel>),
    OptionOf(Box<TypeModel>),
}

/// Model of a record field.
#[verifier::ext_equal]
pub struct FieldModel {
    pub name: Seq<u8>,
    pub rename: Option<Seq<u8>>,
    pub ty: TypeModel,
}

/// Model of a variant payload.
#[verifier::ext_equal]
pub enum PayloadModel {
    Empty,
    Single(TypeModel),
    Struct(Seq<FieldModel>),
}

/// Model of a tagged-union variant.
#[verifier::ext_equal]
pub struct VariantModel {
    pub name: Seq<u8>,
    pub rename: Option<Seq<u8>>,
    pub payload: PayloadModel,
}

/// Model of a declaration.
#[verifier::ext_equal]
pub enum DeclModel {
    Record { name: Seq<u8>, fields: Seq<FieldModel> },
    TaggedUnion { name: Seq<u8>, variants: Seq<VariantModel> },
    Alias { name: Seq<u8>, ty: TypeModel },
    UnitType { name: Seq<u8> },
}

/// Model of a compiler case.
#[verifier::ext_equal]
pub enum CaseModel {
    Regular,
    AlsoStandaloneEnum(TypeModel),
    WildcardMap(TypeModel),
}

/// Model of an error.
#[verifier::ext_equal]
pub enum ErrModel {
    Insufficient { location: Seq<u8> },
    InvalidLabel { label: Seq<u8>, location: Seq<u8> },
    EmptyArray { location: Seq<u8> },
    UnexpectedKind { kind: ValueKind, location: Seq<u8> },
    RootNotArray,
    TooManyVariants,
}

/// The model of a type expression.
pub open spec fn type_model(t: TypeExpr) -> TypeModel
    decreases t,
{
    match t {
        TypeExpr::Decimal => TypeModel::Decimal,
        TypeExpr::Boolean => TypeModel::Boolean,
        TypeExpr::Text => TypeModel::Text,
        TypeExpr::Named(n) => TypeModel::Named(n@),
        TypeExpr::SeqOf(inner) => TypeModel::SeqOf(Box::new(type_model(*inner))),
        TypeExpr::MapOf(inner) => TypeModel::MapOf(Box::new(type_model(*inner))),
        TypeExpr::OptionOf(inner) => TypeModel::OptionOf(Box::new(type_model(*inner))),
    }
}

/// The model of an optional serialization alias.
pub open spec fn rename_model(r: Option<Vec<u8>>) -> Option<Seq<u8>> {
    match r {
        Option::Some(n) => Option::Some(n@),
        Option::None => Option::None,
    }
}

/// The model of a record field.
pub open spec fn field_model(f: Field) -> FieldModel {
    FieldModel { name: f.name@, rename: rename_model(f.rename), ty: type_model(f.ty) }
}

/// The model of a field list.
pub open spec fn fields_model(s: Seq<Field>) -> Seq<FieldModel> {
    s.map_values(|f: Field| field_model(f))
}

/// The model of a variant payload.
pub open spec fn payload_model(p: Payload) -> PayloadModel {
    match p {
        Payload::Empty => PayloadModel::Empty,
        Payload::Single(t) => PayloadModel::Single(type_model(t)),
        Payload::Struct(fs) => PayloadModel::Struct(fields_model(fs@)),
    }
}

/// The model of a tagged-union variant.
pub open spec fn variant_model(v: Variant) -> VariantModel {
    VariantModel { name: v.name@, rename: rename_model(v.rename), payload: payload_model(v.payload) }
}

/// The model of a variant list.
pub open spec fn variants_model(s: Seq<Variant>) -> Seq<VariantModel> {
    s.map_values(|v: Variant| variant_model(v))
}

/// The model of a declaration.
pub open spec fn decl_model(d: Declaration) -> DeclModel {
    match d {
        Declaration::Record { name, fields } => DeclModel::Record {
            name: name@,
            fields: fields_model(fields@),
        },
        Declaration::TaggedUnion { name, variants } => DeclModel::TaggedUnion {
            name: name@,
            variants: variants_model(variants@),
        },
        Declaration::Alias { name, ty } => DeclModel::Alias { name: name@, ty: type_model(ty) },
        Declaration::UnitType { name } => DeclModel::UnitType { name: name@ },
    }
}

/// The model of a declaration list.
pub open spec fn decls_model(s: Seq<Declaration>) -> Seq<DeclModel> {
    s.map_values(|d: Declaration| decl_model(d))
}

/// The model of a compiler case.
pub open spec fn case_model(c: Case) -> CaseModel {
    match c {
        Case::Regular => CaseModel::Regular,
        Case::AlsoStandaloneEnum(t) => CaseModel::AlsoStandaloneEnum(type_model(t)),
        Case::WildcardMap(t) => CaseModel::WildcardMap(type_model(t)),
    }
}

/// The model of an error.
pub open spec fn err_model(e: TypegenError) -> ErrModel {
    match e {
        TypegenError::Insufficient { location } => ErrModel::Insufficient { location: location@ },
        TypegenError::InvalidLabel { label, location } => ErrModel::InvalidLabel {
            label: label@,
            location: location@,
        },
        TypegenError::EmptyArray { location } => ErrModel::EmptyArray { location: location@ },
        TypegenError::UnexpectedKind { kind, location } => ErrModel::UnexpectedKind {
            kind,
            location: location@,
        },
        TypegenError::RootNotArray => ErrModel::RootNotArray,
        TypegenError::TooManyVariants => ErrModel::TooManyVariants,
    }
}

// ---- size measure for termination across sorting ----

/// The size of an annotation value: the measure that the recursive
/// compiler definitions decrease, invariant under reordering of object
/// fields.
pub open spec fn size_of_value(v: Value) -> nat
    decreases v,
{
    match v {
        Value::Arr(items) => 1 + size_of_arr(items@),
        Value::Obj(fields) => 1 + size_of_fields(fields@),
        _ => 1,
    }
}

/// The summed size of an array's elements.
pub open spec fn size_of_arr(s: Seq<Value>) -> nat
    decreases s,
{
    if s.len() == 0 {
        0
    } else {
        1 + size_of_value(s[0]) + size_of_arr(s.subrange(1, s.len() as int))
    }
}

/// The summed size of an object's field values.
pub open spec fn size_of_fields(s: Seq<(Vec<u8>, Value)>) -> nat
    decreases s,
{
    if s.len() == 0 {
        0
    } else {
        1 + size_of_value(s[0].1) + size_of_fields(s.subrange(1, s.len() as int))
    }
}

/// Each array element is strictly smaller than the whole array.
pub proof fn lemma_size_arr_elem(s: Seq<Value>, i: int)
    requires
        0 <= i < s.len(),
    ensures
        size_of_value(s[i]) < size_of_arr(s),
    decreases s.len(),
{
    if i > 0 {
        let rest = s.subrange(1, s.len() as int);
        lemma_size_arr_elem(rest, i - 1);
        assert(rest[i - 1] == s[i]);
    }
}

/// Each field value is strictly smaller than the whole field list.
pub proof fn lemma_size_fields_elem(s: Seq<(Vec<u8>, Value)>, i: int)
    requires
        0 <= i < s.len(),
    ensures
        size_of_value(s[i].1) < size_of_fields(s),
    decreases s.len(),
{
    if i > 0 {
        let rest = s.subrange(1, s.len() as int);
        lemma_size_fields_elem(rest, i - 1);
        assert(rest[i - 1] == s[i]);
    }
}

/// A deep copy of a type expression, equal at the model level.
pub fn clone_type(t: &TypeExpr) -> (r: TypeExpr)
    ensures
        type_model(r) == type_model(*t),
    decreases *t,
{
    match t {
        TypeExpr::Decimal => TypeExpr::Decimal,
        TypeExpr::Boolean => TypeExpr::Boolean,
        TypeExpr::Text => TypeExpr::Text,
        TypeExpr::Named(n) => TypeExpr::Named(crate::text::copy_bytes(n)),
        TypeExpr::SeqOf(inner) => TypeExpr::SeqOf(Box::new(clone_type(inner))),
        TypeExpr::MapOf(inner) => TypeExpr::MapOf(Box::new(clone_type(inner))),
        TypeExpr::OptionOf(inner) => TypeExpr::OptionOf(Box::new(clone_type(inner))),
    }
}

} // verus!
