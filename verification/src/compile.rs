//! The schema value compiler and the record compiler: the mutually
//! recursive walk that classifies an annotation value into a type
//! expression plus a list of newly synthesized auxiliary declarations.

use vstd::prelude::*;
use crate::ast::{
    Case, CaseModel, clone_type, Declaration, DeclModel, decls_model, ErrModel, Field, FieldModel,
    field_model, fields_model, lemma_size_arr_elem, lemma_size_fields_elem, Payload, PayloadModel,
    size_of_arr, size_of_fields, size_of_value, TypeExpr, TypegenError, TypeModel, Value,
    ValueKind, VariantModel, Variant, err_model, type_model,
};
use crate::lex::{camel_to_snake, camel_to_snake_seq, capitalized, capitalize_first_char};
use crate::resolve::{terminal_outcome, tokenize_terminal};
use crate::sorting::{FieldEntry, lemma_sort_entries_size, sort_entries, sort_entries_exec};
use crate::text::{
    append_bytes, bytes_eq, copy_bytes, ends_with, is_prefix, is_reserved, is_reserved_word,
    is_suffix, lit_also_standalone_prefix, lit_angle_close, lit_field_suffix, lit_option_prefix,
    lit_regular_name, lit_verbose_name, lit_wildcard_key, starts_with, sub_vec,
    text_also_standalone_prefix, text_angle_close, text_field_suffix, text_option_prefix,
    text_regular_name, text_verbose_name, text_wildcard_key,
};

verus! {

/// The running state of one record compilation: the fields and auxiliary
/// declarations collected so far, and the first standalone field's type.
#[verifier::ext_equal]
pub struct ObjState {
    pub fields: Seq<FieldModel>,
    pub decls: Seq<DeclModel>,
    pub standalone: Option<TypeModel>,
}

/// The finished state of one record compilation: a plain field list, or
/// the wildcard-map payload type.
#[verifier::ext_equal]
pub enum ObjOutcome {
    Plain { fields: Seq<FieldModel>, decls: Seq<DeclModel>, standalone: Option<TypeModel> },
    Wildcard { ty: TypeModel, decls: Seq<DeclModel> },
}

/// The empty record-compilation state.
pub open spec fn empty_obj_state() -> ObjState {
    ObjState { fields: Seq::empty(), decls: Seq::empty(), standalone: Option::None }
}

/// The field name with a leading `alsoStandalone<...>` wrapper stripped.
pub open spec fn strip_standalone(fname: Seq<u8>) -> (bool, Seq<u8>) {
    if fname.len() > lit_also_standalone_prefix().len() && is_prefix(
        lit_also_standalone_prefix(),
        fname,
    ) && is_suffix(lit_angle_close(), fname) {
        (true, fname.subrange(lit_also_standalone_prefix().len() as int, fname.len() - 1))
    } else {
        (false, fname)
    }
}

/// The field name with a leading `Option<...>` wrapper stripped.
pub open spec fn strip_option(fname: Seq<u8>) -> (bool, Seq<u8>) {
    if fname.len() > lit_option_prefix().len() && is_prefix(lit_option_prefix(), fname)
        && is_suffix(lit_angle_close(), fname) {
        (true, fname.subrange(lit_option_prefix().len() as int, fname.len() - 1))
    } else {
        (false, fname)
    }
}

/// The internal identifier of a field: the de-wrapped wire name converted
/// to snake case, with the collision suffix appended if it matches a
/// reserved word.
pub open spec fn field_ident(dewrapped: Seq<u8>) -> Seq<u8> {
    let ident0 = camel_to_snake_seq(dewrapped, true);
    if is_reserved(ident0) {
        ident0 + lit_field_suffix()
    } else {
        ident0
    }
}

/// The serialization alias of a field: the original wire name, present
/// exactly when the internal identifier differs from it.
pub open spec fn field_rename(dewrapped: Seq<u8>) -> Option<Seq<u8>> {
    if field_ident(dewrapped) != dewrapped {
        Option::Some(dewrapped)
    } else {
        Option::None
    }
}

/// The standalone-or-verbose union of a record: a flat variant wrapping
/// the standalone type, and a verbose variant carrying all fields.
pub open spec fn standalone_union(name: Seq<u8>, t: TypeModel, fields: Seq<FieldModel>) -> DeclModel {
    DeclModel::TaggedUnion {
        name: name,
        variants: seq![
            VariantModel {
                name: lit_regular_name(),
                rename: Option::None,
                payload: PayloadModel::Single(t),
            },
            VariantModel {
                name: lit_verbose_name(),
                rename: Option::None,
                payload: PayloadModel::Struct(fields),
            },
        ],
    }
}

/// The compiler case and full declaration list of a finished record
/// compilation: a regular record declares itself; a standalone-or-verbose
/// record declares a two-variant union; a wildcard map declares nothing
/// of its own.
pub open spec fn object_decls(o: ObjOutcome, name: Seq<u8>) -> (CaseModel, Seq<DeclModel>) {
    match o {
        ObjOutcome::Plain { fields, decls, standalone: Option::None } => (
            CaseModel::Regular,
            decls + seq![DeclModel::Record { name: name, fields: fields }],
        ),
        ObjOutcome::Plain { fields, decls, standalone: Option::Some(t) } => (
            CaseModel::AlsoStandaloneEnum(t),
            decls + seq![standalone_union(name, t, fields)],
        ),
        ObjOutcome::Wildcard { ty, decls } => (CaseModel::WildcardMap(ty), decls),
    }
}

/// What the schema value compiler returns for a value under a context
/// name: a type expression, the auxiliary declarations, and the
/// terminal-enumeration flag; or the first error met.
pub open spec fn value_outcome(name: Seq<u8>, v: Value) -> Result<
    (TypeModel, Seq<DeclModel>, bool),
    ErrModel,
>
    decreases size_of_value(v), 0int,
{
    match v {
        Value::Text(label) => terminal_outcome(name, label@),
        Value::Arr(items) => array_outcome(name, items@),
        Value::Obj(fields) => object_outcome(name, fields@),
        Value::Null => Result::Err(
            ErrModel::UnexpectedKind { kind: ValueKind::NullKind, location: name },
        ),
        Value::Boolean => Result::Err(
            ErrModel::UnexpectedKind { kind: ValueKind::BooleanKind, location: name },
        ),
        Value::Number => Result::Err(
            ErrModel::UnexpectedKind { kind: ValueKind::NumberKind, location: name },
        ),
    }
}

/// What the compiler returns for an array: the last element, compiled
/// under the same context, wrapped in a sequence type; or the empty-array
/// condition.
pub open spec fn array_outcome(name: Seq<u8>, items: Seq<Value>) -> Result<
    (TypeModel, Seq<DeclModel>, bool),
    ErrModel,
>
    decreases size_of_arr(items), 1int,
{
    if items.len() == 0 {
        Result::Err(ErrModel::EmptyArray { location: name })
    } else {
        proof {
            lemma_size_arr_elem(items, items.len() - 1);
        }
        match value_outcome(name, items[items.len() - 1]) {
            Result::Ok((t, ds, _)) => Result::Ok((TypeModel::SeqOf(Box::new(t)), ds, false)),
            Result::Err(e) => Result::Err(e),
        }
    }
}

/// What the compiler returns for an object: a named reference, or a
/// string-keyed map type when the record is a wildcard map.
pub open spec fn object_outcome(name: Seq<u8>, fields: Seq<FieldEntry>) -> Result<
    (TypeModel, Seq<DeclModel>, bool),
    ErrModel,
>
    decreases size_of_fields(fields), 3int,
{
    match typegen_outcome(fields, name) {
        Result::Err(e) => Result::Err(e),
        Result::Ok((CaseModel::WildcardMap(t), ds)) => Result::Ok(
            (TypeModel::MapOf(Box::new(t)), ds, false),
        ),
        Result::Ok((_, ds)) => Result::Ok((TypeModel::Named(name), ds, false)),
    }
}

/// What the record compiler returns for an object's field list under an
/// enclosing declaration name: the compiler case and the declarations,
/// with the fields processed in the mapping's natural order (sorted by
/// wire name, stably).
pub open spec fn typegen_outcome(fields: Seq<FieldEntry>, name: Seq<u8>) -> Result<
    (CaseModel, Seq<DeclModel>),
    ErrModel,
>
    decreases size_of_fields(fields), 2int,
{
    proof {
        lemma_sort_entries_size(fields);
    }
    match obj_fields_outcome(sort_entries(fields), name, empty_obj_state()) {
        Result::Ok(o) => Result::Ok(object_decls(o, name)),
        Result::Err(e) => Result::Err(e),
    }
}

/// One step per field, in order: the wildcard key discards the collected
/// fields and finishes as a map; otherwise the wrappers are stripped, the
/// identifier and alias computed, the value compiled under the
/// capitalized de-wrapped name, the first standalone type captured, and
/// the field appended.
pub open spec fn obj_fields_outcome(rest: Seq<FieldEntry>, name: Seq<u8>, st: ObjState) -> Result<
    ObjOutcome,
    ErrModel,
>
    decreases size_of_fields(rest), 0int,
{
    if rest.len() == 0 {
        Result::Ok(
            ObjOutcome::Plain { fields: st.fields, decls: st.decls, standalone: st.standalone },
        )
    } else {
        let fname = rest[0].0;
        let fval = rest[0].1;
        if fname@ == lit_wildcard_key() {
            proof {
                lemma_size_fields_elem(rest, 0);
            }
            match value_outcome(name, fval) {
                Result::Ok((t, ds, _)) => Result::Ok(
                    ObjOutcome::Wildcard { ty: t, decls: st.decls + ds },
                ),
                Result::Err(e) => Result::Err(e),
            }
        } else {
            let (marked, dewrapped1) = strip_standalone(fname@);
            let (optional, dewrapped) = strip_option(dewrapped1);
            let ident = field_ident(dewrapped);
            let ctx = capitalized(dewrapped);
            proof {
                lemma_size_fields_elem(rest, 0);
            }
            match value_outcome(ctx, fval) {
                Result::Err(e) => Result::Err(e),
                Result::Ok((t, ds, _)) => {
                    let new_standalone = if marked && st.standalone is None {
                        Option::Some(t)
                    } else {
                        st.standalone
                    };
                    let fty = if optional {
                        TypeModel::OptionOf(Box::new(t))
                    } else {
                        t
                    };
                    let st2 = ObjState {
                        fields: st.fields + seq![
                            FieldModel { name: ident, rename: field_rename(dewrapped), ty: fty },
                        ],
                        decls: st.decls + ds,
                        standalone: new_standalone,
                    };
                    obj_fields_outcome(rest.subrange(1, rest.len() as int), name, st2)
                },
            }
        }
    }
}

/// The exec result of a value compilation matches its model.
pub open spec fn outcome_matches(
    r: Result<(TypeExpr, Vec<Declaration>, bool), TypegenError>,
    m: Result<(TypeModel, Seq<DeclModel>, bool), ErrModel>,
) -> bool {
    match (r, m) {
        (Result::Ok((t, ds, f)), Result::Ok((tm, dsm, fm))) => type_model(t) == tm && decls_model(
            ds@,
        ) == dsm && f == fm,
        (Result::Err(e), Result::Err(em)) => err_model(e) == em,
        _ => false,
    }
}

/// The exec result of a record compilation matches its model.
pub open spec fn case_decls_match(
    r: Result<(Case, Vec<Declaration>), TypegenError>,
    m: Result<(CaseModel, Seq<DeclModel>), ErrModel>,
) -> bool {
    match (r, m) {
        (Result::Ok((c, ds)), Result::Ok((cm, dsm))) => crate::ast::case_model(c) == cm
            && decls_model(ds@) == dsm,
        (Result::Err(e), Result::Err(em)) => err_model(e) == em,
        _ => false,
    }
}

/// The running exec state of one record compilation.
pub enum FieldsOutcome {
    Plain { fields: Vec<Field>, decls: Vec<Declaration>, standalone: Option<TypeExpr> },
    Wildcard { ty: TypeExpr, decls: Vec<Declaration> },
}

/// The exec outcome of a field walk matches its model.
pub open spec fn fields_outcome_matches(
    r: Result<FieldsOutcome, TypegenError>,
    m: Result<ObjOutcome, ErrModel>,
) -> bool {
    match (r, m) {
        (
            Result::Ok(FieldsOutcome::Plain { fields, decls, standalone }),
            Result::Ok(ObjOutcome::Plain { fields: fm, decls: dm, standalone: sm }),
        ) => fields_model(fields@) == fm && decls_model(decls@) == dm && standalone_model(
            standalone,
        ) == sm,
        (
            Result::Ok(FieldsOutcome::Wildcard { ty, decls }),
            Result::Ok(ObjOutcome::Wildcard { ty: tm, decls: dm }),
        ) => type_model(ty) == tm && decls_model(decls@) == dm,
        (Result::Err(e), Result::Err(em)) => err_model(e) == em,
        _ => false,
    }
}

/// The model of a captured standalone type.
pub open spec fn standalone_model(s: Option<TypeExpr>) -> Option<TypeModel> {
    match s {
        Option::Some(t) => Option::Some(type_model(t)),
        Option::None => Option::None,
    }
}

/// Compiles one annotation value under a context name: a string label
/// goes to the terminal resolver, an array to the sequence rule, an
/// object to the record compiler; any other kind is rejected.
pub fn tokenize_value(name: &Vec<u8>, val: Value) -> (r: Result<
    (TypeExpr, Vec<Declaration>, bool),
    TypegenError,
>)
    ensures
        outcome_matches(r, value_outcome(name@, val)),
    decreases size_of_value(val), 0int,
{
    match val {
        Value::Text(label) => tokenize_terminal(name, &label),
        Value::Arr(items) => tokenize_array(name, items),
        Value::Obj(fields) => tokenize_object(name, fields),
        Value::Null => Result::Err(
            TypegenError::UnexpectedKind { kind: ValueKind::NullKind, location: copy_bytes(name) },
        ),
        Value::Boolean => Result::Err(
            TypegenError::UnexpectedKind {
                kind: ValueKind::BooleanKind,
                location: copy_bytes(name),
            },
        ),
        Value::Number => Result::Err(
            TypegenError::UnexpectedKind {
                kind: ValueKind::NumberKind,
                location: copy_bytes(name),
            },
        ),
    }
}

/// Compiles an array schema: rejects an empty array, compiles the last
/// (representative) element, and wraps it in a sequence type.
pub fn tokenize_array(name: &Vec<u8>, items: Vec<Value>) -> (r: Result<
    (TypeExpr, Vec<Declaration>, bool),
    TypegenError,
>)
    ensures
        outcome_matches(r, array_outcome(name@, items@)),
    decreases size_of_arr(items@), 1int,
{
    let mut rest = items;
    let last = match rest.pop() {
        Option::Some(v) => v,
        Option::None => {
            return Result::Err(TypegenError::EmptyArray { location: copy_bytes(name) });
        },
    };
    proof {
        assert(last == items@[items@.len() - 1]);
        lemma_size_arr_elem(items@, items@.len() - 1);
    }
    match tokenize_value(name, last) {
        Result::Ok((t, ds, _)) => Result::Ok((TypeExpr::SeqOf(Box::new(t)), ds, false)),
        Result::Err(e) => Result::Err(e),
    }
}

/// Compiles an object schema: runs the record compiler, and yields a
/// named reference, or a string-keyed map type for a wildcard record.
pub fn tokenize_object(name: &Vec<u8>, fields: Vec<FieldEntry>) -> (r: Result<
    (TypeExpr, Vec<Declaration>, bool),
    TypegenError,
>)
    ensures
        outcome_matches(r, object_outcome(name@, fields@)),
    decreases size_of_fields(fields@), 3int,
{
    match typegen(fields, name) {
        Result::Err(e) => Result::Err(e),
        Result::Ok((c, ds)) => match c {
            Case::WildcardMap(t) => Result::Ok((TypeExpr::MapOf(Box::new(t)), ds, false)),
            _ => Result::Ok((TypeExpr::Named(copy_bytes(name)), ds, false)),
        },
    }
}

/// The record compiler: sorts the fields into the mapping's natural
/// order, walks them, and declares the record, union, or nothing,
/// according to the case.
pub fn typegen(fields: Vec<FieldEntry>, name: &Vec<u8>) -> (r: Result<
    (Case, Vec<Declaration>),
    TypegenError,
>)
    ensures
        case_decls_match(r, typegen_outcome(fields@, name@)),
    decreases size_of_fields(fields@), 2int,
{
    proof {
        lemma_sort_entries_size(fields@);
    }
    let sorted = sort_entries_exec(fields);
    let walked = typegen_fields(sorted, name, Vec::new(), Vec::new(), Option::None);
    proof {
        assert(fields_model(Seq::<Field>::empty()) =~= Seq::<FieldModel>::empty());
        assert(decls_model(Seq::<Declaration>::empty()) =~= Seq::<DeclModel>::empty());
    }
    match walked {
        Result::Err(e) => Result::Err(e),
        Result::Ok(FieldsOutcome::Wildcard { ty, decls }) => Result::Ok(
            (Case::WildcardMap(ty), decls),
        ),
        Result::Ok(FieldsOutcome::Plain { fields: rec_fields, mut decls, standalone }) => match standalone {
            Option::None => {
                let own = Declaration::Record { name: copy_bytes(name), fields: rec_fields };
                let ghost pre = decls@;
                decls.push(own);
                proof {
                    assert(decls_model(decls@) =~= decls_model(pre) + seq![
                        crate::ast::decl_model(own),
                    ]);
                }
                Result::Ok((Case::Regular, decls))
            },
            Option::Some(t) => {
                let captured = clone_type(&t);
                let mut variants: Vec<Variant> = Vec::new();
                variants.push(
                    Variant {
                        name: text_regular_name(),
                        rename: Option::None,
                        payload: Payload::Single(t),
                    },
                );
                variants.push(
                    Variant {
                        name: text_verbose_name(),
                        rename: Option::None,
                        payload: Payload::Struct(rec_fields),
                    },
                );
                proof {
                    assert(crate::ast::variants_model(variants@) =~= seq![
                        crate::ast::variant_model(variants@[0]),
                        crate::ast::variant_model(variants@[1]),
                    ]);
                }
                let own = Declaration::TaggedUnion { name: copy_bytes(name), variants };
                let ghost pre = decls@;
                decls.push(own);
                proof {
                    assert(decls_model(decls@) =~= decls_model(pre) + seq![
                        crate::ast::decl_model(own),
                    ]);
                }
                Result::Ok((Case::AlsoStandaloneEnum(captured), decls))
            },
        },
    }
}

/// Walks a sorted field list, carrying the collected fields, the
/// bubbled-up declarations, and the first standalone type.
pub(crate) fn typegen_fields(
    rest: Vec<FieldEntry>,
    name: &Vec<u8>,
    acc_fields: Vec<Field>,
    acc_decls: Vec<Declaration>,
    standalone: Option<TypeExpr>,
) -> (r: Result<FieldsOutcome, TypegenError>)
    ensures
        fields_outcome_matches(
            r,
            obj_fields_outcome(
                rest@,
                name@,
                ObjState {
                    fields: fields_model(acc_fields@),
                    decls: decls_model(acc_decls@),
                    standalone: standalone_model(standalone),
                },
            ),
        ),
    decreases size_of_fields(rest@), 1int,
{
    let ghost st = ObjState {
        fields: fields_model(acc_fields@),
        decls: decls_model(acc_decls@),
        standalone: standalone_model(standalone),
    };
    let mut rest = rest;
    let mut acc_fields = acc_fields;
    let mut acc_decls = acc_decls;
    let mut standalone = standalone;
    if rest.len() == 0 {
        return Result::Ok(
            FieldsOutcome::Plain { fields: acc_fields, decls: acc_decls, standalone },
        );
    }
    let ghost orig = rest@;
    let entry = rest.remove(0);
    let fname = entry.0;
    let fval = entry.1;
    proof {
        assert(rest@ =~= orig.subrange(1, orig.len() as int));
        assert(fname == orig[0].0);
        assert(fval == orig[0].1);
        lemma_size_fields_elem(orig, 0);
    }
    let wildcard = text_wildcard_key();
    if bytes_eq(&fname, &wildcard) {
        return match tokenize_value(name, fval) {
            Result::Ok((t, ds, _)) => {
                let mut decls = acc_decls;
                let mut ds = ds;
                let ghost pre = decls@;
                let ghost dsv = ds@;
                decls.append(&mut ds);
                proof {
                    assert(decls_model(pre + dsv) =~= decls_model(pre) + decls_model(dsv));
                }
                Result::Ok(FieldsOutcome::Wildcard { ty: t, decls })
            },
            Result::Err(e) => Result::Err(e),
        };
    }
    // strip a leading `alsoStandalone<...>` wrapper
    let aspre = text_also_standalone_prefix();
    let close = text_angle_close();
    let marked = fname.len() > aspre.len() && starts_with(&fname, &aspre) && ends_with(
        &fname,
        &close,
    );
    let dewrapped1 = if marked {
        sub_vec(&fname, aspre.len(), fname.len() - 1)
    } else {
        fname
    };
    proof {
        assert((marked, dewrapped1@) == strip_standalone(orig[0].0@));
    }
    // strip a leading `Option<...>` wrapper
    let opre = text_option_prefix();
    let optional = dewrapped1.len() > opre.len() && starts_with(&dewrapped1, &opre) && ends_with(
        &dewrapped1,
        &close,
    );
    let dewrapped = if optional {
        sub_vec(&dewrapped1, opre.len(), dewrapped1.len() - 1)
    } else {
        dewrapped1
    };
    proof {
        assert((optional, dewrapped@) == strip_option(strip_standalone(orig[0].0@).1));
    }
    // identifier, collision suffix, serialization alias
    let mut ident = camel_to_snake(&dewrapped);
    if is_reserved_word(&ident) {
        let suffix = text_field_suffix();
        append_bytes(&mut ident, &suffix);
    }
    proof {
        assert(ident@ == field_ident(dewrapped@));
    }
    let renamed = if !bytes_eq(&ident, &dewrapped) {
        Option::Some(copy_bytes(&dewrapped))
    } else {
        Option::None
    };
    // the context name of the field's own compilation
    let ctx = if dewrapped.len() > 0 {
        capitalize_first_char(&dewrapped)
    } else {
        Vec::new()
    };
    proof {
        assert(ctx@ == capitalized(dewrapped@));
    }
    match tokenize_value(&ctx, fval) {
        Result::Err(e) => Result::Err(e),
        Result::Ok((t, ds, _)) => {
            let mut captured = standalone;
            let mut is_first_standalone = false;
            match &captured {
                Option::None => {
                    if marked {
                        is_first_standalone = true;
                    }
                },
                Option::Some(_) => {},
            }
            if is_first_standalone {
                captured = Option::Some(clone_type(&t));
            }
            let fty = if optional {
                TypeExpr::OptionOf(Box::new(t))
            } else {
                t
            };
            let field = Field { name: ident, rename: renamed, ty: fty };
            let ghost fpre = acc_fields@;
            acc_fields.push(field);
            let mut ds = ds;
            let ghost dpre = acc_decls@;
            let ghost dsv = ds@;
            acc_decls.append(&mut ds);
            proof {
                assert(fields_model(acc_fields@) =~= fields_model(fpre) + seq![
                    field_model(acc_fields@.last()),
                ]);
                assert(decls_model(dpre + dsv) =~= decls_model(dpre) + decls_model(dsv));
            }
            typegen_fields(rest, name, acc_fields, acc_decls, captured)
        },
    }
}

} // verus!
