//! The top-level classifier: inspects a whole annotation file's root array
//! and dispatches by element count to a unit type, a record or alias, or a
//! bounded fixed-arity union.

use vstd::prelude::*;
use crate::ast::{
    Declaration, DeclModel, decls_model, ErrModel, err_model, Payload, PayloadModel, TypeExpr,
    TypegenError, TypeModel, Value, Variant, VariantModel, variant_model, variants_model,
};
use crate::compile::{
    empty_obj_state, FieldsOutcome, obj_fields_outcome, tokenize_value, typegen, typegen_fields,
    typegen_outcome, value_outcome,
};
use crate::lex::{capitalized, capitalize_first_char};
use crate::sorting::{sort_entries, sort_entries_exec};
use crate::text::{
    append_bytes, lit_regular_name, lit_response_suffix, lit_verbose_name, lit_very_verbose_name,
    text_regular_name, text_response_suffix, text_verbose_name, text_very_verbose_name,
};

verus! {

/// The capitalized file base name: the context under which a single
/// non-object root element is compiled.
pub open spec fn base_name(stem: Seq<u8>) -> Seq<u8> {
    capitalized(stem)
}

/// The declaration name derived from a file base name: the capitalized
/// original name plus the fixed response suffix, independent of any
/// module-name collision suffix.
pub open spec fn response_name(stem: Seq<u8>) -> Seq<u8> {
    capitalized(stem) + lit_response_suffix()
}

/// The closed set of positional variant names of a top-level union.
pub open spec fn variant_name_of(i: int) -> Seq<u8> {
    if i == 0 {
        lit_regular_name()
    } else if i == 1 {
        lit_verbose_name()
    } else {
        lit_very_verbose_name()
    }
}

/// What one top-level union variant's payload compiles to: an object
/// gives a record-shaped payload (or a map for a wildcard record), any
/// other element a tuple-like single-value payload.
pub open spec fn variant_payload_outcome(ctx: Seq<u8>, elem: Value) -> Result<
    (PayloadModel, Seq<DeclModel>),
    ErrModel,
> {
    match elem {
        Value::Obj(fields) => match obj_fields_outcome(
            sort_entries(fields@),
            ctx,
            empty_obj_state(),
        ) {
            Result::Ok(
                crate::compile::ObjOutcome::Plain { fields: fm, decls, standalone: _ },
            ) => Result::Ok((PayloadModel::Struct(fm), decls)),
            Result::Ok(crate::compile::ObjOutcome::Wildcard { ty, decls }) => Result::Ok(
                (PayloadModel::Single(TypeModel::MapOf(Box::new(ty))), decls),
            ),
            Result::Err(e) => Result::Err(e),
        },
        other => match value_outcome(ctx, other) {
            Result::Ok((t, ds, _)) => Result::Ok((PayloadModel::Single(t), ds)),
            Result::Err(e) => Result::Err(e),
        },
    }
}

/// The variants of a top-level union, in positional order, each compiled
/// under the base name extended with its variant name; declarations
/// bubble up in order.
pub open spec fn variants_outcome(elems: Seq<Value>, idx: int, stem: Seq<u8>) -> Result<
    (Seq<VariantModel>, Seq<DeclModel>),
    ErrModel,
>
    decreases elems.len(),
{
    if elems.len() == 0 {
        Result::Ok((Seq::empty(), Seq::empty()))
    } else {
        let vname = variant_name_of(idx);
        let ctx = base_name(stem) + vname;
        match variant_payload_outcome(ctx, elems[0]) {
            Result::Err(e) => Result::Err(e),
            Result::Ok((p, ds)) => match variants_outcome(
                elems.subrange(1, elems.len() as int),
                idx + 1,
                stem,
            ) {
                Result::Err(e) => Result::Err(e),
                Result::Ok((vs, ds2)) => Result::Ok(
                    (
                        seq![VariantModel { name: vname, rename: Option::None, payload: p }] + vs,
                        ds + ds2,
                    ),
                ),
            },
        }
    }
}

/// What the alias rule yields for a single non-object root element: its
/// compiled type under an alias declaration, unless the element was a
/// terminal enumeration, whose declaration already carries the intended
/// name.
pub open spec fn alias_outcome(stem: Seq<u8>, data: Value) -> Result<Seq<DeclModel>, ErrModel> {
    match value_outcome(base_name(stem), data) {
        Result::Err(e) => Result::Err(e),
        Result::Ok((t, ds, is_enum)) => if is_enum {
            Result::Ok(ds)
        } else {
            Result::Ok(ds + seq![DeclModel::Alias { name: response_name(stem), ty: t }])
        },
    }
}

/// What one single root element yields: an object goes to the record
/// compiler under the response name; anything else to the alias rule.
pub open spec fn single_outcome(stem: Seq<u8>, elem: Value) -> Result<Seq<DeclModel>, ErrModel> {
    match elem {
        Value::Obj(fields) => match typegen_outcome(fields@, response_name(stem)) {
            Result::Ok((_, ds)) => Result::Ok(ds),
            Result::Err(e) => Result::Err(e),
        },
        other => alias_outcome(stem, other),
    }
}

/// What the top-level classifier yields for a file's root value: a root
/// that is not an array is malformed; an empty array gives a unit type;
/// one element gives a record or alias; two or three elements give a
/// fixed-arity union named after the file; more are rejected.
pub open spec fn classify_outcome(stem: Seq<u8>, root: Value) -> Result<Seq<DeclModel>, ErrModel> {
    match root {
        Value::Arr(elems) => if elems@.len() == 0 {
            Result::Ok(seq![DeclModel::UnitType { name: response_name(stem) }])
        } else if elems@.len() == 1 {
            single_outcome(stem, elems@[0])
        } else if elems@.len() <= 3 {
            match variants_outcome(elems@, 0, stem) {
                Result::Ok((vs, ds)) => Result::Ok(
                    ds + seq![
                        DeclModel::TaggedUnion { name: response_name(stem), variants: vs },
                    ],
                ),
                Result::Err(e) => Result::Err(e),
            }
        } else {
            Result::Err(ErrModel::TooManyVariants)
        },
        _ => Result::Err(ErrModel::RootNotArray),
    }
}

/// The exec result of a file classification matches its model.
pub open spec fn decls_match(
    r: Result<Vec<Declaration>, TypegenError>,
    m: Result<Seq<DeclModel>, ErrModel>,
) -> bool {
    match (r, m) {
        (Result::Ok(ds), Result::Ok(dm)) => decls_model(ds@) == dm,
        (Result::Err(e), Result::Err(em)) => err_model(e) == em,
        _ => false,
    }
}

/// The exec result of a variant walk matches its model.
pub open spec fn variants_match(
    r: Result<(Vec<Variant>, Vec<Declaration>), TypegenError>,
    m: Result<(Seq<VariantModel>, Seq<DeclModel>), ErrModel>,
) -> bool {
    match (r, m) {
        (Result::Ok((vs, ds)), Result::Ok((vm, dm))) => variants_model(vs@) == vm && decls_model(
            ds@,
        ) == dm,
        (Result::Err(e), Result::Err(em)) => err_model(e) == em,
        _ => false,
    }
}

/// The exec result of a variant payload matches its model.
pub open spec fn payload_matches(
    r: Result<(Payload, Vec<Declaration>), TypegenError>,
    m: Result<(PayloadModel, Seq<DeclModel>), ErrModel>,
) -> bool {
    match (r, m) {
        (Result::Ok((p, ds)), Result::Ok((pm, dm))) => crate::ast::payload_model(p) == pm
            && decls_model(ds@) == dm,
        (Result::Err(e), Result::Err(em)) => err_model(e) == em,
        _ => false,
    }
}

/// Builds the declaration name for a file base name.
pub fn response_name_exec(stem: &Vec<u8>) -> (r: Vec<u8>)
    requires
        stem@.len() > 0,
    ensures
        r@ == response_name(stem@),
{
    let mut r = capitalize_first_char(stem);
    let suffix = text_response_suffix();
    append_bytes(&mut r, &suffix);
    r
}

/// Builds the positional variant name of a top-level union.
pub fn variant_name_exec(idx: usize) -> (r: Vec<u8>)
    ensures
        r@ == variant_name_of(idx as int),
{
    if idx == 0 {
        text_regular_name()
    } else if idx == 1 {
        text_verbose_name()
    } else {
        text_very_verbose_name()
    }
}

/// Compiles one top-level union variant's payload.
fn compile_variant_payload(ctx: &Vec<u8>, elem: Value) -> (r: Result<
    (Payload, Vec<Declaration>),
    TypegenError,
>)
    ensures
        payload_matches(r, variant_payload_outcome(ctx@, elem)),
{
    match elem {
        Value::Obj(fields) => {
            let sorted = sort_entries_exec(fields);
            proof {
                assert(crate::ast::fields_model(Seq::<crate::ast::Field>::empty()) =~= Seq::<
                    crate::ast::FieldModel,
                >::empty());
                assert(decls_model(Seq::<Declaration>::empty()) =~= Seq::<DeclModel>::empty());
            }
            match typegen_fields(sorted, ctx, Vec::new(), Vec::new(), Option::None) {
                Result::Ok(FieldsOutcome::Plain { fields: fs, decls, standalone: _ }) => Result::Ok(
                    (Payload::Struct(fs), decls),
                ),
                Result::Ok(FieldsOutcome::Wildcard { ty, decls }) => Result::Ok(
                    (Payload::Single(TypeExpr::MapOf(Box::new(ty))), decls),
                ),
                Result::Err(e) => Result::Err(e),
            }
        },
        other => match tokenize_value(ctx, other) {
            Result::Ok((t, ds, _)) => Result::Ok((Payload::Single(t), ds)),
            Result::Err(e) => Result::Err(e),
        },
    }
}

/// Compiles the variants of a top-level union, in positional order.
fn compile_variants(elems: Vec<Value>, idx: usize, stem: &Vec<u8>) -> (r: Result<
    (Vec<Variant>, Vec<Declaration>),
    TypegenError,
>)
    requires
        stem@.len() > 0,
        idx + elems@.len() <= 4,
    ensures
        variants_match(r, variants_outcome(elems@, idx as int, stem@)),
    decreases elems@.len(),
{
    let mut elems = elems;
    if elems.len() == 0 {
        let r = Result::Ok((Vec::<Variant>::new(), Vec::<Declaration>::new()));
        proof {
            assert(variants_model(Seq::<Variant>::empty()) =~= Seq::<VariantModel>::empty());
            assert(decls_model(Seq::<Declaration>::empty()) =~= Seq::<DeclModel>::empty());
        }
        return r;
    }
    let ghost orig = elems@;
    let head = elems.remove(0);
    proof {
        assert(elems@ =~= orig.subrange(1, orig.len() as int));
        assert(head == orig[0]);
    }
    let vname = variant_name_exec(idx);
    let mut ctx = capitalize_first_char(stem);
    append_bytes(&mut ctx, &vname);
    match compile_variant_payload(&ctx, head) {
        Result::Err(e) => Result::Err(e),
        Result::Ok((p, ds)) => {
            match compile_variants(elems, idx + 1, stem) {
                Result::Err(e) => Result::Err(e),
                Result::Ok((vs, ds2)) => {
                    let mut vs = vs;
                    let ghost vpre = vs@;
                    vs.insert(0, Variant { name: vname, rename: Option::None, payload: p });
                    let mut ds = ds;
                    let mut ds2 = ds2;
                    let ghost d1 = ds@;
                    let ghost d2 = ds2@;
                    ds.append(&mut ds2);
                    proof {
                        assert(variants_model(vs@) =~= seq![variant_model(vs@[0])] + variants_model(
                            vpre,
                        ));
                        assert(decls_model(d1 + d2) =~= decls_model(d1) + decls_model(d2));
                    }
                    Result::Ok((vs, ds))
                },
            }
        },
    }
}

/// Classifies a whole annotation file's root value under its file base
/// name, yielding the file's declarations in synthesis order.
pub fn process_response(stem: &Vec<u8>, root: Value) -> (r: Result<Vec<Declaration>, TypegenError>)
    requires
        stem@.len() > 0,
    ensures
        decls_match(r, classify_outcome(stem@, root)),
{
    match root {
        Value::Arr(elems) => {
            let mut elems = elems;
            if elems.len() == 0 {
                let mut ds: Vec<Declaration> = Vec::new();
                ds.push(Declaration::UnitType { name: response_name_exec(stem) });
                proof {
                    assert(decls_model(ds@) =~= seq![crate::ast::decl_model(ds@[0])]);
                }
                Result::Ok(ds)
            } else if elems.len() == 1 {
                let only = match elems.pop() {
                    Option::Some(v) => v,
                    Option::None => {
                        proof {
                            assert(false);
                        }
                        unreached()
                    },
                };
                match only {
                    Value::Obj(fields) => {
                        let resp = response_name_exec(stem);
                        match typegen(fields, &resp) {
                            Result::Ok((_, ds)) => Result::Ok(ds),
                            Result::Err(e) => Result::Err(e),
                        }
                    },
                    other => alias(stem, other),
                }
            } else if elems.len() <= 3 {
                match compile_variants(elems, 0, stem) {
                    Result::Err(e) => Result::Err(e),
                    Result::Ok((vs, ds)) => {
                        let mut ds = ds;
                        let own = Declaration::TaggedUnion {
                            name: response_name_exec(stem),
                            variants: vs,
                        };
                        let ghost pre = ds@;
                        ds.push(own);
                        proof {
                            assert(decls_model(ds@) =~= decls_model(pre) + seq![
                                crate::ast::decl_model(own),
                            ]);
                        }
                        Result::Ok(ds)
                    },
                }
            } else {
                Result::Err(TypegenError::TooManyVariants)
            }
        },
        _ => Result::Err(TypegenError::RootNotArray),
    }
}

/// Compiles a single non-object root element into a type alias of the
/// response name, unless the element was a terminal enumeration.
pub fn alias(stem: &Vec<u8>, data: Value) -> (r: Result<Vec<Declaration>, TypegenError>)
    requires
        stem@.len() > 0,
    ensures
        decls_match(r, alias_outcome(stem@, data)),
{
    let base = capitalize_first_char(stem);
    match tokenize_value(&base, data) {
        Result::Err(e) => Result::Err(e),
        Result::Ok((t, ds, is_enum)) => {
            if is_enum {
                Result::Ok(ds)
            } else {
                let mut ds = ds;
                let own = Declaration::Alias { name: response_name_exec(stem), ty: t };
                let ghost pre = ds@;
                ds.push(own);
                proof {
                    assert(decls_model(ds@) =~= decls_model(pre) + seq![
                        crate::ast::decl_model(own),
                    ]);
                }
                Result::Ok(ds)
            }
        },
    }
}


/// A classification outcome that, when it succeeded, ends in a tagged
/// union named after the file, with exactly the positional variant
/// names Regular and Verbose and no serialization aliases.
pub open spec fn two_variant_union_shape(stem: Seq<u8>, m: Result<Seq<DeclModel>, ErrModel>) -> bool {
    match m {
        Result::Ok(ds) => ds.len() > 0 && (ds.last() matches DeclModel::TaggedUnion {
            name,
            variants,
        } && name == response_name(stem) && variants.len() == 2 && variants[0].name
            == lit_regular_name() && variants[0].rename is None && variants[1].name
            == lit_verbose_name() && variants[1].rename is None),
        Result::Err(_) => true,
    }
}

/// Law: a root array of more than three elements is rejected as a
/// malformed schema, and a two-element root array that compiles yields,
/// as its final declaration, a tagged union named after the file whose
/// variants are named, in positional order, Regular and Verbose.
pub proof fn lemma_classifier_arity(stem: Seq<u8>, root: Value)
    ensures
        (root matches Value::Arr(elems) && elems@.len() > 3) ==> classify_outcome(stem, root)
            == Result::<Seq<DeclModel>, ErrModel>::Err(ErrModel::TooManyVariants),
        (root matches Value::Arr(elems) && elems@.len() == 2) ==> two_variant_union_shape(
            stem,
            classify_outcome(stem, root),
        ),
{
    match root {
        Value::Arr(elems) => {
            if elems@.len() == 2 {
                let ctx0 = base_name(stem) + variant_name_of(0);
                let rest1 = elems@.subrange(1, elems@.len() as int);
                let rest2 = rest1.subrange(1, rest1.len() as int);
                assert(rest2.len() == 0);
                assert(variants_outcome(rest2, 2, stem) == Result::<
                    (Seq<VariantModel>, Seq<DeclModel>),
                    ErrModel,
                >::Ok((Seq::empty(), Seq::empty())));
                match variant_payload_outcome(ctx0, elems@[0]) {
                    Result::Err(_) => {},
                    Result::Ok((p0, ds0)) => {
                        let ctx1 = base_name(stem) + variant_name_of(1);
                        match variant_payload_outcome(ctx1, rest1[0]) {
                            Result::Err(_) => {
                                assert(variants_outcome(rest1, 1, stem) is Err);
                            },
                            Result::Ok((p1, ds1)) => {
                                let v0 = VariantModel {
                                    name: variant_name_of(0),
                                    rename: Option::None,
                                    payload: p0,
                                };
                                let v1 = VariantModel {
                                    name: variant_name_of(1),
                                    rename: Option::None,
                                    payload: p1,
                                };
                                assert(variants_outcome(rest1, 1, stem) == Result::<
                                    (Seq<VariantModel>, Seq<DeclModel>),
                                    ErrModel,
                                >::Ok((seq![v1] + Seq::empty(), ds1 + Seq::empty())));
                                assert(variants_outcome(elems@, 0, stem) == Result::<
                                    (Seq<VariantModel>, Seq<DeclModel>),
                                    ErrModel,
                                >::Ok((seq![v0] + (seq![v1] + Seq::empty()), ds0 + (ds1
                                    + Seq::empty()))));
                                let vs = seq![v0] + (seq![v1] + Seq::empty());
                                assert(vs.len() == 2 && vs[0] == v0 && vs[1] == v1);
                                match classify_outcome(stem, root) {
                                    Result::Ok(ds) => {
                                        assert(ds.last() == DeclModel::TaggedUnion {
                                            name: response_name(stem),
                                            variants: vs,
                                        });
                                    },
                                    Result::Err(_) => {},
                                }
                            },
                        }
                    },
                }
            }
        },
        _ => {},
    }
}


/// Law: an empty root array yields exactly one declaration, the unit
/// type named after the file.
pub proof fn lemma_empty_array_unit_type(stem: Seq<u8>, root: Value)
    requires
        root matches Value::Arr(elems) && elems@.len() == 0,
    ensures
        classify_outcome(stem, root) == Result::<Seq<DeclModel>, ErrModel>::Ok(
            seq![DeclModel::UnitType { name: response_name(stem) }],
        ),
{
}

} // verus!
