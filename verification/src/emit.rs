//! The emission pipeline: renders declarations to target-language text,
//! sorts them by textual form, removes adjacent duplicates, and wraps a
//! file's declarations in one named module.

use vstd::prelude::*;
use crate::ast::{
    Declaration, DeclModel, decl_model, decls_model, ErrModel, FieldModel, fields_model, Payload,
    PayloadModel, TypegenError, TypeModel, type_model, Value, VariantModel, variants_model, Field,
    Variant,
};
use crate::classify::{classify_outcome, process_response};
use crate::sorting::{dedup_adjacent_exec, dedup_strs, sort_strs, sort_texts_exec};
use crate::text::{
    append_bytes, copy_bytes, is_reserved, is_reserved_word, lit_angle_close, lit_bool_label,
    lit_close_brace, lit_close_variant, lit_colon_sep, lit_comma_nl, lit_decimal_path,
    lit_derive_header, lit_eq_sep, lit_field_indent, lit_map_open, lit_module_suffix,
    lit_open_brace, lit_option_prefix, lit_paren_close, lit_paren_open, lit_pub_enum, lit_pub_mod,
    lit_pub_struct, lit_pub_type, lit_semi_nl, lit_serde_rename_close, lit_serde_rename_open,
    lit_string_label, lit_variant_indent, lit_vec_open, text_angle_close, text_bool_label,
    text_close_brace, text_close_variant, text_colon_sep, text_comma_nl, text_decimal_path,
    text_derive_header, text_eq_sep, text_field_indent, text_map_open, text_module_suffix,
    text_open_brace, text_option_prefix, text_paren_close, text_paren_open, text_pub_enum,
    text_pub_mod, text_pub_struct, text_pub_type, text_semi_nl, text_serde_rename_close,
    text_serde_rename_open, text_string_label, text_variant_indent, text_vec_open, texts_model,
};

verus! {

/// The rendered text of a type expression.
pub open spec fn render_type(t: TypeModel) -> Seq<u8>
    decreases t,
{
    match t {
        TypeModel::Decimal => lit_decimal_path(),
        TypeModel::Boolean => lit_bool_label(),
        TypeModel::Text => lit_string_label(),
        TypeModel::Named(n) => n,
        TypeModel::SeqOf(inner) => lit_vec_open() + render_type(*inner) + lit_angle_close(),
        TypeModel::MapOf(inner) => lit_map_open() + render_type(*inner) + lit_angle_close(),
        TypeModel::OptionOf(inner) => lit_option_prefix() + render_type(*inner)
            + lit_angle_close(),
    }
}

/// The rendered serialization-alias attribute, or nothing.
pub open spec fn render_rename(r: Option<Seq<u8>>) -> Seq<u8> {
    match r {
        Option::Some(w) => lit_serde_rename_open() + w + lit_serde_rename_close(),
        Option::None => Seq::empty(),
    }
}

/// The rendered text of one public record field.
pub open spec fn render_field(f: FieldModel) -> Seq<u8> {
    render_rename(f.rename) + lit_field_indent() + f.name + lit_colon_sep() + render_type(f.ty)
        + lit_comma_nl()
}

/// The rendered text of a field list, in order.
pub open spec fn render_fields(fs: Seq<FieldModel>) -> Seq<u8>
    decreases fs.len(),
{
    if fs.len() == 0 {
        Seq::empty()
    } else {
        render_fields(fs.drop_last()) + render_field(fs.last())
    }
}

/// The rendered text of one tagged-union variant.
pub open spec fn render_variant(v: VariantModel) -> Seq<u8> {
    match v.payload {
        PayloadModel::Empty => render_rename(v.rename) + lit_variant_indent() + v.name
            + lit_comma_nl(),
        PayloadModel::Single(t) => render_rename(v.rename) + lit_variant_indent() + v.name
            + lit_paren_open() + render_type(t) + lit_paren_close() + lit_comma_nl(),
        PayloadModel::Struct(fs) => render_rename(v.rename) + lit_variant_indent() + v.name
            + lit_open_brace() + render_fields(fs) + lit_close_variant(),
    }
}

/// The rendered text of a variant list, in order.
pub open spec fn render_variants(vs: Seq<VariantModel>) -> Seq<u8>
    decreases vs.len(),
{
    if vs.len() == 0 {
        Seq::empty()
    } else {
        render_variants(vs.drop_last()) + render_variant(vs.last())
    }
}

/// The rendered text of one declaration.
pub open spec fn render_decl(d: DeclModel) -> Seq<u8> {
    match d {
        DeclModel::Record { name, fields } => lit_derive_header() + lit_pub_struct() + name
            + lit_open_brace() + render_fields(fields) + lit_close_brace(),
        DeclModel::TaggedUnion { name, variants } => lit_derive_header() + lit_pub_enum() + name
            + lit_open_brace() + render_variants(variants) + lit_close_brace(),
        DeclModel::Alias { name, ty } => lit_pub_type() + name + lit_eq_sep() + render_type(ty)
            + lit_semi_nl(),
        DeclModel::UnitType { name } => lit_derive_header() + lit_pub_struct() + name
            + lit_semi_nl(),
    }
}

/// The rendered texts of a declaration list.
pub open spec fn rendered_texts(ds: Seq<DeclModel>) -> Seq<Seq<u8>> {
    ds.map_values(|d: DeclModel| render_decl(d))
}

/// The concatenation of a list of texts, in order.
pub open spec fn concat_texts(ts: Seq<Seq<u8>>) -> Seq<u8>
    decreases ts.len(),
{
    if ts.len() == 0 {
        Seq::empty()
    } else {
        concat_texts(ts.drop_last()) + ts.last()
    }
}

/// The module name of a file: its base name, with the collision suffix
/// appended when it matches a reserved word.
pub open spec fn module_name(stem: Seq<u8>) -> Seq<u8> {
    if is_reserved(stem) {
        stem + lit_module_suffix()
    } else {
        stem
    }
}

/// The body of a file's module: its declaration texts sorted into
/// lexicographic order, with adjacent duplicates removed, concatenated.
pub open spec fn module_body(decls: Seq<DeclModel>) -> Seq<u8> {
    concat_texts(dedup_strs(sort_strs(rendered_texts(decls))))
}

/// The full text of a file's module.
pub open spec fn module_text(stem: Seq<u8>, decls: Seq<DeclModel>) -> Seq<u8> {
    lit_pub_mod() + module_name(stem) + lit_open_brace() + module_body(decls) + lit_close_brace()
}

/// What one whole file compiles to: its module text; nothing, when the
/// file carried the insufficient-annotation sentinel; or the fatal error.
pub open spec fn compile_file_outcome(stem: Seq<u8>, root: Value) -> Result<
    Option<Seq<u8>>,
    ErrModel,
> {
    match classify_outcome(stem, root) {
        Result::Ok(ds) => Result::Ok(Option::Some(module_text(stem, ds))),
        Result::Err(ErrModel::Insufficient { location: _ }) => Result::Ok(Option::None),
        Result::Err(e) => Result::Err(e),
    }
}

/// The exec result of a file compilation matches its model.
pub open spec fn file_matches(
    r: Result<Option<Vec<u8>>, TypegenError>,
    m: Result<Option<Seq<u8>>, ErrModel>,
) -> bool {
    match (r, m) {
        (Result::Ok(Option::Some(v)), Result::Ok(Option::Some(t))) => v@ == t,
        (Result::Ok(Option::None), Result::Ok(Option::None)) => true,
        (Result::Err(e), Result::Err(em)) => crate::ast::err_model(e) == em,
        _ => false,
    }
}

/// Renders a type expression, at run time.
pub fn render_type_exec(t: &crate::ast::TypeExpr) -> (r: Vec<u8>)
    ensures
        r@ == render_type(type_model(*t)),
    decreases *t,
{
    match t {
        crate::ast::TypeExpr::Decimal => text_decimal_path(),
        crate::ast::TypeExpr::Boolean => text_bool_label(),
        crate::ast::TypeExpr::Text => text_string_label(),
        crate::ast::TypeExpr::Named(n) => copy_bytes(n),
        crate::ast::TypeExpr::SeqOf(inner) => {
            let mut out = text_vec_open();
            let body = render_type_exec(inner);
            append_bytes(&mut out, &body);
            let close = text_angle_close();
            append_bytes(&mut out, &close);
            out
        },
        crate::ast::TypeExpr::MapOf(inner) => {
            let mut out = text_map_open();
            let body = render_type_exec(inner);
            append_bytes(&mut out, &body);
            let close = text_angle_close();
            append_bytes(&mut out, &close);
            out
        },
        crate::ast::TypeExpr::OptionOf(inner) => {
            let mut out = text_option_prefix();
            let body = render_type_exec(inner);
            append_bytes(&mut out, &body);
            let close = text_angle_close();
            append_bytes(&mut out, &close);
            out
        },
    }
}

/// Renders the serialization-alias attribute into `out`.
fn render_rename_exec(out: &mut Vec<u8>, rename: &Option<Vec<u8>>)
    ensures
        final(out)@ == old(out)@ + render_rename(crate::ast::rename_model(*rename)),
{
    match rename {
        Option::Some(w) => {
            let open = text_serde_rename_open();
            append_bytes(out, &open);
            append_bytes(out, w);
            let close = text_serde_rename_close();
            append_bytes(out, &close);
        },
        Option::None => {
            proof {
                assert(out@ + Seq::<u8>::empty() =~= out@);
            }
        },
    }
}

/// Renders one record field into `out`.
fn render_field_exec(out: &mut Vec<u8>, f: &Field)
    ensures
        final(out)@ == old(out)@ + render_field(crate::ast::field_model(*f)),
{
    render_rename_exec(out, &f.rename);
    let indent = text_field_indent();
    append_bytes(out, &indent);
    append_bytes(out, &f.name);
    let colon = text_colon_sep();
    append_bytes(out, &colon);
    let ty = render_type_exec(&f.ty);
    append_bytes(out, &ty);
    let comma = text_comma_nl();
    append_bytes(out, &comma);
}

/// Renders a field list into `out`, in order.
fn render_fields_exec(out: &mut Vec<u8>, fs: &Vec<Field>)
    ensures
        final(out)@ == old(out)@ + render_fields(fields_model(fs@)),
{
    let mut i: usize = 0;
    proof {
        assert(fields_model(fs@).take(0) =~= Seq::<FieldModel>::empty());
        assert(out@ + Seq::<u8>::empty() =~= out@);
    }
    while i < fs.len()
        invariant
            0 <= i <= fs@.len(),
            out@ == old(out)@ + render_fields(fields_model(fs@).take(i as int)),
        decreases fs@.len() - i,
    {
        render_field_exec(out, &fs[i]);
        proof {
            let fm = fields_model(fs@);
            assert(fm.take(i as int + 1).drop_last() =~= fm.take(i as int));
            assert(fm.take(i as int + 1).last() == crate::ast::field_model(fs@[i as int]));
        }
        i = i + 1;
    }
    proof {
        assert(fields_model(fs@).take(fs@.len() as int) =~= fields_model(fs@));
    }
}

/// Renders one tagged-union variant into `out`.
fn render_variant_exec(out: &mut Vec<u8>, v: &Variant)
    ensures
        final(out)@ == old(out)@ + render_variant(crate::ast::variant_model(*v)),
{
    render_rename_exec(out, &v.rename);
    let indent = text_variant_indent();
    append_bytes(out, &indent);
    append_bytes(out, &v.name);
    match &v.payload {
        Payload::Empty => {
            let comma = text_comma_nl();
            append_bytes(out, &comma);
        },
        Payload::Single(t) => {
            let open = text_paren_open();
            append_bytes(out, &open);
            let ty = render_type_exec(t);
            append_bytes(out, &ty);
            let close = text_paren_close();
            append_bytes(out, &close);
            let comma = text_comma_nl();
            append_bytes(out, &comma);
        },
        Payload::Struct(fs) => {
            let open = text_open_brace();
            append_bytes(out, &open);
            render_fields_exec(out, fs);
            let close = text_close_variant();
            append_bytes(out, &close);
        },
    }
}

/// Renders a variant list into `out`, in order.
fn render_variants_exec(out: &mut Vec<u8>, vs: &Vec<Variant>)
    ensures
        final(out)@ == old(out)@ + render_variants(variants_model(vs@)),
{
    let mut i: usize = 0;
    proof {
        assert(variants_model(vs@).take(0) =~= Seq::<VariantModel>::empty());
        assert(out@ + Seq::<u8>::empty() =~= out@);
    }
    while i < vs.len()
        invariant
            0 <= i <= vs@.len(),
            out@ == old(out)@ + render_variants(variants_model(vs@).take(i as int)),
        decreases vs@.len() - i,
    {
        render_variant_exec(out, &vs[i]);
        proof {
            let vm = variants_model(vs@);
            assert(vm.take(i as int + 1).drop_last() =~= vm.take(i as int));
            assert(vm.take(i as int + 1).last() == crate::ast::variant_model(vs@[i as int]));
        }
        i = i + 1;
    }
    proof {
        assert(variants_model(vs@).take(vs@.len() as int) =~= variants_model(vs@));
    }
}

/// Renders one declaration to its full text.
pub fn render_decl_exec(d: &Declaration) -> (r: Vec<u8>)
    ensures
        r@ == render_decl(decl_model(*d)),
{
    match d {
        Declaration::Record { name, fields } => {
            let mut out = text_derive_header();
            let ps = text_pub_struct();
            append_bytes(&mut out, &ps);
            append_bytes(&mut out, name);
            let open = text_open_brace();
            append_bytes(&mut out, &open);
            render_fields_exec(&mut out, fields);
            let close = text_close_brace();
            append_bytes(&mut out, &close);
            out
        },
        Declaration::TaggedUnion { name, variants } => {
            let mut out = text_derive_header();
            let pe = text_pub_enum();
            append_bytes(&mut out, &pe);
            append_bytes(&mut out, name);
            let open = text_open_brace();
            append_bytes(&mut out, &open);
            render_variants_exec(&mut out, variants);
            let close = text_close_brace();
            append_bytes(&mut out, &close);
            out
        },
        Declaration::Alias { name, ty } => {
            let mut out = text_pub_type();
            append_bytes(&mut out, name);
            let eq = text_eq_sep();
            append_bytes(&mut out, &eq);
            let body = render_type_exec(ty);
            append_bytes(&mut out, &body);
            let semi = text_semi_nl();
            append_bytes(&mut out, &semi);
            out
        },
        Declaration::UnitType { name } => {
            let mut out = text_derive_header();
            let ps = text_pub_struct();
            append_bytes(&mut out, &ps);
            append_bytes(&mut out, name);
            let semi = text_semi_nl();
            append_bytes(&mut out, &semi);
            out
        },
    }
}

/// Builds the module name of a file, appending the collision suffix to a
/// reserved base name.
pub fn module_name_exec(stem: &Vec<u8>) -> (r: Vec<u8>)
    ensures
        r@ == module_name(stem@),
{
    let mut r = copy_bytes(stem);
    if is_reserved_word(stem) {
        let suffix = text_module_suffix();
        append_bytes(&mut r, &suffix);
    }
    r
}

/// Compiles one whole annotation file: classifies its root, renders every
/// declaration, sorts and deduplicates the texts, and wraps them in the
/// file's module. A file whose compilation met the insufficient-annotation
/// sentinel contributes nothing; any other error is handed back.
pub fn compile_file(stem: &Vec<u8>, root: Value) -> (r: Result<Option<Vec<u8>>, TypegenError>)
    requires
        stem@.len() > 0,
    ensures
        file_matches(r, compile_file_outcome(stem@, root)),
{
    let decls = match process_response(stem, root) {
        Result::Ok(ds) => ds,
        Result::Err(e) => {
            return match e {
                TypegenError::Insufficient { location: _ } => Result::Ok(Option::None),
                other => Result::Err(other),
            };
        },
    };
    let ghost dm = decls_model(decls@);
    let mut texts: Vec<Vec<u8>> = Vec::new();
    let mut i: usize = 0;
    proof {
        assert(texts_model(texts@) =~= rendered_texts(dm.take(0)));
    }
    while i < decls.len()
        invariant
            0 <= i <= decls@.len(),
            dm == decls_model(decls@),
            texts_model(texts@) == rendered_texts(dm.take(i as int)),
        decreases decls@.len() - i,
    {
        let t = render_decl_exec(&decls[i]);
        let ghost tpre = texts_model(texts@);
        texts.push(t);
        proof {
            assert(texts_model(texts@) =~= tpre.push(render_decl(dm[i as int])));
            assert(rendered_texts(dm.take(i as int + 1)) =~= rendered_texts(dm.take(i as int)).push(
                render_decl(dm[i as int]),
            ));
        }
        i = i + 1;
    }
    proof {
        assert(dm.take(decls@.len() as int) =~= dm);
    }
    let sorted = sort_texts_exec(texts);
    let deduped = dedup_adjacent_exec(sorted);
    let mut out = text_pub_mod();
    let mname = module_name_exec(stem);
    append_bytes(&mut out, &mname);
    let open = text_open_brace();
    append_bytes(&mut out, &open);
    let mut j: usize = 0;
    let ghost body = texts_model(deduped@);
    proof {
        assert(body.take(0) =~= Seq::<Seq<u8>>::empty());
        assert(out@ + Seq::<u8>::empty() =~= out@);
    }
    let ghost mid = out@;
    while j < deduped.len()
        invariant
            0 <= j <= deduped@.len(),
            body == texts_model(deduped@),
            out@ == mid + concat_texts(body.take(j as int)),
        decreases deduped@.len() - j,
    {
        append_bytes(&mut out, &deduped[j]);
        proof {
            assert(body.take(j as int + 1).drop_last() =~= body.take(j as int));
            assert(body.take(j as int + 1).last() == body[j as int]);
        }
        j = j + 1;
    }
    proof {
        assert(body.take(deduped@.len() as int) =~= body);
    }
    let close = text_close_brace();
    append_bytes(&mut out, &close);
    Result::Ok(Option::Some(out))
}


/// Law: record compilation is idempotent under reordering of an input
/// object's keys. Two presentations of the same fields, pairwise
/// distinct in key, compile to the same outcome under any context name.
pub proof fn lemma_record_key_order_idempotent(name: Seq<u8>, v1: Value, v2: Value)
    requires
        v1 matches Value::Obj(o1) && (v2 matches Value::Obj(o2) && o1@.to_multiset()
            == o2@.to_multiset() && crate::sorting::distinct_keys(o1@)
            && crate::sorting::distinct_keys(o2@)),
    ensures
        crate::compile::value_outcome(name, v1) == crate::compile::value_outcome(name, v2),
{
    match v1 {
        Value::Obj(o1) => match v2 {
            Value::Obj(o2) => {
                crate::sorting::lemma_sort_entries_unique(o1@, o2@);
                assert(crate::compile::typegen_outcome(o1@, name)
                    == crate::compile::typegen_outcome(o2@, name));
                assert(crate::compile::object_outcome(name, o1@) == crate::compile::object_outcome(
                    name,
                    o2@,
                ));
            },
            _ => {},
        },
        _ => {},
    }
}

/// Law: declaration emission is idempotent under reordering of an input
/// object's keys. Compiling two single-object files that present the
/// same fields in different orders, under pairwise distinct keys, yields
/// byte-identical sorted, deduplicated module text.
pub proof fn lemma_emission_key_order_idempotent(stem: Seq<u8>, r1: Value, r2: Value)
    requires
        r1 matches Value::Arr(es1) && (es1@.len() == 1 && (es1@[0] matches Value::Obj(o1) && (
        r2 matches Value::Arr(es2) && (es2@.len() == 1 && (es2@[0] matches Value::Obj(o2) && (
        o1@.to_multiset() == o2@.to_multiset() && crate::sorting::distinct_keys(o1@)
            && crate::sorting::distinct_keys(o2@))))))),
    ensures
        compile_file_outcome(stem, r1) == compile_file_outcome(stem, r2),
{
    match r1 {
        Value::Arr(es1) => match r2 {
            Value::Arr(es2) => match es1@[0] {
                Value::Obj(o1) => match es2@[0] {
                    Value::Obj(o2) => {
                        crate::sorting::lemma_sort_entries_unique(o1@, o2@);
                        assert(crate::compile::typegen_outcome(o1@, crate::classify::response_name(
                            stem,
                        )) == crate::compile::typegen_outcome(o2@, crate::classify::response_name(
                            stem,
                        )));
                        assert(crate::classify::single_outcome(stem, es1@[0])
                            == crate::classify::single_outcome(stem, es2@[0]));
                        assert(classify_outcome(stem, r1) == classify_outcome(stem, r2));
                    },
                    _ => {},
                },
                _ => {},
            },
            _ => {},
        },
        _ => {},
    }
}


/// What a whole run over annotation files yields, in file order: each
/// file's module text appended in turn, a file that met the
/// insufficient-annotation sentinel contributing nothing and not
/// stopping the run, and the first fatal error ending it.
pub open spec fn batch_outcome(files: Seq<(Vec<u8>, Value)>) -> Result<Seq<u8>, ErrModel>
    decreases files.len(),
{
    if files.len() == 0 {
        Result::Ok(Seq::empty())
    } else {
        match compile_file_outcome(files[0].0@, files[0].1) {
            Result::Ok(Option::Some(t)) => match batch_outcome(
                files.subrange(1, files.len() as int),
            ) {
                Result::Ok(r) => Result::Ok(t + r),
                Result::Err(e) => Result::Err(e),
            },
            Result::Ok(Option::None) => batch_outcome(files.subrange(1, files.len() as int)),
            Result::Err(e) => Result::Err(e),
        }
    }
}

/// The exec result of a run matches its model.
pub open spec fn batch_matches(
    r: Result<Vec<u8>, TypegenError>,
    m: Result<Seq<u8>, ErrModel>,
) -> bool {
    match (r, m) {
        (Result::Ok(v), Result::Ok(t)) => v@ == t,
        (Result::Err(e), Result::Err(em)) => crate::ast::err_model(e) == em,
        _ => false,
    }
}

/// Compiles a run of annotation files, in the order given, into the
/// concatenated text of their modules. A file that met the
/// insufficient-annotation sentinel is skipped and processing continues
/// with the next file; any other error aborts the run.
pub fn process_batch(files: Vec<(Vec<u8>, Value)>) -> (r: Result<Vec<u8>, TypegenError>)
    requires
        forall|i: int| 0 <= i < files@.len() ==> #[trigger] files@[i].0@.len() > 0,
    ensures
        batch_matches(r, batch_outcome(files@)),
    decreases files@.len(),
{
    let mut files = files;
    if files.len() == 0 {
        let empty: Vec<u8> = Vec::new();
        assert(empty@ =~= Seq::<u8>::empty());
        return Result::Ok(empty);
    }
    let ghost orig = files@;
    let entry = files.remove(0);
    proof {
        assert(files@ =~= orig.subrange(1, orig.len() as int));
        assert(entry == orig[0]);
    }
    let stem = entry.0;
    let root = entry.1;
    match compile_file(&stem, root) {
        Result::Err(e) => Result::Err(e),
        Result::Ok(Option::None) => process_batch(files),
        Result::Ok(Option::Some(mut t)) => match process_batch(files) {
            Result::Err(e) => Result::Err(e),
            Result::Ok(rest) => {
                append_bytes(&mut t, &rest);
                Result::Ok(t)
            },
        },
    }
}

} // verus!
