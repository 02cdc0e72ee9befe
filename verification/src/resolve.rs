//! The terminal resolver: maps a string label to a primitive type reference
//! or to an inline enumeration declaration, and reports the insufficient
//! and invalid label conditions.

use vstd::prelude::*;
use crate::ast::{
    Declaration, DeclModel, ErrModel, Payload, TypeExpr, TypeModel, TypegenError, Variant,
    VariantModel, decl_model, variants_model,
};
use crate::lex::{capitalized, capitalize_first_char};
use crate::text::{
    append_bytes, bytes_eq, copy_bytes, is_prefix, lit_bool_label, lit_decimal_label,
    lit_enum_prefix, lit_hexadecimal_label, lit_insufficient_label, lit_response_suffix,
    lit_string_label, sub_vec, text_bool_label, text_decimal_label, text_enum_prefix,
    text_hexadecimal_label, text_insufficient_label, text_response_suffix, text_string_label,
    texts_model,
};

verus! {

/// Splits a byte string at a separator; `cur` is the segment read so far.
pub open spec fn split_byte_acc(s: Seq<u8>, sep: u8, cur: Seq<u8>) -> Seq<Seq<u8>>
    decreases s.len(),
{
    if s.len() == 0 {
        seq![cur]
    } else if s[0] == sep {
        seq![cur] + split_byte_acc(s.subrange(1, s.len() as int), sep, Seq::empty())
    } else {
        split_byte_acc(s.subrange(1, s.len() as int), sep, cur.push(s[0]))
    }
}

/// The segments of a byte string split at a separator. An empty input has
/// one empty segment; a trailing separator yields a trailing empty segment.
pub open spec fn split_byte(s: Seq<u8>, sep: u8) -> Seq<Seq<u8>> {
    split_byte_acc(s, sep, Seq::empty())
}

/// Drops leading space bytes.
pub open spec fn drop_leading_spaces(s: Seq<u8>) -> Seq<u8>
    decreases s.len(),
{
    if s.len() > 0 && s[0] == ' ' as u8 {
        drop_leading_spaces(s.subrange(1, s.len() as int))
    } else {
        s
    }
}

/// Drops trailing space bytes.
pub open spec fn drop_trailing_spaces(s: Seq<u8>) -> Seq<u8>
    decreases s.len(),
{
    if s.len() > 0 && s[s.len() - 1] == ' ' as u8 {
        drop_trailing_spaces(s.drop_last())
    } else {
        s
    }
}

/// Drops leading and trailing space bytes.
pub open spec fn trim_spaces(s: Seq<u8>) -> Seq<u8> {
    drop_trailing_spaces(drop_leading_spaces(s))
}

/// Capitalizes each segment and concatenates them.
pub open spec fn caps_concat(segs: Seq<Seq<u8>>) -> Seq<u8>
    decreases segs.len(),
{
    if segs.len() == 0 {
        Seq::empty()
    } else {
        capitalized(segs[0]) + caps_concat(segs.subrange(1, segs.len() as int))
    }
}

/// The identifier of an enumeration variant: its dash-separated segments,
/// each capitalized, concatenated. An empty segment contributes nothing.
pub open spec fn variant_ident(s: Seq<u8>) -> Seq<u8> {
    caps_concat(split_byte(s, '-' as u8))
}

/// The variants synthesized from the trimmed comma-separated variant
/// texts, in listed order: each keeps its original text as a
/// serialization alias and carries no payload.
pub open spec fn enum_variants(ts: Seq<Seq<u8>>) -> Seq<VariantModel> {
    ts.map_values(
        |t: Seq<u8>|
            VariantModel {
                name: variant_ident(trim_spaces(t)),
                rename: Option::Some(trim_spaces(t)),
                payload: crate::ast::PayloadModel::Empty,
            },
    )
}

/// The tagged union synthesized from an `ENUM:` label under a context
/// name: named `<Context>Response`, with one empty-payload variant per
/// comma-separated variant text, in listed order, not deduplicated.
pub open spec fn enum_decl(label: Seq<u8>, name: Seq<u8>) -> DeclModel {
    DeclModel::TaggedUnion {
        name: name + lit_response_suffix(),
        variants: enum_variants(split_byte(label.skip(lit_enum_prefix().len() as int), ',' as u8)),
    }
}

/// What the terminal resolver returns for a label under a context name:
/// a type expression, the synthesized auxiliary declarations, and whether
/// the result is itself a terminal enumeration; or the error condition.
pub open spec fn terminal_outcome(name: Seq<u8>, label: Seq<u8>) -> Result<
    (TypeModel, Seq<DeclModel>, bool),
    ErrModel,
> {
    if label == lit_decimal_label() {
        Result::Ok((TypeModel::Decimal, Seq::empty(), false))
    } else if label == lit_bool_label() {
        Result::Ok((TypeModel::Boolean, Seq::empty(), false))
    } else if label == lit_string_label() {
        Result::Ok((TypeModel::Text, Seq::empty(), false))
    } else if label == lit_hexadecimal_label() {
        Result::Ok((TypeModel::Text, Seq::empty(), false))
    } else if label == lit_insufficient_label() {
        Result::Err(ErrModel::Insufficient { location: name })
    } else if is_prefix(lit_enum_prefix(), label) {
        Result::Ok(
            (
                TypeModel::Named(name + lit_response_suffix()),
                seq![enum_decl(label, name)],
                true,
            ),
        )
    } else {
        Result::Err(ErrModel::InvalidLabel { label: label, location: name })
    }
}

/// Splits a byte string at a separator, at run time.
pub fn split_byte_exec(s: &Vec<u8>, sep: u8) -> (r: Vec<Vec<u8>>)
    ensures
        texts_model(r@) == split_byte(s@, sep),
{
    let mut out: Vec<Vec<u8>> = Vec::new();
    let mut cur: Vec<u8> = Vec::new();
    let mut i: usize = 0;
    proof {
        assert(s@.skip(0) =~= s@);
        assert(texts_model(out@) + split_byte_acc(s@, sep, cur@) =~= split_byte_acc(
            s@,
            sep,
            Seq::empty(),
        ));
    }
    while i < s.len()
        invariant
            0 <= i <= s@.len(),
            split_byte(s@, sep) == texts_model(out@) + split_byte_acc(s@.skip(i as int), sep, cur@),
        decreases s@.len() - i,
    {
        let b = s[i];
        proof {
            assert(s@.skip(i as int).subrange(1, s@.skip(i as int).len() as int) =~= s@.skip(
                i as int + 1,
            ));
            assert(s@.skip(i as int)[0] == s@[i as int]);
        }
        if b == sep {
            let ghost pre = out@;
            out.push(cur);
            cur = Vec::new();
            proof {
                assert(texts_model(out@) =~= texts_model(pre) + seq![out@.last()@]);
            }
        } else {
            cur.push(b);
        }
        i = i + 1;
    }
    proof {
        assert(s@.skip(s@.len() as int) =~= Seq::<u8>::empty());
    }
    let ghost pre = out@;
    out.push(cur);
    proof {
        assert(texts_model(out@) =~= texts_model(pre) + seq![out@.last()@]);
    }
    out
}

/// Trims leading and trailing spaces, at run time.
pub fn trim_exec(s: &Vec<u8>) -> (r: Vec<u8>)
    ensures
        r@ == trim_spaces(s@),
{
    let mut i: usize = 0;
    proof {
        assert(s@.skip(0) =~= s@);
    }
    while i < s.len() && s[i] == ' ' as u8
        invariant
            0 <= i <= s@.len(),
            drop_leading_spaces(s@) == drop_leading_spaces(s@.skip(i as int)),
        decreases s@.len() - i,
    {
        proof {
            assert(s@.skip(i as int).subrange(1, s@.skip(i as int).len() as int) =~= s@.skip(
                i as int + 1,
            ));
            assert(s@.skip(i as int)[0] == s@[i as int]);
        }
        i = i + 1;
    }
    assert(drop_leading_spaces(s@) == s@.skip(i as int));
    let ghost led = s@.skip(i as int);
    let mut j: usize = s.len();
    while j > i && s[j - 1] == ' ' as u8
        invariant
            i <= j <= s@.len(),
            led == s@.skip(i as int),
            drop_trailing_spaces(led) == drop_trailing_spaces(s@.subrange(i as int, j as int)),
        decreases j,
    {
        proof {
            assert(s@.subrange(i as int, j as int).drop_last() =~= s@.subrange(
                i as int,
                j as int - 1,
            ));
            assert(s@.subrange(i as int, j as int).last() == s@[j - 1]);
        }
        j = j - 1;
    }
    proof {
        assert(s@.subrange(i as int, s@.len() as int) =~= led);
        assert(trim_spaces(s@) == s@.subrange(i as int, j as int));
    }
    sub_vec(s, i, j)
}

/// Builds the identifier of one enumeration variant, at run time.
pub fn variant_ident_exec(s: &Vec<u8>) -> (r: Vec<u8>)
    ensures
        r@ == variant_ident(s@),
{
    let segs = split_byte_exec(s, '-' as u8);
    let mut out: Vec<u8> = Vec::new();
    let mut i: usize = 0;
    proof {
        assert(texts_model(segs@).skip(0) =~= texts_model(segs@));
        assert(Seq::<u8>::empty() + caps_concat(texts_model(segs@)) =~= caps_concat(
            texts_model(segs@),
        ));
    }
    while i < segs.len()
        invariant
            0 <= i <= segs@.len(),
            variant_ident(s@) == out@ + caps_concat(texts_model(segs@).skip(i as int)),
        decreases segs@.len() - i,
    {
        let ghost ts = texts_model(segs@);
        proof {
            assert(ts.skip(i as int).subrange(1, ts.skip(i as int).len() as int) =~= ts.skip(
                i as int + 1,
            ));
            assert(ts.skip(i as int)[0] == segs@[i as int]@);
        }
        if segs[i].len() > 0 {
            let cap = capitalize_first_char(&segs[i]);
            append_bytes(&mut out, &cap);
        } else {
            proof {
                assert(capitalized(segs@[i as int]@) =~= Seq::<u8>::empty());
                assert(out@ + Seq::<u8>::empty() =~= out@);
            }
        }
        i = i + 1;
    }
    proof {
        assert(texts_model(segs@).skip(segs@.len() as int) =~= Seq::<Seq<u8>>::empty());
        assert(out@ + Seq::<u8>::empty() =~= out@);
    }
    out
}

/// Synthesizes the tagged union for an `ENUM:` label under a context name.
/// Relied-on shape: the label starts with the enumeration prefix.
pub fn handle_terminal_enum(label: &Vec<u8>, name: &Vec<u8>) -> (r: Declaration)
    requires
        is_prefix(lit_enum_prefix(), label@),
    ensures
        decl_model(r) == enum_decl(label@, name@),
{
    let prefix = text_enum_prefix();
    let rest = sub_vec(label, prefix.len(), label.len());
    proof {
        assert(rest@ =~= label@.skip(lit_enum_prefix().len() as int));
    }
    let segs = split_byte_exec(&rest, ',' as u8);
    let ghost ts = texts_model(segs@);
    let mut variants: Vec<Variant> = Vec::new();
    let mut i: usize = 0;
    while i < segs.len()
        invariant
            0 <= i <= segs@.len(),
            ts == texts_model(segs@),
            variants_model(variants@) == enum_variants(ts.take(i as int)),
        decreases segs@.len() - i,
    {
        let t = trim_exec(&segs[i]);
        let ident = variant_ident_exec(&t);
        let ghost pre = variants@;
        variants.push(Variant { name: ident, rename: Option::Some(t), payload: Payload::Empty });
        proof {
            assert(variants_model(variants@) =~= variants_model(pre) + seq![
                crate::ast::variant_model(variants@.last()),
            ]);
            assert(variants_model(variants@) =~= enum_variants(ts.take(i as int + 1)));
        }
        i = i + 1;
    }
    proof {
        assert(ts.take(segs@.len() as int) =~= ts);
    }
    let mut union_name = copy_bytes(name);
    let suffix = text_response_suffix();
    append_bytes(&mut union_name, &suffix);
    let r = Declaration::TaggedUnion { name: union_name, variants };
    proof {
        assert(decl_model(r) =~~= enum_decl(label@, name@));
    }
    r
}

/// Resolves a terminal label under a context name. Returns the primitive
/// or enumeration type expression, the synthesized declarations, and the
/// terminal-enumeration flag; or the error that the label carries.
pub fn tokenize_terminal(name: &Vec<u8>, label: &Vec<u8>) -> (r: Result<
    (TypeExpr, Vec<Declaration>, bool),
    TypegenError,
>)
    ensures
        crate::compile::outcome_matches(r, terminal_outcome(name@, label@)),
{
    let decimal = text_decimal_label();
    let boolean = text_bool_label();
    let stringl = text_string_label();
    let hexa = text_hexadecimal_label();
    let insuff = text_insufficient_label();
    let enum_prefix = text_enum_prefix();
    if bytes_eq(label, &decimal) {
        let r = Result::Ok((TypeExpr::Decimal, Vec::new(), false));
        proof {
            assert(crate::ast::decls_model(Seq::<Declaration>::empty()) =~= Seq::<
                DeclModel,
            >::empty());
        }
        r
    } else if bytes_eq(label, &boolean) {
        let r = Result::Ok((TypeExpr::Boolean, Vec::new(), false));
        proof {
            assert(crate::ast::decls_model(Seq::<Declaration>::empty()) =~= Seq::<
                DeclModel,
            >::empty());
        }
        r
    } else if bytes_eq(label, &stringl) {
        let r = Result::Ok((TypeExpr::Text, Vec::new(), false));
        proof {
            assert(crate::ast::decls_model(Seq::<Declaration>::empty()) =~= Seq::<
                DeclModel,
            >::empty());
        }
        r
    } else if bytes_eq(label, &hexa) {
        let r = Result::Ok((TypeExpr::Text, Vec::new(), false));
        proof {
            assert(crate::ast::decls_model(Seq::<Declaration>::empty()) =~= Seq::<
                DeclModel,
            >::empty());
        }
        r
    } else if bytes_eq(label, &insuff) {
        Result::Err(TypegenError::Insufficient { location: copy_bytes(name) })
    } else if crate::text::starts_with(label, &enum_prefix) {
        let d = handle_terminal_enum(label, name);
        let mut ref_name = copy_bytes(name);
        let suffix = text_response_suffix();
        append_bytes(&mut ref_name, &suffix);
        let mut decls: Vec<Declaration> = Vec::new();
        decls.push(d);
        let r = Result::Ok((TypeExpr::Named(ref_name), decls, true));
        proof {
            assert(crate::ast::decls_model(decls@) =~= seq![enum_decl(label@, name@)]);
        }
        r
    } else {
        Result::Err(
            TypegenError::InvalidLabel { label: copy_bytes(label), location: copy_bytes(name) },
        )
    }
}


/// Law: each primitive label resolves to its fixed primitive type
/// expression, with no auxiliary declarations and no enumeration flag,
/// under every context name.
pub proof fn lemma_terminal_primitives(name: Seq<u8>)
    ensures
        terminal_outcome(name, lit_decimal_label()) == Result::<
            (TypeModel, Seq<DeclModel>, bool),
            ErrModel,
        >::Ok((TypeModel::Decimal, Seq::empty(), false)),
        terminal_outcome(name, lit_bool_label()) == Result::<
            (TypeModel, Seq<DeclModel>, bool),
            ErrModel,
        >::Ok((TypeModel::Boolean, Seq::empty(), false)),
        terminal_outcome(name, lit_string_label()) == Result::<
            (TypeModel, Seq<DeclModel>, bool),
            ErrModel,
        >::Ok((TypeModel::Text, Seq::empty(), false)),
        terminal_outcome(name, lit_hexadecimal_label()) == Result::<
            (TypeModel, Seq<DeclModel>, bool),
            ErrModel,
        >::Ok((TypeModel::Text, Seq::empty(), false)),
{
}

} // verus!
