//! The fixed textual fragments of the compiler: schema labels, structural
//! prefixes, the reserved-word table, and the pieces of rendered source text;
//! with small byte-string utilities shared by the other modules.

use vstd::prelude::*;

verus! {

pub open spec fn lit_decimal_label() -> Seq<u8> {
    seq!['D' as u8, 'e' as u8, 'c' as u8, 'i' as u8, 'm' as u8, 'a' as u8, 'l' as u8]
}

/// The bytes of `lit_decimal_label`.
pub fn text_decimal_label() -> (r: Vec<u8>)
    ensures
        r@ == lit_decimal_label(),
{
    let mut r: Vec<u8> = Vec::new();
    r.push('D' as u8);
    r.push('e' as u8);
    r.push('c' as u8);
    r.push('i' as u8);
    r.push('m' as u8);
    r.push('a' as u8);
    r.push('l' as u8);
    proof {
        assert(r@ =~= lit_decimal_label());
    }
    r
}

pub open spec fn lit_bool_label() -> Seq<u8> {
    seq!['b' as u8, 'o' as u8, 'o' as u8, 'l' as u8]
}

/// The bytes of `lit_bool_label`.
pub fn text_bool_label() -> (r: Vec<u8>)
    ensures
        r@ == lit_bool_label(),
{
    let mut r: Vec<u8> = Vec::new();
    r.push('b' as u8);
    r.push('o' as u8);
    r.push('o' as u8);
    r.push('l' as u8);
    proof {
        assert(r@ =~= lit_bool_label());
    }
    r
}

pub open spec fn lit_string_label() -> Seq<u8> {
    seq!['S' as u8, 't' as u8, 'r' as u8, 'i' as u8, 'n' as u8, 'g' as u8]
}

/// The bytes of `lit_string_label`.
pub fn text_string_label() -> (r: Vec<u8>)
    ensures
        r@ == lit_string_label(),
{
    let mut r: Vec<u8> = Vec::new();
    r.push('S' as u8);
    r.push('t' as u8);
    r.push('r' as u8);
    r.push('i' as u8);
    r.push('n' as u8);
    r.push('g' as u8);
    proof {
        assert(r@ =~= lit_string_label());
    }
    r
}

pub open spec fn lit_hexadecimal_label() -> Seq<u8> {
    seq!['h' as u8, 'e' as u8, 'x' as u8, 'a' as u8, 'd' as u8, 'e' as u8, 'c' as u8, 'i' as u8, 'm' as u8, 'a' as u8, 'l' as u8]
}

/// The bytes of `lit_hexadecimal_label`.
pub fn text_hexadecimal_label() -> (r: Vec<u8>)
    ensures
        r@ == lit_hexadecimal_label(),
{
    let mut r: Vec<u8> = Vec::new();
    r.push('h' as u8);
    r.push('e' as u8);
    r.push('x' as u8);
    r.push('a' as u8);
    r.push('d' as u8);
    r.push('e' as u8);
    r.push('c' as u8);
    r.push('i' as u8);
    r.push('m' as u8);
    r.push('a' as u8);
    r.push('l' as u8);
    proof {
        assert(r@ =~= lit_hexadecimal_label());
    }
    r
}

pub open spec fn lit_insufficient_label() -> Seq<u8> {
    seq!['I' as u8, 'N' as u8, 'S' as u8, 'U' as u8, 'F' as u8, 'F' as u8, 'I' as u8, 'C' as u8, 'I' as u8, 'E' as u8, 'N' as u8, 'T' as u8]
}

/// The bytes of `lit_insufficient_label`.
pub fn text_insufficient_label() -> (r: Vec<u8>)
    ensures
        r@ == lit_insufficient_label(),
{
    let mut r: Vec<u8> = Vec::new();
    r.push('I' as u8);
    r.push('N' as u8);
    r.push('S' as u8);
    r.push('U' as u8);
    r.push('F' as u8);
    r.push('F' as u8);
    r.push('I' as u8);
    r.push('C' as u8);
    r.push('I' as u8);
    r.push('E' as u8);
    r.push('N' as u8);
    r.push('T' as u8);
    proof {
        assert(r@ =~= lit_insufficient_label());
    }
    r
}

pub open spec fn lit_enum_prefix() -> Seq<u8> {
    seq!['E' as u8, 'N' as u8, 'U' as u8, 'M' as u8, ':' as u8]
}

/// The bytes of `lit_enum_prefix`.
pub fn text_enum_prefix() -> (r: Vec<u8>)
    ensures
        r@ == lit_enum_prefix(),
{
    let mut r: Vec<u8> = Vec::new();
    r.push('E' as u8);
    r.push('N' as u8);
    r.push('U' as u8);
    r.push('M' as u8);
    r.push(':' as u8);
    proof {
        assert(r@ =~= lit_enum_prefix());
    }
    r
}

pub open spec fn lit_wildcard_key() -> Seq<u8> {
    seq!['x' as u8, 'x' as u8, 'x' as u8, 'x' as u8]
}

/// The bytes of `lit_wildcard_key`.
pub fn text_wildcard_key() -> (r: Vec<u8>)
    ensures
        r@ == lit_wildcard_key(),
{
    let mut r: Vec<u8> = Vec::new();
    r.push('x' as u8);
    r.push('x' as u8);
    r.push('x' as u8);
    r.push('x' as u8);
    proof {
        assert(r@ =~= lit_wildcard_key());
    }
    r
}

pub open spec fn lit_option_prefix() -> Seq<u8> {
    seq!['O' as u8, 'p' as u8, 't' as u8, 'i' as u8, 'o' as u8, 'n' as u8, '<' as u8]
}

/// The bytes of `lit_option_prefix`.
pub fn text_option_prefix() -> (r: Vec<u8>)
    ensures
        r@ == lit_option_prefix(),
{
    let mut r: Vec<u8> = Vec::new();
    r.push('O' as u8);
    r.push('p' as u8);
    r.push('t' as u8);
    r.push('i' as u8);
    r.push('o' as u8);
    r.push('n' as u8);
    r.push('<' as u8);
    proof {
        assert(r@ =~= lit_option_prefix());
    }
    r
}

pub open spec fn lit_also_standalone_prefix() -> Seq<u8> {
    seq!['a' as u8, 'l' as u8, 's' as u8, 'o' as u8, 'S' as u8, 't' as u8, 'a' as u8, 'n' as u8, 'd' as u8, 'a' as u8, 'l' as u8, 'o' as u8, 'n' as u8, 'e' as u8, '<' as u8]
}

/// The bytes of `lit_also_standalone_prefix`.
pub fn text_also_standalone_prefix() -> (r: Vec<u8>)
    ensures
        r@ == lit_also_standalone_prefix(),
{
    let mut r: Vec<u8> = Vec::new();
    r.push('a' as u8);
    r.push('l' as u8);
    r.push('s' as u8);
    r.push('o' as u8);
    r.push('S' as u8);
    r.push('t' as u8);
    r.push('a' as u8);
    r.push('n' as u8);
    r.push('d' as u8);
    r.push('a' as u8);
    r.push('l' as u8);
    r.push('o' as u8);
    r.push('n' as u8);
    r.push('e' as u8);
    r.push('<' as u8);
    proof {
        assert(r@ =~= lit_also_standalone_prefix());
    }
    r
}

pub open spec fn lit_response_suffix() -> Seq<u8> {
    seq!['R' as u8, 'e' as u8, 's' as u8, 'p' as u8, 'o' as u8, 'n' as u8, 's' as u8, 'e' as u8]
}

/// The bytes of `lit_response_suffix`.
pub fn text_response_suffix() -> (r: Vec<u8>)
    ensures
        r@ == lit_response_suffix(),
{
    let mut r: Vec<u8> = Vec::new();
    r.push('R' as u8);
    r.push('e' as u8);
    r.push('s' as u8);
    r.push('p' as u8);
    r.push('o' as u8);
    r.push('n' as u8);
    r.push('s' as u8);
    r.push('e' as u8);
    proof {
        assert(r@ =~= lit_response_suffix());
    }
    r
}

pub open spec fn lit_regular_name() -> Seq<u8> {
    seq!['R' as u8, 'e' as u8, 'g' as u8, 'u' as u8, 'l' as u8, 'a' as u8, 'r' as u8]
}

/// The bytes of `lit_regular_name`.
pub fn text_regular_name() -> (r: Vec<u8>)
    ensures
        r@ == lit_regular_name(),
{
    let mut r: Vec<u8> = Vec::new();
    r.push('R' as u8);
    r.push('e' as u8);
    r.push('g' as u8);
    r.push('u' as u8);
    r.push('l' as u8);
    r.push('a' as u8);
    r.push('r' as u8);
    proof {
        assert(r@ =~= lit_regular_name());
    }
    r
}

pub open spec fn lit_verbose_name() -> Seq<u8> {
    seq!['V' as u8, 'e' as u8, 'r' as u8, 'b' as u8, 'o' as u8, 's' as u8, 'e' as u8]
}

/// The bytes of `lit_verbose_name`.
pub fn text_verbose_name() -> (r: Vec<u8>)
    ensures
        r@ == lit_verbose_name(),
{
    let mut r: Vec<u8> = Vec::new();
    r.push('V' as u8);
    r.push('e' as u8);
    r.push('r' as u8);
    r.push('b' as u8);
    r.push('o' as u8);
    r.push('s' as u8);
    r.push('e' as u8);
    proof {
        assert(r@ =~= lit_verbose_name());
    }
    r
}

pub open spec fn lit_very_verbose_name() -> Seq<u8> {
    seq!['V' as u8, 'e' as u8, 'r' as u8, 'y' as u8, 'V' as u8, 'e' as u8, 'r' as u8, 'b' as u8, 'o' as u8, 's' as u8, 'e' as u8]
}

/// The bytes of `lit_very_verbose_name`.
pub fn text_very_verbose_name() -> (r: Vec<u8>)
    ensures
        r@ == lit_very_verbose_name(),
{
    let mut r: Vec<u8> = Vec::new();
    r.push('V' as u8);
    r.push('e' as u8);
    r.push('r' as u8);
    r.push('y' as u8);
    r.push('V' as u8);
    r.push('e' as u8);
    r.push('r' as u8);
    r.push('b' as u8);
    r.push('o' as u8);
    r.push('s' as u8);
    r.push('e' as u8);
    proof {
        assert(r@ =~= lit_very_verbose_name());
    }
    r
}

pub open spec fn lit_field_suffix() -> Seq<u8> {
    seq!['_' as u8, 'f' as u8, 'i' as u8, 'e' as u8, 'l' as u8, 'd' as u8]
}

/// The bytes of `lit_field_suffix`.
pub fn text_field_suffix() -> (r: Vec<u8>)
    ensures
        r@ == lit_field_suffix(),
{
    let mut r: Vec<u8> = Vec::new();
    r.push('_' as u8);
    r.push('f' as u8);
    r.push('i' as u8);
    r.push('e' as u8);
    r.push('l' as u8);
    r.push('d' as u8);
    proof {
        assert(r@ =~= lit_field_suffix());
    }
    r
}

pub open spec fn lit_module_suffix() -> Seq<u8> {
    seq!['_' as u8, 'm' as u8, 'o' as u8, 'd' as u8]
}

/// The bytes of `lit_module_suffix`.
pub fn text_module_suffix() -> (r: Vec<u8>)
    ensures
        r@ == lit_module_suffix(),
{
    let mut r: Vec<u8> = Vec::new();
    r.push('_' as u8);
    r.push('m' as u8);
    r.push('o' as u8);
    r.push('d' as u8);
    proof {
        assert(r@ =~= lit_module_suffix());
    }
    r
}

pub open spec fn lit_kw_enum() -> Seq<u8> {
    seq!['e' as u8, 'n' as u8, 'u' as u8, 'm' as u8]
}

/// The bytes of `lit_kw_enum`.
pub fn text_kw_enum() -> (r: Vec<u8>)
    ensures
        r@ == lit_kw_enum(),
{
    let mut r: Vec<u8> = Vec::new();
    r.push('e' as u8);
    r.push('n' as u8);
    r.push('u' as u8);
    r.push('m' as u8);
    proof {
        assert(r@ =~= lit_kw_enum());
    }
    r
}

pub open spec fn lit_kw_fn() -> Seq<u8> {
    seq!['f' as u8, 'n' as u8]
}

/// The bytes of `lit_kw_fn`.
pub fn text_kw_fn() -> (r: Vec<u8>)
    ensures
        r@ == lit_kw_fn(),
{
    let mut r: Vec<u8> = Vec::new();
    r.push('f' as u8);
    r.push('n' as u8);
    proof {
        assert(r@ =~= lit_kw_fn());
    }
    r
}

pub open spec fn lit_kw_impl() -> Seq<u8> {
    seq!['i' as u8, 'm' as u8, 'p' as u8, 'l' as u8]
}

/// The bytes of `lit_kw_impl`.
pub fn text_kw_impl() -> (r: Vec<u8>)
    ensures
        r@ == lit_kw_impl(),
{
    let mut r: Vec<u8> = Vec::new();
    r.push('i' as u8);
    r.push('m' as u8);
    r.push('p' as u8);
    r.push('l' as u8);
    proof {
        assert(r@ =~= lit_kw_impl());
    }
    r
}

pub open spec fn lit_kw_let() -> Seq<u8> {
    seq!['l' as u8, 'e' as u8, 't' as u8]
}

/// The bytes of `lit_kw_let`.
pub fn text_kw_let() -> (r: Vec<u8>)
    ensures
        r@ == lit_kw_let(),
{
    let mut r: Vec<u8> = Vec::new();
    r.push('l' as u8);
    r.push('e' as u8);
    r.push('t' as u8);
    proof {
        assert(r@ =~= lit_kw_let());
    }
    r
}

pub open spec fn lit_kw_match() -> Seq<u8> {
    seq!['m' as u8, 'a' as u8, 't' as u8, 'c' as u8, 'h' as u8]
}

/// The bytes of `lit_kw_match`.
pub fn text_kw_match() -> (r: Vec<u8>)
    ensures
        r@ == lit_kw_match(),
{
    let mut r: Vec<u8> = Vec::new();
    r.push('m' as u8);
    r.push('a' as u8);
    r.push('t' as u8);
    r.push('c' as u8);
    r.push('h' as u8);
    proof {
        assert(r@ =~= lit_kw_match());
    }
    r
}

pub open spec fn lit_kw_struct() -> Seq<u8> {
    seq!['s' as u8, 't' as u8, 'r' as u8, 'u' as u8, 'c' as u8, 't' as u8]
}

/// The bytes of `lit_kw_struct`.
pub fn text_kw_struct() -> (r: Vec<u8>)
    ensures
        r@ == lit_kw_struct(),
{
    let mut r: Vec<u8> = Vec::new();
    r.push('s' as u8);
    r.push('t' as u8);
    r.push('r' as u8);
    r.push('u' as u8);
    r.push('c' as u8);
    r.push('t' as u8);
    proof {
        assert(r@ =~= lit_kw_struct());
    }
    r
}

pub open spec fn lit_kw_type() -> Seq<u8> {
    seq!['t' as u8, 'y' as u8, 'p' as u8, 'e' as u8]
}

/// The bytes of `lit_kw_type`.
pub fn text_kw_type() -> (r: Vec<u8>)
    ensures
        r@ == lit_kw_type(),
{
    let mut r: Vec<u8> = Vec::new();
    r.push('t' as u8);
    r.push('y' as u8);
    r.push('p' as u8);
    r.push('e' as u8);
    proof {
        assert(r@ =~= lit_kw_type());
    }
    r
}

pub open spec fn lit_kw_use() -> Seq<u8> {
    seq!['u' as u8, 's' as u8, 'e' as u8]
}

/// The bytes of `lit_kw_use`.
pub fn text_kw_use() -> (r: Vec<u8>)
    ensures
        r@ == lit_kw_use(),
{
    let mut r: Vec<u8> = Vec::new();
    r.push('u' as u8);
    r.push('s' as u8);
    r.push('e' as u8);
    proof {
        assert(r@ =~= lit_kw_use());
    }
    r
}

pub open spec fn lit_derive_header() -> Seq<u8> {
    seq!['#' as u8, '[' as u8, 'd' as u8, 'e' as u8, 'r' as u8, 'i' as u8, 'v' as u8, 'e' as u8, '(' as u8, 'D' as u8, 'e' as u8, 'b' as u8, 'u' as u8, 'g' as u8, ',' as u8, ' ' as u8, 's' as u8, 'e' as u8, 'r' as u8, 'd' as u8, 'e' as u8, ':' as u8, ':' as u8, 'D' as u8, 'e' as u8, 's' as u8, 'e' as u8, 'r' as u8, 'i' as u8, 'a' as u8, 'l' as u8, 'i' as u8, 'z' as u8, 'e' as u8, ',' as u8, ' ' as u8, 's' as u8, 'e' as u8, 'r' as u8, 'd' as u8, 'e' as u8, ':' as u8, ':' as u8, 'S' as u8, 'e' as u8, 'r' as u8, 'i' as u8, 'a' as u8, 'l' as u8, 'i' as u8, 'z' as u8, 'e' as u8, ')' as u8, ']' as u8, '\n' as u8]
}

/// The bytes of `lit_derive_header`.
pub fn text_derive_header() -> (r: Vec<u8>)
    ensures
        r@ == lit_derive_header(),
{
    let mut r: Vec<u8> = Vec::new();
    r.push('#' as u8);
    r.push('[' as u8);
    r.push('d' as u8);
    r.push('e' as u8);
    r.push('r' as u8);
    r.push('i' as u8);
    r.push('v' as u8);
    r.push('e' as u8);
    r.push('(' as u8);
    r.push('D' as u8);
    r.push('e' as u8);
    r.push('b' as u8);
    r.push('u' as u8);
    r.push('g' as u8);
    r.push(',' as u8);
    r.push(' ' as u8);
    r.push('s' as u8);
    r.push('e' as u8);
    r.push('r' as u8);
    r.push('d' as u8);
    r.push('e' as u8);
    r.push(':' as u8);
    r.push(':' as u8);
    r.push('D' as u8);
    r.push('e' as u8);
    r.push('s' as u8);
    r.push('e' as u8);
    r.push('r' as u8);
    r.push('i' as u8);
    r.push('a' as u8);
    r.push('l' as u8);
    r.push('i' as u8);
    r.push('z' as u8);
    r.push('e' as u8);
    r.push(',' as u8);
    r.push(' ' as u8);
    r.push('s' as u8);
    r.push('e' as u8);
    r.push('r' as u8);
    r.push('d' as u8);
    r.push('e' as u8);
    r.push(':' as u8);
    r.push(':' as u8);
    r.push('S' as u8);
    r.push('e' as u8);
    r.push('r' as u8);
    r.push('i' as u8);
    r.push('a' as u8);
    r.push('l' as u8);
    r.push('i' as u8);
    r.push('z' as u8);
    r.push('e' as u8);
    r.push(')' as u8);
    r.push(']' as u8);
    r.push('\n' as u8);
    proof {
        assert(r@ =~= lit_derive_header());
    }
    r
}

pub open spec fn lit_pub_struct() -> Seq<u8> {
    seq!['p' as u8, 'u' as u8, 'b' as u8, ' ' as u8, 's' as u8, 't' as u8, 'r' as u8, 'u' as u8, 'c' as u8, 't' as u8, ' ' as u8]
}

/// The bytes of `lit_pub_struct`.
pub fn text_pub_struct() -> (r: Vec<u8>)
    ensures
        r@ == lit_pub_struct(),
{
    let mut r: Vec<u8> = Vec::new();
    r.push('p' as u8);
    r.push('u' as u8);
    r.push('b' as u8);
    r.push(' ' as u8);
    r.push('s' as u8);
    r.push('t' as u8);
    r.push('r' as u8);
    r.push('u' as u8);
    r.push('c' as u8);
    r.push('t' as u8);
    r.push(' ' as u8);
    proof {
        assert(r@ =~= lit_pub_struct());
    }
    r
}

pub open spec fn lit_pub_enum() -> Seq<u8> {
    seq!['p' as u8, 'u' as u8, 'b' as u8, ' ' as u8, 'e' as u8, 'n' as u8, 'u' as u8, 'm' as u8, ' ' as u8]
}

/// The bytes of `lit_pub_enum`.
pub fn text_pub_enum() -> (r: Vec<u8>)
    ensures
        r@ == lit_pub_enum(),
{
    let mut r: Vec<u8> = Vec::new();
    r.push('p' as u8);
    r.push('u' as u8);
    r.push('b' as u8);
    r.push(' ' as u8);
    r.push('e' as u8);
    r.push('n' as u8);
    r.push('u' as u8);
    r.push('m' as u8);
    r.push(' ' as u8);
    proof {
        assert(r@ =~= lit_pub_enum());
    }
    r
}

pub open spec fn lit_pub_type() -> Seq<u8> {
    seq!['p' as u8, 'u' as u8, 'b' as u8, ' ' as u8, 't' as u8, 'y' as u8, 'p' as u8, 'e' as u8, ' ' as u8]
}

/// The bytes of `lit_pub_type`.
pub fn text_pub_type() -> (r: Vec<u8>)
    ensures
        r@ == lit_pub_type(),
{
    let mut r: Vec<u8> = Vec::new();
    r.push('p' as u8);
    r.push('u' as u8);
    r.push('b' as u8);
    r.push(' ' as u8);
    r.push('t' as u8);
    r.push('y' as u8);
    r.push('p' as u8);
    r.push('e' as u8);
    r.push(' ' as u8);
    proof {
        assert(r@ =~= lit_pub_type());
    }
    r
}

pub open spec fn lit_pub_mod() -> Seq<u8> {
    seq!['p' as u8, 'u' as u8, 'b' as u8, ' ' as u8, 'm' as u8, 'o' as u8, 'd' as u8, ' ' as u8]
}

/// The bytes of `lit_pub_mod`.
pub fn text_pub_mod() -> (r: Vec<u8>)
    ensures
        r@ == lit_pub_mod(),
{
    let mut r: Vec<u8> = Vec::new();
    r.push('p' as u8);
    r.push('u' as u8);
    r.push('b' as u8);
    r.push(' ' as u8);
    r.push('m' as u8);
    r.push('o' as u8);
    r.push('d' as u8);
    r.push(' ' as u8);
    proof {
        assert(r@ =~= lit_pub_mod());
    }
    r
}

pub open spec fn lit_open_brace() -> Seq<u8> {
    seq![' ' as u8, '{' as u8, '\n' as u8]
}

/// The bytes of `lit_open_brace`.
pub fn text_open_brace() -> (r: Vec<u8>)
    ensures
        r@ == lit_open_brace(),
{
    let mut r: Vec<u8> = Vec::new();
    r.push(' ' as u8);
    r.push('{' as u8);
    r.push('\n' as u8);
    proof {
        assert(r@ =~= lit_open_brace());
    }
    r
}

pub open spec fn lit_close_brace() -> Seq<u8> {
    seq!['}' as u8, '\n' as u8]
}

/// The bytes of `lit_close_brace`.
pub fn text_close_brace() -> (r: Vec<u8>)
    ensures
        r@ == lit_close_brace(),
{
    let mut r: Vec<u8> = Vec::new();
    r.push('}' as u8);
    r.push('\n' as u8);
    proof {
        assert(r@ =~= lit_close_brace());
    }
    r
}

pub open spec fn lit_field_indent() -> Seq<u8> {
    seq![' ' as u8, ' ' as u8, ' ' as u8, ' ' as u8, 'p' as u8, 'u' as u8, 'b' as u8, ' ' as u8]
}

/// The bytes of `lit_field_indent`.
pub fn text_field_indent() -> (r: Vec<u8>)
    ensures
        r@ == lit_field_indent(),
{
    let mut r: Vec<u8> = Vec::new();
    r.push(' ' as u8);
    r.push(' ' as u8);
    r.push(' ' as u8);
    r.push(' ' as u8);
    r.push('p' as u8);
    r.push('u' as u8);
    r.push('b' as u8);
    r.push(' ' as u8);
    proof {
        assert(r@ =~= lit_field_indent());
    }
    r
}

pub open spec fn lit_colon_sep() -> Seq<u8> {
    seq![':' as u8, ' ' as u8]
}

/// The bytes of `lit_colon_sep`.
pub fn text_colon_sep() -> (r: Vec<u8>)
    ensures
        r@ == lit_colon_sep(),
{
    let mut r: Vec<u8> = Vec::new();
    r.push(':' as u8);
    r.push(' ' as u8);
    proof {
        assert(r@ =~= lit_colon_sep());
    }
    r
}

pub open spec fn lit_comma_nl() -> Seq<u8> {
    seq![',' as u8, '\n' as u8]
}

/// The bytes of `lit_comma_nl`.
pub fn text_comma_nl() -> (r: Vec<u8>)
    ensures
        r@ == lit_comma_nl(),
{
    let mut r: Vec<u8> = Vec::new();
    r.push(',' as u8);
    r.push('\n' as u8);
    proof {
        assert(r@ =~= lit_comma_nl());
    }
    r
}

pub open spec fn lit_serde_rename_open() -> Seq<u8> {
    seq![' ' as u8, ' ' as u8, ' ' as u8, ' ' as u8, '#' as u8, '[' as u8, 's' as u8, 'e' as u8, 'r' as u8, 'd' as u8, 'e' as u8, '(' as u8, 'r' as u8, 'e' as u8, 'n' as u8, 'a' as u8, 'm' as u8, 'e' as u8, ' ' as u8, '=' as u8, ' ' as u8, '"' as u8]
}

/// The bytes of `lit_serde_rename_open`.
pub fn text_serde_rename_open() -> (r: Vec<u8>)
    ensures
        r@ == lit_serde_rename_open(),
{
    let mut r: Vec<u8> = Vec::new();
    r.push(' ' as u8);
    r.push(' ' as u8);
    r.push(' ' as u8);
    r.push(' ' as u8);
    r.push('#' as u8);
    r.push('[' as u8);
    r.push('s' as u8);
    r.push('e' as u8);
    r.push('r' as u8);
    r.push('d' as u8);
    r.push('e' as u8);
    r.push('(' as u8);
    r.push('r' as u8);
    r.push('e' as u8);
    r.push('n' as u8);
    r.push('a' as u8);
    r.push('m' as u8);
    r.push('e' as u8);
    r.push(' ' as u8);
    r.push('=' as u8);
    r.push(' ' as u8);
    r.push('"' as u8);
    proof {
        assert(r@ =~= lit_serde_rename_open());
    }
    r
}

pub open spec fn lit_serde_rename_close() -> Seq<u8> {
    seq!['"' as u8, ')' as u8, ']' as u8, '\n' as u8]
}

/// The bytes of `lit_serde_rename_close`.
pub fn text_serde_rename_close() -> (r: Vec<u8>)
    ensures
        r@ == lit_serde_rename_close(),
{
    let mut r: Vec<u8> = Vec::new();
    r.push('"' as u8);
    r.push(')' as u8);
    r.push(']' as u8);
    r.push('\n' as u8);
    proof {
        assert(r@ =~= lit_serde_rename_close());
    }
    r
}

pub open spec fn lit_eq_sep() -> Seq<u8> {
    seq![' ' as u8, '=' as u8, ' ' as u8]
}

/// The bytes of `lit_eq_sep`.
pub fn text_eq_sep() -> (r: Vec<u8>)
    ensures
        r@ == lit_eq_sep(),
{
    let mut r: Vec<u8> = Vec::new();
    r.push(' ' as u8);
    r.push('=' as u8);
    r.push(' ' as u8);
    proof {
        assert(r@ =~= lit_eq_sep());
    }
    r
}

pub open spec fn lit_semi_nl() -> Seq<u8> {
    seq![';' as u8, '\n' as u8]
}

/// The bytes of `lit_semi_nl`.
pub fn text_semi_nl() -> (r: Vec<u8>)
    ensures
        r@ == lit_semi_nl(),
{
    let mut r: Vec<u8> = Vec::new();
    r.push(';' as u8);
    r.push('\n' as u8);
    proof {
        assert(r@ =~= lit_semi_nl());
    }
    r
}

pub open spec fn lit_vec_open() -> Seq<u8> {
    seq!['V' as u8, 'e' as u8, 'c' as u8, '<' as u8]
}

/// The bytes of `lit_vec_open`.
pub fn text_vec_open() -> (r: Vec<u8>)
    ensures
        r@ == lit_vec_open(),
{
    let mut r: Vec<u8> = Vec::new();
    r.push('V' as u8);
    r.push('e' as u8);
    r.push('c' as u8);
    r.push('<' as u8);
    proof {
        assert(r@ =~= lit_vec_open());
    }
    r
}

pub open spec fn lit_angle_close() -> Seq<u8> {
    seq!['>' as u8]
}

/// The bytes of `lit_angle_close`.
pub fn text_angle_close() -> (r: Vec<u8>)
    ensures
        r@ == lit_angle_close(),
{
    let mut r: Vec<u8> = Vec::new();
    r.push('>' as u8);
    proof {
        assert(r@ =~= lit_angle_close());
    }
    r
}

pub open spec fn lit_map_open() -> Seq<u8> {
    seq!['s' as u8, 't' as u8, 'd' as u8, ':' as u8, ':' as u8, 'c' as u8, 'o' as u8, 'l' as u8, 'l' as u8, 'e' as u8, 'c' as u8, 't' as u8, 'i' as u8, 'o' as u8, 'n' as u8, 's' as u8, ':' as u8, ':' as u8, 'H' as u8, 'a' as u8, 's' as u8, 'h' as u8, 'M' as u8, 'a' as u8, 'p' as u8, '<' as u8, 'S' as u8, 't' as u8, 'r' as u8, 'i' as u8, 'n' as u8, 'g' as u8, ',' as u8, ' ' as u8]
}

/// The bytes of `lit_map_open`.
pub fn text_map_open() -> (r: Vec<u8>)
    ensures
        r@ == lit_map_open(),
{
    let mut r: Vec<u8> = Vec::new();
    r.push('s' as u8);
    r.push('t' as u8);
    r.push('d' as u8);
    r.push(':' as u8);
    r.push(':' as u8);
    r.push('c' as u8);
    r.push('o' as u8);
    r.push('l' as u8);
    r.push('l' as u8);
    r.push('e' as u8);
    r.push('c' as u8);
    r.push('t' as u8);
    r.push('i' as u8);
    r.push('o' as u8);
    r.push('n' as u8);
    r.push('s' as u8);
    r.push(':' as u8);
    r.push(':' as u8);
    r.push('H' as u8);
    r.push('a' as u8);
    r.push('s' as u8);
    r.push('h' as u8);
    r.push('M' as u8);
    r.push('a' as u8);
    r.push('p' as u8);
    r.push('<' as u8);
    r.push('S' as u8);
    r.push('t' as u8);
    r.push('r' as u8);
    r.push('i' as u8);
    r.push('n' as u8);
    r.push('g' as u8);
    r.push(',' as u8);
    r.push(' ' as u8);
    proof {
        assert(r@ =~= lit_map_open());
    }
    r
}

pub open spec fn lit_decimal_path() -> Seq<u8> {
    seq!['r' as u8, 'u' as u8, 's' as u8, 't' as u8, '_' as u8, 'd' as u8, 'e' as u8, 'c' as u8, 'i' as u8, 'm' as u8, 'a' as u8, 'l' as u8, ':' as u8, ':' as u8, 'D' as u8, 'e' as u8, 'c' as u8, 'i' as u8, 'm' as u8, 'a' as u8, 'l' as u8]
}

/// The bytes of `lit_decimal_path`.
pub fn text_decimal_path() -> (r: Vec<u8>)
    ensures
        r@ == lit_decimal_path(),
{
    let mut r: Vec<u8> = Vec::new();
    r.push('r' as u8);
    r.push('u' as u8);
    r.push('s' as u8);
    r.push('t' as u8);
    r.push('_' as u8);
    r.push('d' as u8);
    r.push('e' as u8);
    r.push('c' as u8);
    r.push('i' as u8);
    r.push('m' as u8);
    r.push('a' as u8);
    r.push('l' as u8);
    r.push(':' as u8);
    r.push(':' as u8);
    r.push('D' as u8);
    r.push('e' as u8);
    r.push('c' as u8);
    r.push('i' as u8);
    r.push('m' as u8);
    r.push('a' as u8);
    r.push('l' as u8);
    proof {
        assert(r@ =~= lit_decimal_path());
    }
    r
}

pub open spec fn lit_variant_indent() -> Seq<u8> {
    seq![' ' as u8, ' ' as u8, ' ' as u8, ' ' as u8]
}

/// The bytes of `lit_variant_indent`.
pub fn text_variant_indent() -> (r: Vec<u8>)
    ensures
        r@ == lit_variant_indent(),
{
    let mut r: Vec<u8> = Vec::new();
    r.push(' ' as u8);
    r.push(' ' as u8);
    r.push(' ' as u8);
    r.push(' ' as u8);
    proof {
        assert(r@ =~= lit_variant_indent());
    }
    r
}

pub open spec fn lit_paren_open() -> Seq<u8> {
    seq!['(' as u8]
}

/// The bytes of `lit_paren_open`.
pub fn text_paren_open() -> (r: Vec<u8>)
    ensures
        r@ == lit_paren_open(),
{
    let mut r: Vec<u8> = Vec::new();
    r.push('(' as u8);
    proof {
        assert(r@ =~= lit_paren_open());
    }
    r
}

pub open spec fn lit_paren_close() -> Seq<u8> {
    seq![')' as u8]
}

/// The bytes of `lit_paren_close`.
pub fn text_paren_close() -> (r: Vec<u8>)
    ensures
        r@ == lit_paren_close(),
{
    let mut r: Vec<u8> = Vec::new();
    r.push(')' as u8);
    proof {
        assert(r@ =~= lit_paren_close());
    }
    r
}

pub open spec fn lit_close_variant() -> Seq<u8> {
    seq![' ' as u8, ' ' as u8, ' ' as u8, ' ' as u8, '}' as u8, ',' as u8, '\n' as u8]
}

/// The bytes of `lit_close_variant`.
pub fn text_close_variant() -> (r: Vec<u8>)
    ensures
        r@ == lit_close_variant(),
{
    let mut r: Vec<u8> = Vec::new();
    r.push(' ' as u8);
    r.push(' ' as u8);
    r.push(' ' as u8);
    r.push(' ' as u8);
    r.push('}' as u8);
    r.push(',' as u8);
    r.push('\n' as u8);
    proof {
        assert(r@ =~= lit_close_variant());
    }
    r
}

/// Membership in the fixed reserved-word table: identifiers that collide
/// with keywords of the target language. Exact, case-sensitive match.
pub open spec fn is_reserved(s: Seq<u8>) -> bool {
    ||| s == lit_kw_enum()
    ||| s == lit_kw_fn()
    ||| s == lit_kw_impl()
    ||| s == lit_kw_let()
    ||| s == lit_kw_match()
    ||| s == lit_kw_struct()
    ||| s == lit_kw_type()
    ||| s == lit_kw_use()
}

/// Tests a candidate identifier against the reserved-word table.
pub fn is_reserved_word(s: &Vec<u8>) -> (r: bool)
    ensures
        r == is_reserved(s@),
{
    let e = text_kw_enum();
    let f = text_kw_fn();
    let im = text_kw_impl();
    let l = text_kw_let();
    let m = text_kw_match();
    let st = text_kw_struct();
    let t = text_kw_type();
    let u = text_kw_use();
    bytes_eq(s, &e) || bytes_eq(s, &f) || bytes_eq(s, &im) || bytes_eq(s, &l) || bytes_eq(s, &m)
        || bytes_eq(s, &st) || bytes_eq(s, &t) || bytes_eq(s, &u)
}

/// The byte sequences of a list of byte strings.
pub open spec fn texts_model(s: Seq<Vec<u8>>) -> Seq<Seq<u8>> {
    s.map_values(|v: Vec<u8>| v@)
}

/// Byte-for-byte equality of two byte strings.
pub fn bytes_eq(a: &Vec<u8>, b: &Vec<u8>) -> (r: bool)
    ensures
        r == (a@ == b@),
{
    if a.len() != b.len() {
        return false;
    }
    let mut i: usize = 0;
    while i < a.len()
        invariant
            0 <= i <= a@.len(),
            a@.len() == b@.len(),
            forall|j: int| 0 <= j < i ==> a@[j] == b@[j],
        decreases a@.len() - i,
    {
        if a[i] != b[i] {
            return false;
        }
        i = i + 1;
    }
    proof {
        assert(a@ =~= b@);
    }
    true
}

/// `p` is a prefix of `a`.
pub open spec fn is_prefix(p: Seq<u8>, a: Seq<u8>) -> bool {
    p.len() <= a.len() && a.take(p.len() as int) == p
}

/// `p` is a suffix of `a`.
pub open spec fn is_suffix(p: Seq<u8>, a: Seq<u8>) -> bool {
    p.len() <= a.len() && a.skip(a.len() - p.len()) == p
}

/// Tests whether `a` starts with `p`.
pub fn starts_with(a: &Vec<u8>, p: &Vec<u8>) -> (r: bool)
    ensures
        r == is_prefix(p@, a@),
{
    if a.len() < p.len() {
        assert(!is_prefix(p@, a@));
        return false;
    }
    let mut i: usize = 0;
    while i < p.len()
        invariant
            0 <= i <= p@.len() <= a@.len(),
            forall|j: int| 0 <= j < i ==> a@[j] == p@[j],
        decreases p@.len() - i,
    {
        if a[i] != p[i] {
            assert(a@.take(p@.len() as int)[i as int] != p@[i as int]);
            return false;
        }
        i = i + 1;
    }
    proof {
        assert(a@.take(p@.len() as int) =~= p@);
    }
    true
}

/// Tests whether `a` ends with `p`.
pub fn ends_with(a: &Vec<u8>, p: &Vec<u8>) -> (r: bool)
    ensures
        r == is_suffix(p@, a@),
{
    if a.len() < p.len() {
        assert(!is_suffix(p@, a@));
        return false;
    }
    let alen: usize = a.len();
    let off: usize = alen - p.len();
    let mut i: usize = 0;
    while i < p.len()
        invariant
            0 <= i <= p@.len() <= a@.len(),
            alen == a@.len(),
            off == a@.len() - p@.len(),
            forall|j: int| 0 <= j < i ==> a@[off + j] == p@[j],
        decreases p@.len() - i,
    {
        let j: usize = off + i;
        if a[j] != p[i] {
            assert(a@.skip(a@.len() - p@.len())[i as int] != p@[i as int]);
            return false;
        }
        i = i + 1;
    }
    proof {
        assert(a@.skip(a@.len() - p@.len()) =~= p@);
    }
    true
}

/// A fresh copy of the byte range `[from, to)` of `v`.
pub fn sub_vec(v: &Vec<u8>, from: usize, to: usize) -> (r: Vec<u8>)
    requires
        from <= to <= v@.len(),
    ensures
        r@ == v@.subrange(from as int, to as int),
{
    let mut r: Vec<u8> = Vec::new();
    let mut i: usize = from;
    while i < to
        invariant
            from <= i <= to <= v@.len(),
            r@.len() == i - from,
            forall|j: int| 0 <= j < r@.len() ==> r@[j] == v@[from + j],
        decreases to - i,
    {
        r.push(v[i]);
        i = i + 1;
    }
    proof {
        assert(r@ =~= v@.subrange(from as int, to as int));
    }
    r
}

/// A fresh copy of a whole byte string.
pub fn copy_bytes(v: &Vec<u8>) -> (r: Vec<u8>)
    ensures
        r@ == v@,
{
    let r = sub_vec(v, 0, v.len());
    proof {
        assert(v@.subrange(0, v@.len() as int) =~= v@);
    }
    r
}

/// Appends a copy of `src` to `dst`.
pub fn append_bytes(dst: &mut Vec<u8>, src: &Vec<u8>)
    ensures
        final(dst)@ == old(dst)@ + src@,
{
    let mut i: usize = 0;
    while i < src.len()
        invariant
            0 <= i <= src@.len(),
            dst@ == old(dst)@ + src@.take(i as int),
        decreases src@.len() - i,
    {
        dst.push(src[i]);
        proof {
            assert(old(dst)@ + src@.take(i as int) + seq![src@[i as int]] =~= old(dst)@
                + src@.take(i as int + 1));
        }
        i = i + 1;
    }
    proof {
        assert(src@.take(src@.len() as int) =~= src@);
    }
}

} // verus!
