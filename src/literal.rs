use vstd::prelude::*;

verus! {

/// The text that a Rust string literal token denotes, or `None` where the
/// token is not a string literal.
pub uninterp spec fn literal_value(token: Seq<char>) -> Option<Seq<char>>;

/// Whether the text parses as one Rust expression.
pub uninterp spec fn is_expression(text: Seq<char>) -> bool;

/// Relies on `syn::parse_str::<syn::LitStr>` and `syn::LitStr::value`: the
/// escapes of a string literal token resolved; `None` where syn does not
/// read the whole token as a string literal.
#[verifier::external_body]
pub(crate) fn decode_literal(token: &str) -> (r: Option<String>)
    ensures
        match r {
            Some(v) => literal_value(token@) == Some(v@),
            None => literal_value(token@) is None,
        },
{
    syn::parse_str::<syn::LitStr>(token).ok().map(|lit| lit.value())
}

/// Relies on `syn::parse_str::<syn::Expr>`: whether syn reads the whole text
/// as one expression.
#[verifier::external_body]
pub(crate) fn parses_as_expression(text: &str) -> (r: bool)
    ensures
        r == is_expression(text@),
{
    syn::parse_str::<syn::Expr>(text).is_ok()
}

} // verus!
