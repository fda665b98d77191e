//! Parsing depends only on the tokens it reads: two token sequences that agree
//! from some position on, one displaced by `d` against the other, parse alike
//! there, with positions displaced by `d`.

use crate::ast::IdentV;
use crate::error::SqlErrorV;
use crate::grammar::{
    lemma_object_name_range, spec_if_exists, spec_parse_canonical_name, spec_parse_ddl_options,
    spec_parse_object_name, spec_parse_option, spec_parse_option_list, spec_parse_options,
    spec_parse_table_names, step, tok_at,
};
use crate::token::TokenV;
use vstd::prelude::*;

verus! {

/// From position `p` of `b` on, `a` holds the same tokens `d` positions later,
/// and nothing more.
pub open spec fn aligned(a: Seq<TokenV>, b: Seq<TokenV>, p: int, d: int) -> bool {
    &&& 0 <= p
    &&& 0 <= d
    &&& a.len() == b.len() + d
    &&& forall|k: int| p <= k < b.len() ==> #[trigger] b[k] == a[k + d]
}

/// A parse result with its positions moved by `d`.
pub open spec fn shifted<T>(r: Result<(T, int), (SqlErrorV, int)>, d: int) -> Result<(T, int), (SqlErrorV, int)> {
    match r {
        Ok((v, j)) => Ok((v, j + d)),
        Err((e, j)) => Err((e, j + d)),
    }
}

/// Aligned sequences show the same token at corresponding positions.
pub proof fn lemma_aligned_tok(a: Seq<TokenV>, b: Seq<TokenV>, p: int, d: int, k: int)
    requires
        aligned(a, b, p, d),
        p <= k,
    ensures
        tok_at(a, k + d) == tok_at(b, k),
        step(a, k + d) == step(b, k) + d,
{
    if k < b.len() {
        assert(b[k] == a[k + d]);
    }
}

pub proof fn lemma_shift_if_exists(a: Seq<TokenV>, b: Seq<TokenV>, p: int, d: int, i: int)
    requires
        aligned(a, b, p, d),
        p <= i,
    ensures
        spec_if_exists(a, i + d) == (spec_if_exists(b, i).0, spec_if_exists(b, i).1 + d),
{
    lemma_aligned_tok(a, b, p, d, i);
    lemma_aligned_tok(a, b, p, d, i + 1);
}

pub proof fn lemma_shift_object_name(a: Seq<TokenV>, b: Seq<TokenV>, p: int, d: int, i: int)
    requires
        aligned(a, b, p, d),
        p <= i,
    ensures
        spec_parse_object_name(a, i + d) == (match spec_parse_object_name(b, i) {
            Ok((n, j)) => Ok::<(Seq<IdentV>, int), int>((n, j + d)),
            Err(j) => Err::<(Seq<IdentV>, int), int>(j + d),
        }),
    decreases b.len() - i,
{
    lemma_aligned_tok(a, b, p, d, i);
    lemma_aligned_tok(a, b, p, d, i + 1);
    if i < b.len() && i + 1 < b.len() {
        lemma_shift_object_name(a, b, p, d, i + 2);
    }
}

pub proof fn lemma_shift_option(a: Seq<TokenV>, b: Seq<TokenV>, p: int, d: int, i: int)
    requires
        aligned(a, b, p, d),
        p <= i,
    ensures
        spec_parse_option(a, i + d) == (match spec_parse_option(b, i) {
            Ok(x) => Ok::<(IdentV, TokenV), (SqlErrorV, int)>(x),
            Err((e, j)) => Err::<(IdentV, TokenV), (SqlErrorV, int)>((e, j + d)),
        }),
{
    lemma_aligned_tok(a, b, p, d, i);
    lemma_aligned_tok(a, b, p, d, i + 1);
    lemma_aligned_tok(a, b, p, d, i + 2);
}

pub proof fn lemma_shift_option_list(a: Seq<TokenV>, b: Seq<TokenV>, p: int, d: int, i: int)
    requires
        aligned(a, b, p, d),
        p <= i,
    ensures
        spec_parse_option_list(a, i + d) == shifted(spec_parse_option_list(b, i), d),
    decreases b.len() - i,
{
    lemma_shift_option(a, b, p, d, i);
    lemma_aligned_tok(a, b, p, d, i + 3);
    if spec_parse_option(b, i) is Ok && tok_at(b, i + 3).kind is Comma {
        lemma_shift_option_list(a, b, p, d, i + 4);
    }
}

pub proof fn lemma_shift_options(a: Seq<TokenV>, b: Seq<TokenV>, p: int, d: int, i: int)
    requires
        aligned(a, b, p, d),
        p <= i,
    ensures
        spec_parse_options(a, i + d) == shifted(spec_parse_options(b, i), d),
{
    lemma_aligned_tok(a, b, p, d, i);
    lemma_aligned_tok(a, b, p, d, i + 1);
    lemma_aligned_tok(a, b, p, d, i + 2);
    lemma_shift_option_list(a, b, p, d, i + 2);
    if let Ok((opts, j)) = spec_parse_option_list(b, i + 2) {
        crate::grammar::lemma_option_list_range(b, i + 2);
        lemma_aligned_tok(a, b, p, d, j);
    }
}

pub proof fn lemma_shift_ddl_options(a: Seq<TokenV>, b: Seq<TokenV>, p: int, d: int, i: int)
    requires
        aligned(a, b, p, d),
        p <= i,
    ensures
        spec_parse_ddl_options(a, i + d) == shifted(spec_parse_ddl_options(b, i), d),
{
    lemma_shift_options(a, b, p, d, i);
}

pub proof fn lemma_shift_canonical_name(a: Seq<TokenV>, b: Seq<TokenV>, p: int, d: int, i: int, what: Seq<char>)
    requires
        aligned(a, b, p, d),
        p <= i,
    ensures
        spec_parse_canonical_name(a, i + d, what) == shifted(spec_parse_canonical_name(b, i, what), d),
{
    lemma_shift_object_name(a, b, p, d, i);
    lemma_object_name_range(b, i);
    if let Err(j) = spec_parse_object_name(b, i) {
        lemma_object_name_err_range(b, i);
        lemma_aligned_tok(a, b, p, d, j);
    }
}

/// After a failed name the parser stands at or after where the name began.
pub proof fn lemma_object_name_err_range(s: Seq<TokenV>, i: int)
    ensures
        spec_parse_object_name(s, i) matches Err(j) ==> i <= j,
    decreases s.len() - i,
{
    if crate::grammar::ident_of(tok_at(s, i)) is Some && tok_at(s, i + 1).kind is Period {
        lemma_object_name_err_range(s, i + 2);
    }
}

pub proof fn lemma_shift_table_names(a: Seq<TokenV>, b: Seq<TokenV>, p: int, d: int, i: int)
    requires
        aligned(a, b, p, d),
        p <= i,
    ensures
        spec_parse_table_names(a, i + d) == shifted(spec_parse_table_names(b, i), d),
    decreases b.len() - i,
{
    lemma_shift_canonical_name(a, b, p, d, i, "a table name"@);
    lemma_object_name_range(b, i);
    if let Ok((name, j)) = spec_parse_canonical_name(b, i, "a table name"@) {
        lemma_aligned_tok(a, b, p, d, j);
        if tok_at(b, j).kind is Comma {
            lemma_shift_table_names(a, b, p, d, j + 1);
        }
    }
}

} // verus!
