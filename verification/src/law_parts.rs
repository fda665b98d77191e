//! Laws on the parts every `DROP` statement shares: names and DDL options,
//! stated over the tokens they are written with.

use crate::ast::{entries_map, lemma_entries_map_has, IdentV};
use crate::error::SqlErrorV;
use crate::grammar::{
    first_invalid_key, ident_of, is_ddl_option, is_keyword, option_entries, option_value,
    spec_parse_ddl_options, spec_parse_object_name, spec_parse_option_list, spec_parse_options,
    tok_at,
};
use crate::text::spec_lowercase;
use crate::token::TokenV;
use vstd::prelude::*;

verus! {

/// Law: a name is identifiers separated by periods: its `k`-th identifier is
/// the one written at `p + 2k`, a period stands between each two, and no
/// period follows the last.
pub proof fn law_object_name(s: Seq<TokenV>, p: int)
    requires
        0 <= p,
    ensures
        spec_parse_object_name(s, p) matches Ok((raw, j)) ==> {
            &&& raw.len() >= 1
            &&& j == p + 2 * raw.len() - 1
            &&& forall|k: int| 0 <= k < raw.len() ==> ident_of(tok_at(s, p + 2 * k)) == Some(#[trigger] raw[k])
            &&& forall|k: int| 0 <= k < raw.len() - 1 ==> (#[trigger] tok_at(s, p + 2 * k + 1)).kind is Period
            &&& !(tok_at(s, j).kind is Period)
        },
    decreases s.len() - p,
{
    if let Ok((raw, j)) = spec_parse_object_name(s, p) {
        if tok_at(s, p + 1).kind is Period {
            law_object_name(s, p + 2);
            crate::grammar::lemma_object_name_range(s, p + 2);
            let rest = spec_parse_object_name(s, p + 2)->Ok_0.0;
            assert forall|k: int| 0 <= k < raw.len() implies ident_of(tok_at(s, p + 2 * k)) == Some(#[trigger] raw[k]) by {
                if k > 0 {
                    assert(raw[k] == rest[k - 1]);
                    assert(p + 2 + 2 * (k - 1) == p + 2 * k);
                }
            }
            assert forall|k: int| 0 <= k < raw.len() - 1 implies (#[trigger] tok_at(s, p + 2 * k + 1)).kind is Period by {
                if k > 0 {
                    assert(p + 2 + 2 * (k - 1) + 1 == p + 2 * k + 1);
                    assert(tok_at(s, p + 2 + 2 * (k - 1) + 1).kind is Period);
                }
            }
        }
    }
}

/// The option list at `q`: option `t` is written as `key = value` at
/// `q + 4t`, a comma follows each but the last.
proof fn lemma_option_list_tokens(s: Seq<TokenV>, q: int)
    requires
        0 <= q,
    ensures
        spec_parse_option_list(s, q) matches Ok((opts, j)) ==> {
            &&& opts.len() >= 1
            &&& j == q + 4 * opts.len() - 1
            &&& forall|t: int| 0 <= t < opts.len() ==> {
                &&& ident_of(tok_at(s, q + 4 * t)) == Some((#[trigger] opts[t]).0)
                &&& tok_at(s, q + 4 * t + 1).kind is Eq
                &&& opts[t].1 == tok_at(s, q + 4 * t + 2)
                &&& (t < opts.len() - 1 ==> tok_at(s, q + 4 * t + 3).kind is Comma)
            }
            &&& !(tok_at(s, j).kind is Comma)
        },
    decreases s.len() - q,
{
    if let Ok((opts, j)) = spec_parse_option_list(s, q) {
        if tok_at(s, q + 3).kind is Comma {
            lemma_option_list_tokens(s, q + 4);
            crate::grammar::lemma_option_list_range(s, q + 4);
            let rest = spec_parse_option_list(s, q + 4)->Ok_0.0;
            assert forall|t: int| 0 <= t < opts.len() implies {
                &&& ident_of(tok_at(s, q + 4 * t)) == Some((#[trigger] opts[t]).0)
                &&& tok_at(s, q + 4 * t + 1).kind is Eq
                &&& opts[t].1 == tok_at(s, q + 4 * t + 2)
                &&& (t < opts.len() - 1 ==> tok_at(s, q + 4 * t + 3).kind is Comma)
            } by {
                if t > 0 {
                    assert(opts[t] == rest[t - 1]);
                    assert(q + 4 + 4 * (t - 1) == q + 4 * t);
                }
            }
        }
    }
}

/// Law: options are absent unless `WITH` comes next; otherwise they are
/// written `WITH ( key = value, ... )`, option `t` at `i + 2 + 4t`, and the
/// clause ends after its `)`.
pub proof fn law_options(s: Seq<TokenV>, i: int)
    requires
        0 <= i,
    ensures
        spec_parse_options(s, i) matches Ok((opts, j)) ==> if !is_keyword(tok_at(s, i), "WITH"@) {
            opts.len() == 0 && j == i
        } else {
            &&& tok_at(s, i + 1).kind is LParen
            &&& tok_at(s, j - 1).kind is RParen
            &&& j == (if opts.len() == 0 { i + 3 } else { i + 4 * opts.len() + 2 })
            &&& forall|t: int| 0 <= t < opts.len() ==> {
                &&& ident_of(tok_at(s, i + 2 + 4 * t)) == Some((#[trigger] opts[t]).0)
                &&& tok_at(s, i + 3 + 4 * t).kind is Eq
                &&& opts[t].1 == tok_at(s, i + 4 + 4 * t)
                &&& (t < opts.len() - 1 ==> tok_at(s, i + 5 + 4 * t).kind is Comma)
            }
        },
{
    lemma_option_list_tokens(s, i + 2);
    if let Ok((opts, j)) = spec_parse_options(s, i) {
        if is_keyword(tok_at(s, i), "WITH"@) && !(tok_at(s, i + 2).kind is RParen) {
            assert forall|t: int| 0 <= t < opts.len() implies {
                &&& ident_of(tok_at(s, i + 2 + 4 * t)) == Some((#[trigger] opts[t]).0)
                &&& tok_at(s, i + 3 + 4 * t).kind is Eq
                &&& opts[t].1 == tok_at(s, i + 4 + 4 * t)
                &&& (t < opts.len() - 1 ==> tok_at(s, i + 5 + 4 * t).kind is Comma)
            } by {
                assert(i + 2 + 4 * t + 1 == i + 3 + 4 * t);
                assert(i + 2 + 4 * t + 2 == i + 4 + 4 * t);
                assert(i + 2 + 4 * t + 3 == i + 5 + 4 * t);
            }
        }
    }
}

/// The key an option sets: its name lowercased.
pub open spec fn option_key(opt: (IdentV, TokenV)) -> Seq<char> {
    spec_lowercase(opt.0.value)
}

proof fn lemma_option_entries_shape(opts: Seq<(IdentV, TokenV)>)
    ensures
        option_entries(opts) matches Ok(e) ==> {
            &&& e.len() == opts.len()
            &&& forall|t: int| 0 <= t < opts.len() ==> option_value((#[trigger] opts[t]).1) == Some(e[t].1) && e[t].0 == option_key(opts[t])
        },
        option_entries(opts) is Err ==> exists|t: int| 0 <= t < opts.len() && option_value((#[trigger] opts[t]).1) is None,
    decreases opts.len(),
{
    if opts.len() > 0 {
        let d = opts.drop_last();
        lemma_option_entries_shape(d);
        if let Ok(e) = option_entries(opts) {
            let pe = option_entries(d)->Ok_0;
            assert forall|t: int| 0 <= t < opts.len() implies option_value((#[trigger] opts[t]).1) == Some(e[t].1) && e[t].0 == option_key(opts[t]) by {
                if t < opts.len() - 1 {
                    assert(opts[t] == d[t]);
                    assert(e[t] == pe[t]);
                }
            }
        } else {
            if option_entries(d) is Err {
                let t = choose|t: int| 0 <= t < d.len() && option_value((#[trigger] d[t]).1) is None;
                assert(opts[t] == d[t]);
            } else {
                assert(option_value(opts[opts.len() - 1].1) is None);
            }
        }
    }
}

proof fn lemma_first_invalid_none(e: Seq<(Seq<char>, Seq<char>)>)
    ensures
        first_invalid_key(e) is None <==> forall|t: int| 0 <= t < e.len() ==> is_ddl_option((#[trigger] e[t]).0),
    decreases e.len(),
{
    if e.len() > 0 {
        let d = e.drop_last();
        lemma_first_invalid_none(d);
        if forall|t: int| 0 <= t < e.len() ==> is_ddl_option((#[trigger] e[t]).0) {
            assert forall|t: int| 0 <= t < d.len() implies is_ddl_option((#[trigger] d[t]).0) by {
                assert(d[t] == e[t]);
            }
            assert(is_ddl_option(e[e.len() - 1].0));
        }
        if first_invalid_key(e) is None {
            assert forall|t: int| 0 <= t < e.len() implies is_ddl_option((#[trigger] e[t]).0) by {
                if t < e.len() - 1 {
                    assert(d[t] == e[t]);
                }
            }
        }
    }
}

/// The value the map of a list of entries gives a key is that of the last
/// entry with the key.
proof fn lemma_entries_map_last(e: Seq<(Seq<char>, Seq<char>)>, t: int)
    requires
        0 <= t < e.len(),
        forall|u: int| t < u < e.len() ==> (#[trigger] e[u]).0 != e[t].0,
    ensures
        entries_map(e).contains_key(e[t].0),
        entries_map(e)[e[t].0] == e[t].1,
    decreases e.len(),
{
    if t < e.len() - 1 {
        let d = e.drop_last();
        assert forall|u: int| t < u < d.len() implies (#[trigger] d[u]).0 != d[t].0 by {
            assert(d[u] == e[u]);
        }
        lemma_entries_map_last(d, t);
        assert(e[e.len() - 1].0 != e[t].0);
    }
}

/// Law: the DDL options of a statement map each key written, lowercased, to
/// the value of the last option that sets it, and to nothing else; every
/// option has a literal value and every key is `timeout` or `wait`. An option
/// that is not a literal, or a key that is no DDL option, fails the clause.
pub proof fn law_ddl_options(s: Seq<TokenV>, i: int)
    requires
        0 <= i,
    ensures
        spec_parse_ddl_options(s, i) matches Ok((m, j)) ==> spec_parse_options(s, i) matches Ok((opts, j2)) && j2 == j && {
            &&& forall|t: int| 0 <= t < opts.len() ==> option_value((#[trigger] opts[t]).1) is Some && is_ddl_option(option_key(opts[t]))
            &&& forall|key: Seq<char>| #[trigger] m.contains_key(key) <==> exists|t: int| 0 <= t < opts.len() && option_key(#[trigger] opts[t]) == key
            &&& forall|t: int| 0 <= t < opts.len() && (forall|u: int| t < u < opts.len() ==> option_key(#[trigger] opts[u]) != option_key(opts[t]))
                ==> m[option_key(#[trigger] opts[t])] == option_value(opts[t].1)->Some_0
        },
        spec_parse_options(s, i) matches Ok((opts, j)) && (exists|t: int| 0 <= t < opts.len() && option_value((#[trigger] opts[t]).1) is None)
            ==> spec_parse_ddl_options(s, i) is Err,
        spec_parse_options(s, i) matches Ok((opts, j)) && (exists|t: int| 0 <= t < opts.len() && !is_ddl_option(option_key(#[trigger] opts[t])))
            ==> spec_parse_ddl_options(s, i) is Err,
{
    if let Ok((opts, j)) = spec_parse_options(s, i) {
        lemma_option_entries_shape(opts);
        if let Ok(e) = option_entries(opts) {
            lemma_first_invalid_none(e);
            if let Ok((m, j3)) = spec_parse_ddl_options(s, i) {
                assert(m == entries_map(e));
                assert forall|t: int| 0 <= t < opts.len() implies option_value((#[trigger] opts[t]).1) is Some && is_ddl_option(option_key(opts[t])) by {
                    assert(e[t].0 == option_key(opts[t]));
                }
                assert forall|key: Seq<char>| #[trigger] m.contains_key(key) <==> exists|t: int| 0 <= t < opts.len() && option_key(#[trigger] opts[t]) == key by {
                    lemma_entries_map_has(e, key);
                    if m.contains_key(key) {
                        let t = choose|t: int| 0 <= t < e.len() && (#[trigger] e[t]).0 == key;
                        assert(option_key(opts[t]) == key);
                    }
                    if exists|t: int| 0 <= t < opts.len() && option_key(#[trigger] opts[t]) == key {
                        let t = choose|t: int| 0 <= t < opts.len() && option_key(#[trigger] opts[t]) == key;
                        assert(e[t].0 == key);
                    }
                }
                assert forall|t: int| 0 <= t < opts.len() && (forall|u: int| t < u < opts.len() ==> option_key(#[trigger] opts[u]) != option_key(opts[t]))
                    implies m[option_key(#[trigger] opts[t])] == option_value(opts[t].1)->Some_0 by {
                    assert forall|u: int| t < u < e.len() implies (#[trigger] e[u]).0 != e[t].0 by {
                        assert(e[u].0 == option_key(opts[u]));
                    }
                    lemma_entries_map_last(e, t);
                }
            }
            if exists|t: int| 0 <= t < opts.len() && !is_ddl_option(option_key(#[trigger] opts[t])) {
                let t = choose|t: int| 0 <= t < opts.len() && !is_ddl_option(option_key(#[trigger] opts[t]));
                assert(e[t].0 == option_key(opts[t]));
            }
        }
    }
}

} // verus!
