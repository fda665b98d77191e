//! Properties that every parse result has.

use crate::ast::{entries_map, StatementV};
use crate::error::SqlErrorV;
use crate::grammar::{
    first_invalid_key, is_ddl_option, lemma_object_name_range, lemma_statement_range,
    option_entries, spec_parse_canonical_name, spec_parse_ddl_options, spec_parse_object_name,
    spec_parse_options, spec_parse_sql, spec_parse_statement, spec_parse_statements,
    spec_parse_table_names, tok_at,
};
use crate::grammar::{
    canon_name, is_keyword, spec_if_exists, spec_parse_drop, spec_parse_drop_database,
    spec_parse_drop_flow, spec_parse_drop_table, spec_parse_drop_trigger, spec_parse_drop_view,
    step,
};
use crate::ast::{DropTriggerV, IdentV};
use crate::text::spec_lowercase;
use crate::shift::{
    aligned, lemma_aligned_tok, lemma_shift_canonical_name, lemma_shift_ddl_options,
    lemma_shift_if_exists, shifted,
};
use crate::token::TokenV;
use vstd::prelude::*;

verus! {

/// The DDL options of a statement.
pub open spec fn statement_options(st: StatementV) -> Map<Seq<char>, Seq<char>> {
    match st {
        StatementV::DropTable { options, .. } => options,
        StatementV::DropView { options, .. } => options,
        StatementV::DropFlow { options, .. } => options,
        StatementV::DropDatabase { options, .. } => options,
    }
}

/// Every key of the map is a DDL option.
pub open spec fn only_ddl_options(m: Map<Seq<char>, Seq<char>>) -> bool {
    forall|k: Seq<char>| #[trigger] m.contains_key(k) ==> is_ddl_option(k)
}

/// Every name the statement drops has at least one identifier, and a
/// `DROP TABLE` names at least one table.
pub open spec fn names_present(st: StatementV) -> bool {
    match st {
        StatementV::DropTable { names, .. } => names.len() >= 1 && forall|i: int| 0 <= i < names.len() ==> (#[trigger] names[i]).len() >= 1,
        StatementV::DropView { name, .. } => name.len() >= 1,
        StatementV::DropFlow { name, .. } => name.len() >= 1,
        StatementV::DropDatabase { name, .. } => name.len() >= 1,
    }
}

proof fn lemma_valid_entries_map(e: Seq<(Seq<char>, Seq<char>)>)
    requires
        first_invalid_key(e) is None,
    ensures
        only_ddl_options(entries_map(e)),
    decreases e.len(),
{
    if e.len() > 0 {
        lemma_valid_entries_map(e.drop_last());
    }
}

proof fn lemma_ddl_options_valid(s: Seq<TokenV>, i: int)
    ensures
        spec_parse_ddl_options(s, i) matches Ok((m, j)) ==> only_ddl_options(m),
{
    if let Ok((opts, j)) = spec_parse_options(s, i) {
        if let Ok(entries) = option_entries(opts) {
            if first_invalid_key(entries) is None {
                lemma_valid_entries_map(entries);
            }
        }
    }
}

proof fn lemma_table_names_present(s: Seq<TokenV>, i: int)
    requires
        0 <= i,
    ensures
        spec_parse_table_names(s, i) matches Ok((names, j)) ==> names.len() >= 1 && forall|k: int|
            0 <= k < names.len() ==> (#[trigger] names[k]).len() >= 1,
    decreases s.len() - i,
{
    lemma_object_name_range(s, i);
    if let Ok((n, j)) = spec_parse_object_name(s, i) {
        if tok_at(s, j).kind is Comma {
            lemma_table_names_present(s, j + 1);
            if let Ok((names, k)) = spec_parse_table_names(s, i) {
                let rest = spec_parse_table_names(s, j + 1)->Ok_0.0;
                assert forall|k: int| 0 <= k < names.len() implies (#[trigger] names[k]).len() >= 1 by {
                    if k > 0 {
                        assert(names[k] == rest[k - 1]);
                    }
                }
            }
        }
    }
}

proof fn lemma_statement_wf(s: Seq<TokenV>, i: int)
    requires
        0 <= i <= s.len(),
    ensures
        spec_parse_statement(s, i) matches Ok((st, j)) ==> only_ddl_options(statement_options(st)) && names_present(st),
{
    let i2 = if i + 1 <= s.len() { i + 1 } else { i };
    let i3 = if i2 < s.len() { i2 + 1 } else { i2 };
    let i4 = crate::grammar::spec_if_exists(s, i3).1;
    lemma_object_name_range(s, i4);
    lemma_table_names_present(s, i4);
    if let Ok((n, j)) = spec_parse_canonical_name(s, i4, "a view name"@) {
        lemma_ddl_options_valid(s, j);
    }
    if let Ok((n, j)) = spec_parse_table_names(s, i4) {
        lemma_ddl_options_valid(s, j);
    }
}

proof fn lemma_statements_wf(s: Seq<TokenV>, i: int, expecting: bool)
    ensures
        spec_parse_statements(s, i, expecting) matches Ok(stmts) ==> forall|k: int|
            0 <= k < stmts.len() ==> only_ddl_options(statement_options(#[trigger] stmts[k])) && names_present(stmts[k]),
    decreases s.len() - i,
{
    if i < 0 || i > s.len() {
    } else if tok_at(s, i).kind is SemiColon {
        lemma_statements_wf(s, i + 1, false);
    } else if tok_at(s, i).kind is Eof {
    } else if expecting {
    } else {
        lemma_statement_wf(s, i);
        lemma_statement_range(s, i);
        if let Ok((st, j)) = spec_parse_statement(s, i) {
            lemma_statements_wf(s, j, true);
            if let Ok(stmts) = spec_parse_statements(s, i, expecting) {
                let rest = spec_parse_statements(s, j, true)->Ok_0;
                assert forall|k: int| 0 <= k < stmts.len() implies only_ddl_options(statement_options(#[trigger] stmts[k])) && names_present(stmts[k]) by {
                    if k > 0 {
                        assert(stmts[k] == rest[k - 1]);
                    }
                }
            }
        }
    }
}

/// Law: a statement that parses carries no DDL option other than `timeout`
/// and `wait`.
pub proof fn law_only_ddl_options(lexed: Result<Seq<TokenV>, Seq<char>>)
    ensures
        spec_parse_sql(lexed) matches Ok(stmts) ==> forall|k: int|
            0 <= k < stmts.len() ==> only_ddl_options(statement_options(#[trigger] stmts[k])),
{
    if let Ok(tokens) = lexed {
        lemma_statements_wf(crate::token::significant(tokens), 0, false);
    }
}

/// Law: every name in a statement that parses has at least one identifier,
/// and `DROP TABLE` names at least one table.
pub proof fn law_names_present(lexed: Result<Seq<TokenV>, Seq<char>>)
    ensures
        spec_parse_sql(lexed) matches Ok(stmts) ==> forall|k: int| 0 <= k < stmts.len() ==> names_present(#[trigger] stmts[k]),
{
    if let Ok(tokens) = lexed {
        lemma_statements_wf(crate::token::significant(tokens), 0, false);
    }
}

/// The number of commas among the tokens.
pub open spec fn comma_count(x: Seq<TokenV>) -> nat
    decreases x.len(),
{
    if x.len() == 0 {
        0
    } else {
        (if x[0].kind is Comma { 1nat } else { 0nat }) + comma_count(x.drop_first())
    }
}

proof fn lemma_comma_count_add(x: Seq<TokenV>, y: Seq<TokenV>)
    ensures
        comma_count(x + y) == comma_count(x) + comma_count(y),
    decreases x.len(),
{
    if x.len() > 0 {
        assert((x + y).drop_first() =~= x.drop_first() + y);
        lemma_comma_count_add(x.drop_first(), y);
    } else {
        assert(x + y =~= y);
    }
}

/// A name holds no comma.
proof fn lemma_object_name_no_commas(s: Seq<TokenV>, i: int)
    requires
        0 <= i,
    ensures
        spec_parse_object_name(s, i) matches Ok((n, j)) ==> comma_count(s.subrange(i, j)) == 0,
    decreases s.len() - i,
{
    lemma_object_name_range(s, i);
    if let Ok((n, j)) = spec_parse_object_name(s, i) {
        assert(comma_count(Seq::<TokenV>::empty()) == 0);
        assert(tok_at(s, i) == s[i]);
        assert(!(s[i].kind is Comma));
        if tok_at(s, i + 1).kind is Period {
            lemma_object_name_no_commas(s, i + 2);
            lemma_object_name_range(s, i + 2);
            assert(tok_at(s, i + 1) == s[i + 1]);
            assert(s.subrange(i, j) =~= seq![s[i], s[i + 1]] + s.subrange(i + 2, j));
            lemma_comma_count_add(seq![s[i], s[i + 1]], s.subrange(i + 2, j));
            assert(seq![s[i], s[i + 1]].drop_first() =~= seq![s[i + 1]]);
            assert(seq![s[i + 1]].drop_first() =~= Seq::<TokenV>::empty());
            assert(comma_count(seq![s[i + 1]]) == 0);
            assert(comma_count(seq![s[i], s[i + 1]]) == 0);
        } else {
            assert(s.subrange(i, j) =~= seq![s[i]]);
            assert(seq![s[i]].drop_first() =~= Seq::<TokenV>::empty());
            assert(comma_count(seq![s[i]]) == 0);
        }
    }
}

/// Law: the table names of `DROP TABLE` are at least one, each has at least
/// one identifier, there is one more name than commas between them, and the
/// first is the name written first.
pub proof fn law_table_names(s: Seq<TokenV>, i: int)
    requires
        0 <= i,
    ensures
        spec_parse_table_names(s, i) matches Ok((names, j)) ==> {
            &&& names.len() >= 1
            &&& forall|k: int| 0 <= k < names.len() ==> (#[trigger] names[k]).len() >= 1
            &&& names.len() == 1 + comma_count(s.subrange(i, j))
            &&& spec_parse_object_name(s, i) matches Ok((first, _)) && names[0] == canon_name(first)
        },
    decreases s.len() - i,
{
    lemma_table_names_present(s, i);
    lemma_object_name_range(s, i);
    lemma_object_name_no_commas(s, i);
    if let Ok((n, e)) = spec_parse_object_name(s, i) {
        if tok_at(s, e).kind is Comma {
            law_table_names(s, e + 1);
            crate::grammar::lemma_table_names_range(s, e + 1);
            if let Ok((rest, k)) = spec_parse_table_names(s, e + 1) {
                assert(s.subrange(i, k) =~= s.subrange(i, e) + (seq![s[e]] + s.subrange(e + 1, k)));
                lemma_comma_count_add(s.subrange(i, e), seq![s[e]] + s.subrange(e + 1, k));
                lemma_comma_count_add(seq![s[e]], s.subrange(e + 1, k));
                assert(seq![s[e]].drop_first() =~= Seq::<TokenV>::empty());
                assert(tok_at(s, e) == s[e]);
                assert(comma_count(Seq::<TokenV>::empty()) == 0);
                assert(comma_count(seq![s[e]]) == 1);
                let names = seq![canon_name(n)] + rest;
                assert(spec_parse_table_names(s, i) == Ok::<(Seq<Seq<crate::ast::IdentV>>, int), (SqlErrorV, int)>((names, k)));
                assert(names[0] == canon_name(n));
                assert forall|q: int| 0 <= q < names.len() implies (#[trigger] names[q]).len() >= 1 by {
                    if q > 0 {
                        assert(names[q] == rest[q - 1]);
                    }
                }
            }
        }
    }
}

/// `res` with the `IF EXISTS` flag of a dropped flow set and the position
/// moved by `d`.
pub open spec fn with_if_exists(r: Result<(StatementV, int), (SqlErrorV, int)>, d: int) -> Result<(StatementV, int), (SqlErrorV, int)> {
    match r {
        Ok((StatementV::DropFlow { name, options, .. }, j)) => Ok((StatementV::DropFlow { name, if_exists: true, options }, j + d)),
        other => shifted(other, d),
    }
}

/// Law: `FLOW IF EXISTS rest` parses as `FLOW rest` does, with the flag set,
/// when `rest` does not itself begin with `IF EXISTS`.
pub proof fn law_flow_if_exists(flow: TokenV, if_tok: TokenV, exists_tok: TokenV, rest: Seq<TokenV>)
    requires
        is_keyword(if_tok, "IF"@),
        is_keyword(exists_tok, "EXISTS"@),
        !(is_keyword(tok_at(rest, 0), "IF"@) && is_keyword(tok_at(rest, 1), "EXISTS"@)),
    ensures
        spec_parse_drop_flow(seq![flow, if_tok, exists_tok] + rest, 0)
            == with_if_exists(spec_parse_drop_flow(seq![flow] + rest, 0), 2),
        spec_parse_drop_flow(seq![flow] + rest, 0) matches Ok((StatementV::DropFlow { if_exists, .. }, _)) ==> !if_exists,
{
    let a = seq![flow, if_tok, exists_tok] + rest;
    let b = seq![flow] + rest;
    assert(aligned(a, b, 1, 2)) by {
        assert forall|k: int| 1 <= k < b.len() implies #[trigger] b[k] == a[k + 2] by {
            assert(b[k] == rest[k - 1]);
            assert(a[k + 2] == rest[k - 1]);
        }
    }
    assert(tok_at(a, 1) == if_tok);
    assert(tok_at(a, 2) == exists_tok);
    lemma_aligned_tok(a, b, 1, 2, 1);
    lemma_aligned_tok(a, b, 1, 2, 2);
    assert(tok_at(b, 1) == tok_at(rest, 0));
    assert(tok_at(b, 2) == tok_at(rest, 1));
    assert(step(a, 0) == 1);
    assert(step(b, 0) == 1);
    lemma_shift_canonical_name(a, b, 1, 2, 1, "a flow name"@);
    lemma_object_name_range(b, 1);
    if let Ok((name, j)) = spec_parse_canonical_name(b, 1, "a flow name"@) {
        lemma_shift_ddl_options(a, b, 1, 2, j);
    }
}

/// Law: `DROP SCHEMA rest` parses exactly as `DROP DATABASE rest`.
pub proof fn law_schema_is_database(drop: TokenV, schema: TokenV, database: TokenV, rest: Seq<TokenV>)
    requires
        is_keyword(schema, "SCHEMA"@),
        is_keyword(database, "DATABASE"@),
    ensures
        spec_parse_drop(seq![drop, schema] + rest, 0) == spec_parse_drop(seq![drop, database] + rest, 0),
{
    reveal_strlit("SCHEMA");
    reveal_strlit("DATABASE");
    reveal_strlit("TABLE");
    reveal_strlit("VIEW");
    let a = seq![drop, schema] + rest;
    let b = seq![drop, database] + rest;
    assert(aligned(a, b, 2, 0)) by {
        assert forall|k: int| 2 <= k < b.len() implies #[trigger] b[k] == a[k + 0] by {
            assert(b[k] == rest[k - 2]);
            assert(a[k] == rest[k - 2]);
        }
    }
    assert(tok_at(a, 1) == schema);
    assert(tok_at(b, 1) == database);
    assert(step(a, 0) == 1 && step(b, 0) == 1);
    assert(step(a, 1) == 2 && step(b, 1) == 2);
    assert("SCHEMA"@.len() == 6 && "TABLE"@.len() == 5 && "VIEW"@.len() == 4 && "DATABASE"@.len() == 8);
    assert("SCHEMA"@ != "TABLE"@ && "SCHEMA"@ != "VIEW"@);
    assert("DATABASE"@ != "TABLE"@ && "DATABASE"@ != "VIEW"@);
    assert(spec_parse_drop(a, 0) == crate::grammar::spec_parse_drop_database(a, 1));
    assert(spec_parse_drop(b, 0) == crate::grammar::spec_parse_drop_database(b, 1));
    lemma_shift_if_exists(a, b, 2, 0, 2);
    let i1 = spec_if_exists(b, 2).1;
    lemma_shift_canonical_name(a, b, 2, 0, i1, "a database name"@);
    lemma_object_name_range(b, i1);
    if let Ok((name, j)) = spec_parse_canonical_name(b, i1, "a database name"@) {
        lemma_shift_ddl_options(a, b, 2, 0, j);
    }
}

/// `IF EXISTS` is written right after the token at `i`.
pub open spec fn if_exists_written(s: Seq<TokenV>, i: int) -> bool {
    is_keyword(tok_at(s, i + 1), "IF"@) && is_keyword(tok_at(s, i + 2), "EXISTS"@)
}

/// Where the name begins after the object keyword at `i` and an optional
/// `IF EXISTS`.
pub open spec fn name_start(s: Seq<TokenV>, i: int) -> int {
    if if_exists_written(s, i) { i + 3 } else { i + 1 }
}

/// `name` is `raw` with every unquoted identifier lowercased and every quoted
/// one kept as written.
pub open spec fn is_canonical_of(name: Seq<IdentV>, raw: Seq<IdentV>) -> bool {
    &&& name.len() == raw.len()
    &&& forall|k: int| 0 <= k < raw.len() ==> {
        &&& (#[trigger] name[k]).quote_style == raw[k].quote_style
        &&& name[k].value == (if raw[k].quote_style is None { spec_lowercase(raw[k].value) } else { raw[k].value })
    }
}

proof fn lemma_canon_is_canonical(raw: Seq<IdentV>)
    ensures
        is_canonical_of(canon_name(raw), raw),
{
    assert forall|k: int| 0 <= k < raw.len() implies {
        &&& (#[trigger] canon_name(raw)[k]).quote_style == raw[k].quote_style
        &&& canon_name(raw)[k].value == (if raw[k].quote_style is None { spec_lowercase(raw[k].value) } else { raw[k].value })
    } by {
        assert(canon_name(raw)[k] == crate::grammar::canon_ident(raw[k]));
    }
}

proof fn lemma_if_exists_at(s: Seq<TokenV>, i: int)
    requires
        0 <= i < s.len(),
    ensures
        step(s, i) == i + 1,
        spec_if_exists(s, i + 1) == (if_exists_written(s, i), name_start(s, i)),
{
}

/// Law: `DROP VIEW` drops the name written after `VIEW [IF EXISTS]` with its
/// unquoted identifiers lowercased; the flag says whether `IF EXISTS` was
/// written; the options are those written after the name. A name that cannot
/// be parsed is reported where the parser stopped, and an error in the
/// options is the statement's error.
pub proof fn law_drop_view(s: Seq<TokenV>, i: int)
    requires
        0 <= i < s.len(),
    ensures
        match spec_parse_object_name(s, name_start(s, i)) {
            Err(j) => spec_parse_drop_view(s, i) == Err::<(StatementV, int), (SqlErrorV, int)>(
                (SqlErrorV::Unexpected { expected: "a view name"@, actual: tok_at(s, j).text }, j)),
            Ok((raw, j)) => match spec_parse_ddl_options(s, j) {
                Err(e) => spec_parse_drop_view(s, i) == Err::<(StatementV, int), (SqlErrorV, int)>(e),
                Ok((opts, k)) => spec_parse_drop_view(s, i) matches Ok((StatementV::DropView { name, if_exists, options }, k2))
                    && k2 == k && if_exists == if_exists_written(s, i) && is_canonical_of(name, raw) && options == opts,
            },
        },
{
    lemma_if_exists_at(s, i);
    if let Ok((raw, j)) = spec_parse_object_name(s, name_start(s, i)) {
        lemma_canon_is_canonical(raw);
    }
}

/// Law: `DROP FLOW` drops the name written after `FLOW [IF EXISTS]`, made
/// canonical, with the flag of `IF EXISTS` and the options written after the
/// name.
pub proof fn law_drop_flow(s: Seq<TokenV>, i: int)
    requires
        0 <= i < s.len(),
    ensures
        match spec_parse_object_name(s, name_start(s, i)) {
            Err(j) => spec_parse_drop_flow(s, i) == Err::<(StatementV, int), (SqlErrorV, int)>(
                (SqlErrorV::Unexpected { expected: "a flow name"@, actual: tok_at(s, j).text }, j)),
            Ok((raw, j)) => match spec_parse_ddl_options(s, j) {
                Err(e) => spec_parse_drop_flow(s, i) == Err::<(StatementV, int), (SqlErrorV, int)>(e),
                Ok((opts, k)) => spec_parse_drop_flow(s, i) matches Ok((StatementV::DropFlow { name, if_exists, options }, k2))
                    && k2 == k && if_exists == if_exists_written(s, i) && is_canonical_of(name, raw) && options == opts,
            },
        },
{
    lemma_if_exists_at(s, i);
    if let Ok((raw, j)) = spec_parse_object_name(s, name_start(s, i)) {
        lemma_canon_is_canonical(raw);
    }
}

/// Law: `DROP DATABASE` (or `SCHEMA`) drops the name written after the
/// keyword and an optional `IF EXISTS`, made canonical, with the flag of
/// `IF EXISTS` and the options written after the name.
pub proof fn law_drop_database(s: Seq<TokenV>, i: int)
    requires
        0 <= i < s.len(),
    ensures
        match spec_parse_object_name(s, name_start(s, i)) {
            Err(j) => spec_parse_drop_database(s, i) == Err::<(StatementV, int), (SqlErrorV, int)>(
                (SqlErrorV::Unexpected { expected: "a database name"@, actual: tok_at(s, j).text }, j)),
            Ok((raw, j)) => match spec_parse_ddl_options(s, j) {
                Err(e) => spec_parse_drop_database(s, i) == Err::<(StatementV, int), (SqlErrorV, int)>(e),
                Ok((opts, k)) => spec_parse_drop_database(s, i) matches Ok((StatementV::DropDatabase { name, if_exists, options }, k2))
                    && k2 == k && if_exists == if_exists_written(s, i) && is_canonical_of(name, raw) && options == opts,
            },
        },
{
    lemma_if_exists_at(s, i);
    if let Ok((raw, j)) = spec_parse_object_name(s, name_start(s, i)) {
        lemma_canon_is_canonical(raw);
    }
}

/// Law: `DROP TRIGGER` drops the name written after `TRIGGER [IF EXISTS]`,
/// made canonical; the flag is set exactly when `IF EXISTS` is written; the
/// options are those written after the name.
pub proof fn law_drop_trigger(s: Seq<TokenV>, i: int)
    requires
        0 <= i < s.len(),
    ensures
        match spec_parse_object_name(s, name_start(s, i)) {
            Err(j) => spec_parse_drop_trigger(s, i) == Err::<(DropTriggerV, int), (SqlErrorV, int)>(
                (SqlErrorV::Unexpected { expected: "a trigger name"@, actual: tok_at(s, j).text }, j)),
            Ok((raw, j)) => match spec_parse_ddl_options(s, j) {
                Err(e) => spec_parse_drop_trigger(s, i) == Err::<(DropTriggerV, int), (SqlErrorV, int)>(e),
                Ok((opts, k)) => spec_parse_drop_trigger(s, i) matches Ok((t, k2))
                    && k2 == k && t.if_exists == if_exists_written(s, i) && is_canonical_of(t.name, raw) && t.options == opts,
            },
        },
{
    lemma_if_exists_at(s, i);
    if let Ok((raw, j)) = spec_parse_object_name(s, name_start(s, i)) {
        lemma_canon_is_canonical(raw);
    }
}

/// Law: `DROP TABLE` drops the comma-separated names written after
/// `TABLE [IF EXISTS]`, with the flag of `IF EXISTS`, and the options written
/// after the last name, however many names there are.
pub proof fn law_drop_table(s: Seq<TokenV>, i: int)
    requires
        0 <= i < s.len(),
    ensures
        match spec_parse_table_names(s, name_start(s, i)) {
            Err(e) => spec_parse_drop_table(s, i) == Err::<(StatementV, int), (SqlErrorV, int)>(e),
            Ok((names, j)) => match spec_parse_ddl_options(s, j) {
                Err(e) => spec_parse_drop_table(s, i) == Err::<(StatementV, int), (SqlErrorV, int)>(e),
                Ok((opts, k)) => spec_parse_drop_table(s, i) matches Ok((StatementV::DropTable { names: n2, if_exists, options }, k2))
                    && k2 == k && if_exists == if_exists_written(s, i) && n2 == names && options == opts,
            },
        },
{
    lemma_if_exists_at(s, i);
}

/// Law: every table name of `DROP TABLE` is a name written between where the
/// list starts and where it ends, with its unquoted identifiers lowercased.
pub proof fn law_table_names_canonical(s: Seq<TokenV>, i: int)
    requires
        0 <= i,
    ensures
        spec_parse_table_names(s, i) matches Ok((names, j)) ==> forall|k: int| 0 <= k < names.len() ==>
            exists|p: int, raw: Seq<IdentV>, e: int| i <= p && e <= j && spec_parse_object_name(s, p) == Ok::<(Seq<IdentV>, int), int>((raw, e))
                && is_canonical_of(#[trigger] names[k], raw),
    decreases s.len() - i,
{
    lemma_object_name_range(s, i);
    if let Ok((n, e)) = spec_parse_object_name(s, i) {
        lemma_canon_is_canonical(n);
        if tok_at(s, e).kind is Comma {
            law_table_names_canonical(s, e + 1);
            crate::grammar::lemma_table_names_range(s, e + 1);
            if let Ok((names, j)) = spec_parse_table_names(s, i) {
                let rest = spec_parse_table_names(s, e + 1)->Ok_0.0;
                assert forall|k: int| 0 <= k < names.len() implies
                    exists|p: int, raw: Seq<IdentV>, e2: int| i <= p && e2 <= j && spec_parse_object_name(s, p) == Ok::<(Seq<IdentV>, int), int>((raw, e2))
                        && is_canonical_of(#[trigger] names[k], raw) by {
                    if k == 0 {
                        assert(names[0] == canon_name(n));
                        assert(spec_parse_object_name(s, i) == Ok::<(Seq<IdentV>, int), int>((n, e)));
                    } else {
                        assert(names[k] == rest[k - 1]);
                    }
                }
            }
        } else {
            if let Ok((names, j)) = spec_parse_table_names(s, i) {
                assert(names[0] == canon_name(n));
                assert(spec_parse_object_name(s, i) == Ok::<(Seq<IdentV>, int), int>((n, e)));
            }
        }
    }
}

/// Law: the object dropped is named by the token after `DROP`: `TABLE`
/// drops tables, `VIEW` a view, `SCHEMA` or `DATABASE` a database, a word
/// that spells `flow` in any case (and is no keyword) a flow; any other token
/// is unsupported, reported with its text, with only `DROP` taken.
pub proof fn law_drop_dispatch(s: Seq<TokenV>, i: int)
    requires
        0 <= i < s.len(),
    ensures
        is_keyword(tok_at(s, i + 1), "TABLE"@) ==> spec_parse_drop(s, i) == spec_parse_drop_table(s, i + 1),
        is_keyword(tok_at(s, i + 1), "VIEW"@) ==> spec_parse_drop(s, i) == spec_parse_drop_view(s, i + 1),
        is_keyword(tok_at(s, i + 1), "SCHEMA"@) || is_keyword(tok_at(s, i + 1), "DATABASE"@)
            ==> spec_parse_drop(s, i) == spec_parse_drop_database(s, i + 1),
        (tok_at(s, i + 1).kind matches crate::token::KindV::Word { value, keyword, .. }
            && keyword == "NoKeyword"@ && crate::text::spec_uppercase(value) == "FLOW"@)
            ==> spec_parse_drop(s, i) == spec_parse_drop_flow(s, i + 1),
        !(tok_at(s, i + 1).kind matches crate::token::KindV::Word { value, keyword, .. } && (
            keyword == "TABLE"@ || keyword == "VIEW"@ || keyword == "SCHEMA"@ || keyword == "DATABASE"@
            || (keyword == "NoKeyword"@ && crate::text::spec_uppercase(value) == "FLOW"@)))
            ==> spec_parse_drop(s, i) == Err::<(StatementV, int), (SqlErrorV, int)>(
                (SqlErrorV::Unsupported { keyword: tok_at(s, i + 1).text }, i + 1)),
        spec_parse_drop(s, i) matches Ok((st, _)) ==> match st {
            StatementV::DropTable { .. } => is_keyword(tok_at(s, i + 1), "TABLE"@),
            StatementV::DropView { .. } => is_keyword(tok_at(s, i + 1), "VIEW"@),
            StatementV::DropDatabase { .. } => is_keyword(tok_at(s, i + 1), "SCHEMA"@) || is_keyword(tok_at(s, i + 1), "DATABASE"@),
            StatementV::DropFlow { .. } => tok_at(s, i + 1).kind matches crate::token::KindV::Word { value, keyword, .. }
                && keyword == "NoKeyword"@ && crate::text::spec_uppercase(value) == "FLOW"@,
        },
{
    reveal_strlit("TABLE");
    reveal_strlit("VIEW");
    reveal_strlit("SCHEMA");
    reveal_strlit("DATABASE");
    reveal_strlit("NoKeyword");
    assert("TABLE"@.len() == 5 && "VIEW"@.len() == 4 && "SCHEMA"@.len() == 6 && "DATABASE"@.len() == 8 && "NoKeyword"@.len() == 9);
    assert(step(s, i) == i + 1);
    lemma_drop_table_kind(s, i + 1);
}

proof fn lemma_drop_table_kind(s: Seq<TokenV>, i: int)
    ensures
        spec_parse_drop_table(s, i) matches Ok((st, _)) ==> st is DropTable,
{
}

} // verus!
