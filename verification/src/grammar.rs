//! The grammar of `DROP` statements, stated over sequences of token models.
//!
//! A parser state is a sequence `s` of significant tokens and a position `i`
//! in it; each function gives what is parsed at `i` and the position after it,
//! or the error and the position the parser stands at when it fails (a token
//! that is taken and found wrong stays taken; one that is only looked at does
//! not).

use crate::ast::{entries_map, DropTriggerV, IdentV, StatementV};
use crate::error::SqlErrorV;
use crate::text::{spec_lowercase, spec_uppercase};
use crate::token::{significant, KindV, TokenV};
use vstd::prelude::*;

verus! {

/// How the end of input is written.
pub open spec fn eof_token() -> TokenV {
    TokenV { kind: KindV::Eof, text: "EOF"@ }
}

/// The token at position `i`, or the end of input past the last token.
pub open spec fn tok_at(s: Seq<TokenV>, i: int) -> TokenV {
    if 0 <= i < s.len() {
        s[i]
    } else {
        eof_token()
    }
}

/// The position after taking one token at `i`.
pub open spec fn step(s: Seq<TokenV>, i: int) -> int {
    if i < s.len() {
        i + 1
    } else {
        i
    }
}

/// The token is the keyword named `kw`.
pub open spec fn is_keyword(t: TokenV, kw: Seq<char>) -> bool {
    t.kind matches KindV::Word { keyword, .. } && keyword == kw
}

/// `IF EXISTS` at `i`: whether it is there and the position after it.
pub open spec fn spec_if_exists(s: Seq<TokenV>, i: int) -> (bool, int) {
    if is_keyword(tok_at(s, i), "IF"@) && is_keyword(tok_at(s, i + 1), "EXISTS"@) {
        (true, i + 2)
    } else {
        (false, i)
    }
}

/// The identifier a token stands for: a word, or a quoted string.
pub open spec fn ident_of(t: TokenV) -> Option<IdentV> {
    match t.kind {
        KindV::Word { value, quote_style, .. } => Some(IdentV { value, quote_style }),
        KindV::SingleQuoted { value } => Some(IdentV { value, quote_style: Some('\'') }),
        KindV::DoubleQuoted { value } => Some(IdentV { value, quote_style: Some('"') }),
        _ => None,
    }
}

/// A name `ident [. ident]*` at `i`: the identifiers and the position after
/// them, or the position the parser stands at after the identifier that failed.
pub open spec fn spec_parse_object_name(s: Seq<TokenV>, i: int) -> Result<(Seq<IdentV>, int), int>
    decreases s.len() - i,
{
    match ident_of(tok_at(s, i)) {
        None => Err(step(s, i)),
        Some(id) => if tok_at(s, i + 1).kind is Period {
            match spec_parse_object_name(s, i + 2) {
                Ok((rest, j)) => Ok((seq![id] + rest, j)),
                Err(j) => Err(j),
            }
        } else {
            Ok((seq![id], i + 1))
        },
    }
}

/// Unquoted identifiers are lowercased; quoted ones are kept as written.
pub open spec fn canon_ident(id: IdentV) -> IdentV {
    if id.quote_style is None {
        IdentV { value: spec_lowercase(id.value), quote_style: None }
    } else {
        id
    }
}

/// Each identifier of a name made canonical.
pub open spec fn canon_name(n: Seq<IdentV>) -> Seq<IdentV> {
    n.map_values(|id: IdentV| canon_ident(id))
}

/// A syntax error: `expected` wanted where token `t` stands.
pub open spec fn syntax_error(expected: Seq<char>, t: TokenV) -> SqlErrorV {
    SqlErrorV::Syntax { expected, found: t.text }
}

/// The tokens an option value can be written with. A value is one token: a
/// word, a number or a quoted string. Longer expressions (operators, calls,
/// casts) are not parsed here; such a value fails as a syntax error at the
/// token after its first one.
pub open spec fn is_value_token(t: TokenV) -> bool {
    ||| t.kind is Word
    ||| t.kind is Number
    ||| t.kind is SingleQuoted
    ||| t.kind is DoubleQuoted
}

/// `key = value` at `i` (it always spans three tokens).
pub open spec fn spec_parse_option(s: Seq<TokenV>, i: int) -> Result<(IdentV, TokenV), (SqlErrorV, int)> {
    match ident_of(tok_at(s, i)) {
        None => Err((syntax_error("identifier"@, tok_at(s, i)), step(s, i))),
        Some(key) => if !(tok_at(s, i + 1).kind is Eq) {
            Err((syntax_error("="@, tok_at(s, i + 1)), i + 1))
        } else if !is_value_token(tok_at(s, i + 2)) {
            Err((syntax_error("an expression"@, tok_at(s, i + 2)), step(s, i + 2)))
        } else {
            Ok((key, tok_at(s, i + 2)))
        },
    }
}

/// One or more options separated by commas at `i`.
pub open spec fn spec_parse_option_list(s: Seq<TokenV>, i: int) -> Result<(Seq<(IdentV, TokenV)>, int), (SqlErrorV, int)>
    decreases s.len() - i,
{
    match spec_parse_option(s, i) {
        Err(e) => Err(e),
        Ok(opt) => if tok_at(s, i + 3).kind is Comma {
            match spec_parse_option_list(s, i + 4) {
                Ok((rest, j)) => Ok((seq![opt] + rest, j)),
                Err(e) => Err(e),
            }
        } else {
            Ok((seq![opt], i + 3))
        },
    }
}

/// `[WITH ( [option [, option]*] )]` at `i`.
pub open spec fn spec_parse_options(s: Seq<TokenV>, i: int) -> Result<(Seq<(IdentV, TokenV)>, int), (SqlErrorV, int)> {
    if !is_keyword(tok_at(s, i), "WITH"@) {
        Ok((Seq::empty(), i))
    } else if !(tok_at(s, i + 1).kind is LParen) {
        Err((syntax_error("("@, tok_at(s, i + 1)), i + 1))
    } else if tok_at(s, i + 2).kind is RParen {
        Ok((Seq::empty(), i + 3))
    } else {
        match spec_parse_option_list(s, i + 2) {
            Err(e) => Err(e),
            Ok((opts, j)) => if tok_at(s, j).kind is RParen {
                Ok((opts, j + 1))
            } else {
                Err((syntax_error(")"@, tok_at(s, j)), j))
            },
        }
    }
}

/// Keywords that stand for an expression other than a name or a literal when
/// they are the whole value: `NULL`, the current date, time and user
/// functions, and the reserved `EXISTS`, `INTERVAL`, `TRIM`, which need more
/// tokens.
pub open spec fn is_expression_keyword(k: Seq<char>) -> bool {
    ||| k == "NULL"@
    ||| k == "CURRENT_TIMESTAMP"@
    ||| k == "CURRENT_TIME"@
    ||| k == "CURRENT_DATE"@
    ||| k == "LOCALTIME"@
    ||| k == "LOCALTIMESTAMP"@
    ||| k == "CURRENT_CATALOG"@
    ||| k == "CURRENT_USER"@
    ||| k == "SESSION_USER"@
    ||| k == "USER"@
    ||| k == "EXISTS"@
    ||| k == "INTERVAL"@
    ||| k == "TRIM"@
}

/// The string an option value stands for: a quoted string's content, a
/// number's text, `true` / `false` for the boolean keywords, an identifier's
/// value; a keyword that stands for another expression gives no string.
pub open spec fn option_value(t: TokenV) -> Option<Seq<char>> {
    match t.kind {
        KindV::SingleQuoted { value } => Some(value),
        KindV::DoubleQuoted { value } => Some(value),
        KindV::Number { .. } => Some(t.text),
        KindV::Word { value, keyword, .. } => if keyword == "TRUE"@ {
            Some("true"@)
        } else if keyword == "FALSE"@ {
            Some("false"@)
        } else if is_expression_keyword(keyword) {
            None
        } else {
            Some(value)
        },
        _ => None,
    }
}

/// The options as (lowercased key, value) pairs in order, or the error for the
/// first option whose value is not a string.
pub open spec fn option_entries(opts: Seq<(IdentV, TokenV)>) -> Result<Seq<(Seq<char>, Seq<char>)>, SqlErrorV>
    decreases opts.len(),
{
    if opts.len() == 0 {
        Ok(Seq::empty())
    } else {
        match option_entries(opts.drop_last()) {
            Err(e) => Err(e),
            Ok(prev) => {
                let (key, t) = opts.last();
                match option_value(t) {
                    None => Err(SqlErrorV::InvalidOptionValue { key: key.value, value: t.text }),
                    Some(v) => Ok(prev.push((spec_lowercase(key.value), v))),
                }
            },
        }
    }
}

/// The options DDL statements accept.
pub open spec fn is_ddl_option(key: Seq<char>) -> bool {
    key == "timeout"@ || key == "wait"@
}

/// The first key, in order, that is not a DDL option.
pub open spec fn first_invalid_key(entries: Seq<(Seq<char>, Seq<char>)>) -> Option<Seq<char>>
    decreases entries.len(),
{
    if entries.len() == 0 {
        None
    } else {
        match first_invalid_key(entries.drop_last()) {
            Some(k) => Some(k),
            None => if is_ddl_option(entries.last().0) {
                None
            } else {
                Some(entries.last().0)
            },
        }
    }
}

/// The DDL options at `i`: their map and the position after them.
pub open spec fn spec_parse_ddl_options(s: Seq<TokenV>, i: int) -> Result<(Map<Seq<char>, Seq<char>>, int), (SqlErrorV, int)> {
    match spec_parse_options(s, i) {
        Err(e) => Err(e),
        Ok((opts, j)) => match option_entries(opts) {
            Err(e) => Err((e, j)),
            Ok(entries) => match first_invalid_key(entries) {
                Some(key) => Err((SqlErrorV::InvalidOption { key }, j)),
                None => Ok((entries_map(entries), j)),
            },
        },
    }
}

/// A name at `i` made canonical, or the error naming what was expected.
pub open spec fn spec_parse_canonical_name(s: Seq<TokenV>, i: int, what: Seq<char>) -> Result<(Seq<IdentV>, int), (SqlErrorV, int)> {
    match spec_parse_object_name(s, i) {
        Err(j) => Err((SqlErrorV::Unexpected { expected: what, actual: tok_at(s, j).text }, j)),
        Ok((raw, j)) => Ok((canon_name(raw), j)),
    }
}

/// A name takes at least one token and ends within the input.
pub proof fn lemma_object_name_range(s: Seq<TokenV>, i: int)
    requires
        0 <= i,
    ensures
        spec_parse_object_name(s, i) matches Ok((n, j)) ==> i < j <= s.len() && n.len() >= 1,
    decreases s.len() - i,
{
    if ident_of(tok_at(s, i)) is Some && tok_at(s, i + 1).kind is Period {
        lemma_object_name_range(s, i + 2);
    }
}

/// Table names separated by commas at `i`.
pub open spec fn spec_parse_table_names(s: Seq<TokenV>, i: int) -> Result<(Seq<Seq<IdentV>>, int), (SqlErrorV, int)>
    decreases s.len() - i,
{
    if i < 0 {
        Err((SqlErrorV::Unexpected { expected: "a table name"@, actual: tok_at(s, i).text }, i))
    } else {
        match spec_parse_canonical_name(s, i, "a table name"@) {
            Err(e) => Err(e),
            Ok((name, j)) => if tok_at(s, j).kind is Comma {
                proof {
                    lemma_object_name_range(s, i);
                }
                match spec_parse_table_names(s, j + 1) {
                    Ok((rest, k)) => Ok((seq![name] + rest, k)),
                    Err(e) => Err(e),
                }
            } else {
                Ok((seq![name], j))
            },
        }
    }
}

/// `TABLE [IF EXISTS] names [options]` at `i` (the word at `i` is taken as `TABLE`).
pub open spec fn spec_parse_drop_table(s: Seq<TokenV>, i: int) -> Result<(StatementV, int), (SqlErrorV, int)> {
    let (if_exists, i1) = spec_if_exists(s, step(s, i));
    match spec_parse_table_names(s, i1) {
        Err(e) => Err(e),
        Ok((names, j)) => match spec_parse_ddl_options(s, j) {
            Err(e) => Err(e),
            Ok((options, k)) => Ok((StatementV::DropTable { names, if_exists, options }, k)),
        },
    }
}

/// `VIEW [IF EXISTS] name [options]` at `i`.
pub open spec fn spec_parse_drop_view(s: Seq<TokenV>, i: int) -> Result<(StatementV, int), (SqlErrorV, int)> {
    let (if_exists, i1) = spec_if_exists(s, step(s, i));
    match spec_parse_canonical_name(s, i1, "a view name"@) {
        Err(e) => Err(e),
        Ok((name, j)) => match spec_parse_ddl_options(s, j) {
            Err(e) => Err(e),
            Ok((options, k)) => Ok((StatementV::DropView { name, if_exists, options }, k)),
        },
    }
}

/// `FLOW [IF EXISTS] name [options]` at `i`.
pub open spec fn spec_parse_drop_flow(s: Seq<TokenV>, i: int) -> Result<(StatementV, int), (SqlErrorV, int)> {
    let (if_exists, i1) = spec_if_exists(s, step(s, i));
    match spec_parse_canonical_name(s, i1, "a flow name"@) {
        Err(e) => Err(e),
        Ok((name, j)) => match spec_parse_ddl_options(s, j) {
            Err(e) => Err(e),
            Ok((options, k)) => Ok((StatementV::DropFlow { name, if_exists, options }, k)),
        },
    }
}

/// `TRIGGER [IF EXISTS] name [options]` at `i`.
pub open spec fn spec_parse_drop_trigger(s: Seq<TokenV>, i: int) -> Result<(DropTriggerV, int), (SqlErrorV, int)> {
    let (if_exists, i1) = spec_if_exists(s, step(s, i));
    match spec_parse_canonical_name(s, i1, "a trigger name"@) {
        Err(e) => Err(e),
        Ok((name, j)) => match spec_parse_ddl_options(s, j) {
            Err(e) => Err(e),
            Ok((options, k)) => Ok((DropTriggerV { name, if_exists, options }, k)),
        },
    }
}

/// `DATABASE | SCHEMA [IF EXISTS] name [options]` at `i`.
pub open spec fn spec_parse_drop_database(s: Seq<TokenV>, i: int) -> Result<(StatementV, int), (SqlErrorV, int)> {
    let (if_exists, i1) = spec_if_exists(s, step(s, i));
    match spec_parse_canonical_name(s, i1, "a database name"@) {
        Err(e) => Err(e),
        Ok((name, j)) => match spec_parse_ddl_options(s, j) {
            Err(e) => Err(e),
            Ok((options, k)) => Ok((StatementV::DropDatabase { name, if_exists, options }, k)),
        },
    }
}

/// A `DROP` statement at `i` (the token at `i` is taken as `DROP`): the kind of
/// object is chosen by the keyword after it; `FLOW` is recognised by its
/// uppercase spelling since it is no keyword of the tokenizer.
pub open spec fn spec_parse_drop(s: Seq<TokenV>, i: int) -> Result<(StatementV, int), (SqlErrorV, int)> {
    let i1 = step(s, i);
    let t = tok_at(s, i1);
    match t.kind {
        KindV::Word { value, keyword, .. } => if keyword == "TABLE"@ {
            spec_parse_drop_table(s, i1)
        } else if keyword == "VIEW"@ {
            spec_parse_drop_view(s, i1)
        } else if keyword == "SCHEMA"@ || keyword == "DATABASE"@ {
            spec_parse_drop_database(s, i1)
        } else if keyword == "NoKeyword"@ && spec_uppercase(value) == "FLOW"@ {
            spec_parse_drop_flow(s, i1)
        } else {
            Err((SqlErrorV::Unsupported { keyword: t.text }, i1))
        },
        _ => Err((SqlErrorV::Unsupported { keyword: t.text }, i1)),
    }
}

/// A statement at `i`: only `DROP` statements are parsed.
pub open spec fn spec_parse_statement(s: Seq<TokenV>, i: int) -> Result<(StatementV, int), (SqlErrorV, int)> {
    if is_keyword(tok_at(s, i), "DROP"@) {
        spec_parse_drop(s, i)
    } else {
        Err((SqlErrorV::Unsupported { keyword: tok_at(s, i).text }, i))
    }
}


/// An option list takes its tokens from within the input.
pub proof fn lemma_option_list_range(s: Seq<TokenV>, i: int)
    requires
        0 <= i,
    ensures
        spec_parse_option_list(s, i) matches Ok((opts, j)) ==> i + 3 <= j <= s.len(),
    decreases s.len() - i,
{
    if spec_parse_option(s, i) is Ok && tok_at(s, i + 3).kind is Comma {
        lemma_option_list_range(s, i + 4);
    }
}

/// Options end within the input, at or after where they start.
pub proof fn lemma_ddl_options_range(s: Seq<TokenV>, i: int)
    requires
        0 <= i <= s.len(),
    ensures
        spec_parse_ddl_options(s, i) matches Ok((m, j)) ==> i <= j <= s.len(),
{
    lemma_option_list_range(s, i + 2);
}

/// Table names take at least one token and end within the input.
pub proof fn lemma_table_names_range(s: Seq<TokenV>, i: int)
    requires
        0 <= i,
    ensures
        spec_parse_table_names(s, i) matches Ok((names, j)) ==> i < j <= s.len() && names.len() >= 1,
    decreases s.len() - i,
{
    lemma_object_name_range(s, i);
    if let Ok((n, j)) = spec_parse_object_name(s, i) {
        if tok_at(s, j).kind is Comma {
            lemma_table_names_range(s, j + 1);
        }
    }
}

/// A statement takes at least one token and ends within the input.
pub proof fn lemma_statement_range(s: Seq<TokenV>, i: int)
    requires
        0 <= i <= s.len(),
    ensures
        spec_parse_statement(s, i) matches Ok((st, j)) ==> i < j <= s.len(),
{
    let i1 = step(s, i);
    let i2 = spec_if_exists(s, step(s, i1)).1;
    lemma_object_name_range(s, i2);
    lemma_table_names_range(s, i2);
    if let Ok((n, j)) = spec_parse_object_name(s, i2) {
        lemma_ddl_options_range(s, j);
    }
    if let Ok((n, j)) = spec_parse_table_names(s, i2) {
        lemma_ddl_options_range(s, j);
    }
}

/// Statements at `i`, separated by semicolons, until the end of input. After a
/// statement (`expecting_delimiter`) only a semicolon or the end may follow.
pub open spec fn spec_parse_statements(s: Seq<TokenV>, i: int, expecting_delimiter: bool) -> Result<Seq<StatementV>, SqlErrorV>
    decreases s.len() - i,
{
    if i < 0 || i > s.len() {
        Ok(Seq::empty())
    } else if tok_at(s, i).kind is SemiColon {
        spec_parse_statements(s, i + 1, false)
    } else if tok_at(s, i).kind is Eof {
        Ok(Seq::empty())
    } else if expecting_delimiter {
        Err(SqlErrorV::Unsupported { keyword: tok_at(s, i).text })
    } else {
        match spec_parse_statement(s, i) {
            Err((e, _)) => Err(e),
            Ok((st, j)) => {
                proof {
                    lemma_statement_range(s, i);
                }
                match spec_parse_statements(s, j, true) {
                    Ok(rest) => Ok(seq![st] + rest),
                    Err(e) => Err(e),
                }
            },
        }
    }
}

/// What parsing a SQL text gives, from what the tokenizer gives for it.
pub open spec fn spec_parse_sql(lexed: Result<Seq<TokenV>, Seq<char>>) -> Result<Seq<StatementV>, SqlErrorV> {
    match lexed {
        Err(message) => Err(SqlErrorV::Tokenize { message }),
        Ok(tokens) => spec_parse_statements(significant(tokens), 0, false),
    }
}

} // verus!
