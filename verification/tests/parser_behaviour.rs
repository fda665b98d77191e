use greptime_sql::ast::{DropTable, DropTrigger, Ident, ObjectName, OptionMap, Statement};
use greptime_sql::token::{SqlToken, TokenKind};
use greptime_sql::error::SqlError;
use greptime_sql::parser::ParserContext;

fn name(parts: &[&str]) -> ObjectName {
    ObjectName::from_idents(parts.iter().map(|p| Ident::new(p)).collect())
}

fn parse(sql: &str) -> Result<Vec<Statement>, SqlError> {
    ParserContext::create_with_dialect(sql)
}

fn s(x: &str) -> String {
    x.to_string()
}

#[test]
fn unquoted_names_are_lowercased() {
    let stmts = parse("DROP TABLE My_Schema.FOO").unwrap();
    assert_eq!(
        stmts,
        vec![Statement::DropTable(DropTable::new(vec![name(&["my_schema", "foo"])], false, OptionMap::default()))]
    );
}

#[test]
fn quoted_names_keep_their_case() {
    let stmts = parse("DROP TABLE \"MyTable\"").unwrap();
    assert_eq!(
        stmts,
        vec![Statement::DropTable(DropTable::new(
            vec![ObjectName::from_idents(vec![Ident::with_quote('"', "MyTable")])],
            false,
            OptionMap::default()
        ))]
    );
}

#[test]
fn several_tables_in_order() {
    let stmts = parse("drop table a, B, c.d").unwrap();
    assert_eq!(
        stmts,
        vec![Statement::DropTable(DropTable::new(
            vec![name(&["a"]), name(&["b"]), name(&["c", "d"])],
            false,
            OptionMap::default()
        ))]
    );
}

#[test]
fn keywords_in_any_case() {
    let stmts = parse("drop flow if exists F").unwrap();
    assert_eq!(stmts.len(), 1);
    assert_eq!(stmts[0].to_sql(), "DROP FLOW IF EXISTS f");
    let stmts = parse("drop schema S").unwrap();
    assert_eq!(stmts[0].to_sql(), "DROP DATABASE s");
}

#[test]
fn several_statements() {
    let stmts = parse("DROP TABLE a;; DROP VIEW b;").unwrap();
    assert_eq!(stmts.len(), 2);
    assert_eq!(stmts[0].to_sql(), "DROP TABLE a");
    assert_eq!(stmts[1].to_sql(), "DROP VIEW b");
    assert_eq!(parse("").unwrap(), vec![]);
    assert_eq!(parse(" ; ").unwrap(), vec![]);
}

#[test]
fn statement_must_end_before_next_one() {
    assert_eq!(parse("DROP TABLE a b"), Err(SqlError::Unsupported { keyword: s("b") }));
}

#[test]
fn unsupported_objects_and_statements() {
    assert_eq!(parse("DROP INDEX foo"), Err(SqlError::Unsupported { keyword: s("INDEX") }));
    assert_eq!(parse("DROP TRIGGER foo"), Err(SqlError::Unsupported { keyword: s("TRIGGER") }));
    assert_eq!(parse("DROP 1"), Err(SqlError::Unsupported { keyword: s("1") }));
    assert_eq!(parse("DROP"), Err(SqlError::Unsupported { keyword: s("EOF") }));
    assert_eq!(parse("SELECT 1"), Err(SqlError::Unsupported { keyword: s("SELECT") }));
}

#[test]
fn missing_name_is_unexpected() {
    assert_eq!(
        parse("DROP TABLE"),
        Err(SqlError::Unexpected { expected: s("a table name"), actual: s("EOF") })
    );
    assert_eq!(
        parse("DROP VIEW , x"),
        Err(SqlError::Unexpected { expected: s("a view name"), actual: s("x") })
    );
    assert_eq!(
        parse("DROP FLOW a."),
        Err(SqlError::Unexpected { expected: s("a flow name"), actual: s("EOF") })
    );
    assert_eq!(
        parse("DROP DATABASE ;"),
        Err(SqlError::Unexpected { expected: s("a database name"), actual: s("EOF") })
    );
}

#[test]
fn option_syntax_errors() {
    assert_eq!(
        parse("DROP TABLE foo WITH timeout"),
        Err(SqlError::Syntax { expected: s("("), found: s("timeout") })
    );
    assert_eq!(
        parse("DROP TABLE foo WITH (timeout '1s')"),
        Err(SqlError::Syntax { expected: s("="), found: s("'1s'") })
    );
    assert_eq!(
        parse("DROP TABLE foo WITH (timeout = )"),
        Err(SqlError::Syntax { expected: s("an expression"), found: s(")") })
    );
    assert_eq!(
        parse("DROP TABLE foo WITH (timeout = '1s' wait = true)"),
        Err(SqlError::Syntax { expected: s(")"), found: s("wait") })
    );
    assert_eq!(
        parse("DROP TABLE foo WITH (, wait = true)"),
        Err(SqlError::Syntax { expected: s("identifier"), found: s(",") })
    );
}

#[test]
fn option_values_and_keys() {
    let stmts = parse("DROP TABLE foo WITH (TIMEOUT = 10, \"wait\" = TRUE)").unwrap();
    let Statement::DropTable(drop) = &stmts[0] else { unreachable!() };
    assert_eq!(drop.ddl_options.get("timeout"), Some("10"));
    assert_eq!(drop.ddl_options.get("wait"), Some("true"));
    let stmts = parse("DROP TABLE foo WITH (wait = no, wait = \"x\")").unwrap();
    let Statement::DropTable(drop) = &stmts[0] else { unreachable!() };
    assert_eq!(drop.ddl_options.get("wait"), Some("x"));
    assert_eq!(drop.ddl_options.get("timeout"), None);
    let stmts = parse("DROP TABLE foo WITH ()").unwrap();
    assert_eq!(stmts[0], Statement::DropTable(DropTable::new(vec![name(&["foo"])], false, OptionMap::default())));
}

#[test]
fn invalid_options() {
    assert_eq!(
        parse("DROP TABLE foo WITH (unknown='x')"),
        Err(SqlError::InvalidOption { key: s("unknown") })
    );
    assert_eq!(
        parse("DROP VIEW foo WITH (wait=true, Other=1)"),
        Err(SqlError::InvalidOption { key: s("other") })
    );
    assert_eq!(
        parse("DROP TABLE foo WITH (timeout=NULL)"),
        Err(SqlError::InvalidOptionValue { key: s("timeout"), value: s("NULL") })
    );
}

#[test]
fn text_that_cannot_be_tokenized() {
    assert!(matches!(parse("DROP TABLE 'open"), Err(SqlError::Tokenize { .. })));
}

#[test]
fn quoted_names_are_written_back_quoted() {
    let stmts = parse("DROP DATABASE `fOo`").unwrap();
    assert_eq!(stmts[0].to_sql(), "DROP DATABASE `fOo`");
    let stmts = parse("DROP TABLE IF EXISTS a, \"B\".c").unwrap();
    assert_eq!(stmts[0].to_sql(), "DROP TABLE IF EXISTS a, \"B\".c");
}

#[test]
fn option_map_replaces_values() {
    let mut m = OptionMap::new();
    assert_eq!(m.get("wait"), None);
    m.insert(s("wait"), s("true"));
    m.insert(s("wait"), s("false"));
    assert_eq!(m.get("wait"), Some("false"));
}

#[test]
fn option_maps_compare_as_maps() {
    let mut a = OptionMap::new();
    a.insert(s("timeout"), s("1s"));
    a.insert(s("wait"), s("true"));
    let mut b = OptionMap::new();
    b.insert(s("wait"), s("false"));
    b.insert(s("timeout"), s("1s"));
    assert_ne!(a, b);
    b.insert(s("wait"), s("true"));
    assert_eq!(a, b);
    assert_ne!(a, OptionMap::default());
    let x = parse("DROP TABLE t WITH (timeout='1s', wait=true)").unwrap();
    let y = parse("DROP TABLE t WITH (wait=true, timeout='1s')").unwrap();
    assert_eq!(x, y);
}

#[test]
fn schema_parses_as_database() {
    assert_eq!(parse("DROP SCHEMA IF EXISTS Public WITH (wait = true)"), parse("DROP DATABASE IF EXISTS Public WITH (wait = true)"));
    assert_eq!(parse("DROP SCHEMA"), parse("DROP DATABASE"));
}

#[test]
fn flow_if_exists_only_sets_the_flag() {
    let a = parse("DROP FLOW IF EXISTS a.b WITH (timeout = '5s')").unwrap();
    let b = parse("DROP FLOW a.b WITH (timeout = '5s')").unwrap();
    let (greptime_sql::ast::Statement::DropFlow(fa), greptime_sql::ast::Statement::DropFlow(fb)) = (&a[0], &b[0]) else {
        unreachable!()
    };
    assert!(fa.drop_if_exists && !fb.drop_if_exists);
    assert_eq!(fa.flow_name, fb.flow_name);
    assert_eq!(fa.ddl_options, fb.ddl_options);
}

#[test]
fn expression_keywords_are_no_option_values() {
    assert_eq!(
        parse("DROP TABLE t WITH (timeout = CURRENT_TIMESTAMP)"),
        Err(SqlError::InvalidOptionValue { key: s("timeout"), value: s("CURRENT_TIMESTAMP") })
    );
    assert_eq!(
        parse("DROP TABLE t WITH (timeout = interval)"),
        Err(SqlError::InvalidOptionValue { key: s("timeout"), value: s("interval") })
    );
    let stmts = parse("DROP TABLE t WITH (wait = CASE)").unwrap();
    let Statement::DropTable(drop) = &stmts[0] else { unreachable!() };
    assert_eq!(drop.ddl_options.get("wait"), Some("CASE"));
}

#[test]
fn errors_leave_the_parser_where_they_were_found() {
    let word = |v: &str, kw: &str| SqlToken {
        kind: TokenKind::Word { value: s(v), quote_style: None, keyword: s(kw) },
        text: s(v),
    };
    let mut ctx = ParserContext::new(vec![word("DROP", "DROP"), word("INDEX", "INDEX"), word("foo", "NoKeyword")]);
    assert_eq!(ctx.parse_drop(), Err(SqlError::Unsupported { keyword: s("INDEX") }));
    assert_eq!(ctx.peek().text, "INDEX");
}

#[test]
fn drop_trigger_parses_like_view() {
    let word = |v: &str, kw: &str| SqlToken {
        kind: TokenKind::Word { value: s(v), quote_style: None, keyword: s(kw) },
        text: s(v),
    };
    let mut ctx = ParserContext::new(vec![
        word("TRIGGER", "TRIGGER"),
        word("IF", "IF"),
        word("EXISTS", "EXISTS"),
        word("Tr", "NoKeyword"),
    ]);
    assert_eq!(ctx.parse_drop_trigger(), Ok(DropTrigger::new(name(&["tr"]), true, OptionMap::default())));
    let mut ctx = ParserContext::new(vec![word("TRIGGER", "TRIGGER")]);
    assert_eq!(
        ctx.parse_drop_trigger(),
        Err(SqlError::Unexpected { expected: s("a trigger name"), actual: s("EOF") })
    );
}
