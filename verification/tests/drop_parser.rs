use greptime_sql::ast::{DropDatabase, DropFlow, DropTable, DropView, Ident, ObjectName, OptionMap, Statement};
use greptime_sql::error::SqlError;
use greptime_sql::parser::ParserContext;

fn name(parts: &[&str]) -> ObjectName {
    ObjectName::from_idents(parts.iter().map(|p| Ident::new(p)).collect())
}

fn parse(sql: &str) -> Result<Vec<Statement>, SqlError> {
    ParserContext::create_with_dialect(sql)
}

#[test]
pub fn test_drop_table() {
    let sql = "DROP TABLE foo";
    let result = parse(sql);
    let mut stmts = result.unwrap();
    assert_eq!(
        stmts.pop().unwrap(),
        Statement::DropTable(DropTable::new(vec![name(&["foo"])], false, OptionMap::default()))
    );

    let sql = "DROP TABLE IF EXISTS foo";
    let result = parse(sql);
    let mut stmts = result.unwrap();
    assert_eq!(
        stmts.pop().unwrap(),
        Statement::DropTable(DropTable::new(vec![name(&["foo"])], true, OptionMap::default()))
    );

    let sql = "DROP TABLE my_schema.foo";
    let result = parse(sql);
    let mut stmts = result.unwrap();
    assert_eq!(
        stmts.pop().unwrap(),
        Statement::DropTable(DropTable::new(
            vec![name(&["my_schema", "foo"])],
            false,
            OptionMap::default()
        ))
    );

    let sql = "DROP TABLE my_catalog.my_schema.foo";
    let result = parse(sql);
    let mut stmts = result.unwrap();
    assert_eq!(
        stmts.pop().unwrap(),
        Statement::DropTable(DropTable::new(
            vec![name(&["my_catalog", "my_schema", "foo"])],
            false,
            OptionMap::default()
        ))
    )
}

#[test]
pub fn test_drop_table_with_ddl_options() {
    let sql = "DROP TABLE foo WITH (timeout='1s', wait=false)";
    let mut stmts = parse(sql).unwrap();
    let Statement::DropTable(drop) = stmts.pop().unwrap() else {
        unreachable!()
    };
    assert_eq!(drop.ddl_options.get("timeout").unwrap(), "1s");
    assert_eq!(drop.ddl_options.get("wait").unwrap(), "false");

    parse("DROP TABLE foo WITH (unknown='x')").unwrap_err();
}

#[test]
pub fn test_drop_database() {
    let sql = "DROP DATABASE public";
    let result = parse(sql);
    let mut stmts = result.unwrap();
    assert_eq!(
        stmts.pop().unwrap(),
        Statement::DropDatabase(DropDatabase::new(name(&["public"]), false, OptionMap::default()))
    );

    let sql = "DROP DATABASE IF EXISTS public";
    let result = parse(sql);
    let mut stmts = result.unwrap();
    assert_eq!(
        stmts.pop().unwrap(),
        Statement::DropDatabase(DropDatabase::new(name(&["public"]), true, OptionMap::default()))
    );

    let sql = "DROP DATABASE `fOo`";
    let result = parse(sql);
    let mut stmts = result.unwrap();
    assert_eq!(
        stmts.pop().unwrap(),
        Statement::DropDatabase(DropDatabase::new(
            ObjectName::from_idents(vec![Ident::with_quote('`', "fOo")]),
            false,
            OptionMap::default()
        ))
    );
}

#[test]
pub fn test_drop_flow() {
    let sql = "DROP FLOW foo";
    let result = parse(sql);
    let mut stmts: Vec<Statement> = result.unwrap();
    assert_eq!(
        stmts.pop().unwrap(),
        Statement::DropFlow(DropFlow::new(name(&["foo"]), false, OptionMap::default()))
    );

    let sql = "DROP FLOW IF EXISTS foo";
    let result = parse(sql);
    let mut stmts = result.unwrap();
    assert_eq!(
        stmts.pop().unwrap(),
        Statement::DropFlow(DropFlow::new(name(&["foo"]), true, OptionMap::default()))
    );

    let sql = "DROP FLOW my_schema.foo";
    let result = parse(sql);
    let mut stmts = result.unwrap();
    assert_eq!(
        stmts.pop().unwrap(),
        Statement::DropFlow(DropFlow::new(name(&["my_schema", "foo"]), false, OptionMap::default()))
    );

    let sql = "DROP FLOW my_catalog.my_schema.foo";
    let result = parse(sql);
    let mut stmts = result.unwrap();
    assert_eq!(
        stmts.pop().unwrap(),
        Statement::DropFlow(DropFlow::new(
            name(&["my_catalog", "my_schema", "foo"]),
            false,
            OptionMap::default()
        ))
    )
}

#[test]
pub fn test_drop_view() {
    let sql = "DROP VIEW foo";
    let result = parse(sql);
    let mut stmts: Vec<Statement> = result.unwrap();
    let stmt = stmts.pop().unwrap();
    assert_eq!(
        stmt,
        Statement::DropView(DropView {
            view_name: name(&["foo"]),
            drop_if_exists: false,
            ddl_options: OptionMap::default(),
        })
    );
    assert_eq!(sql, stmt.to_sql());

    let sql = "DROP VIEW greptime.public.foo";
    let result = parse(sql);
    let mut stmts: Vec<Statement> = result.unwrap();
    let stmt = stmts.pop().unwrap();
    assert_eq!(
        stmt,
        Statement::DropView(DropView {
            view_name: name(&["greptime", "public", "foo"]),
            drop_if_exists: false,
            ddl_options: OptionMap::default(),
        })
    );
    assert_eq!(sql, stmt.to_sql());

    let sql = "DROP VIEW IF EXISTS foo";
    let result = parse(sql);
    let mut stmts: Vec<Statement> = result.unwrap();
    let stmt = stmts.pop().unwrap();
    assert_eq!(
        stmt,
        Statement::DropView(DropView {
            view_name: name(&["foo"]),
            drop_if_exists: true,
            ddl_options: OptionMap::default(),
        })
    );
    assert_eq!(sql, stmt.to_sql());
}
