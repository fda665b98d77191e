//! `DROP` statements: tables, views, flows and databases.

use crate::ast::{
    names_view, statements_view, DropDatabase, DropFlow, DropTable, DropTrigger, DropView, IdentV, ObjectName,
    Statement, StatementV,
};
use crate::error::{SqlError, SqlErrorV};
use crate::grammar::{
    lemma_object_name_range, lemma_statement_range, spec_if_exists, spec_parse_drop,
    spec_parse_drop_database, spec_parse_drop_flow, spec_parse_drop_table, spec_parse_drop_trigger,
    spec_parse_drop_view,
    spec_parse_sql, spec_parse_statement, spec_parse_statements, spec_parse_table_names, step,
};
use crate::parser::{is_keyword_token, outcome, statements_result_view, ParserContext};
use crate::text::{str_equals, to_uppercase};
use crate::token::{lex, spec_lex, without_whitespace, TokenKind};
use vstd::prelude::*;

verus! {

impl ParserContext {
    /// Parses a `DROP` statement; the next token is taken as `DROP`. An
    /// object kind that is not supported fails with only `DROP` taken.
    pub fn parse_drop(&mut self) -> (res: Result<Statement, SqlError>)
        requires
            old(self).wf(),
        ensures
            final(self).wf(),
            final(self).toks() == old(self).toks(),
            outcome(res, spec_parse_drop(old(self).toks(), old(self).pos()), final(self).pos()),
    {
        self.advance();
        let t = self.peek();
        match &t.kind {
            TokenKind::Word { value, keyword, .. } => {
                if str_equals(keyword.as_str(), "TABLE") {
                    self.parse_drop_table()
                } else if str_equals(keyword.as_str(), "VIEW") {
                    self.parse_drop_view()
                } else if str_equals(keyword.as_str(), "SCHEMA") || str_equals(keyword.as_str(), "DATABASE") {
                    self.parse_drop_database()
                } else if str_equals(keyword.as_str(), "NoKeyword") && str_equals(to_uppercase(value.as_str()).as_str(), "FLOW") {
                    self.parse_drop_flow()
                } else {
                    Err(SqlError::Unsupported { keyword: t.text.clone() })
                }
            },
            _ => Err(SqlError::Unsupported { keyword: t.text.clone() }),
        }
    }

    /// Parses `VIEW [IF EXISTS] name [WITH (...)]`.
    pub fn parse_drop_view(&mut self) -> (res: Result<Statement, SqlError>)
        requires
            old(self).wf(),
        ensures
            final(self).wf(),
            final(self).toks() == old(self).toks(),
            outcome(res, spec_parse_drop_view(old(self).toks(), old(self).pos()), final(self).pos()),
    {
        self.advance();
        let if_exists = self.parse_if_exists();
        let ghost p = self.pos();
        let view_name = match self.parse_canonical_name("a view name") {
            Ok(n) => n,
            Err(e) => {
                return Err(e);
            },
        };
        proof {
            lemma_object_name_range(self.toks(), p);
        }
        if view_name.0.len() == 0 {
            return Err(SqlError::InvalidTableName { name: view_name.to_sql() });
        }
        let ddl_options = match self.parse_ddl_with_options() {
            Ok(o) => o,
            Err(e) => {
                return Err(e);
            },
        };
        Ok(Statement::DropView(DropView { view_name, drop_if_exists: if_exists, ddl_options }))
    }

    /// Parses `TRIGGER [IF EXISTS] name [WITH (...)]`. `parse_drop` does not
    /// lead here: dropping triggers is not offered by this parser's `DROP`.
    pub fn parse_drop_trigger(&mut self) -> (res: Result<DropTrigger, SqlError>)
        requires
            old(self).wf(),
        ensures
            final(self).wf(),
            final(self).toks() == old(self).toks(),
            outcome(res, spec_parse_drop_trigger(old(self).toks(), old(self).pos()), final(self).pos()),
    {
        self.advance();
        let if_exists = self.parse_if_exists();
        let ghost p = self.pos();
        let trigger_name = match self.parse_canonical_name("a trigger name") {
            Ok(n) => n,
            Err(e) => {
                return Err(e);
            },
        };
        proof {
            lemma_object_name_range(self.toks(), p);
        }
        if trigger_name.0.len() == 0 {
            return Err(SqlError::InvalidTriggerName { name: trigger_name.to_sql() });
        }
        let ddl_options = match self.parse_ddl_with_options() {
            Ok(o) => o,
            Err(e) => {
                return Err(e);
            },
        };
        Ok(DropTrigger::new(trigger_name, if_exists, ddl_options))
    }

    /// Parses `FLOW [IF EXISTS] name [WITH (...)]`.
    pub fn parse_drop_flow(&mut self) -> (res: Result<Statement, SqlError>)
        requires
            old(self).wf(),
        ensures
            final(self).wf(),
            final(self).toks() == old(self).toks(),
            outcome(res, spec_parse_drop_flow(old(self).toks(), old(self).pos()), final(self).pos()),
    {
        self.advance();
        let if_exists = self.parse_if_exists();
        let ghost p = self.pos();
        let flow_name = match self.parse_canonical_name("a flow name") {
            Ok(n) => n,
            Err(e) => {
                return Err(e);
            },
        };
        proof {
            lemma_object_name_range(self.toks(), p);
        }
        if flow_name.0.len() == 0 {
            return Err(SqlError::InvalidFlowName { name: flow_name.to_sql() });
        }
        let ddl_options = match self.parse_ddl_with_options() {
            Ok(o) => o,
            Err(e) => {
                return Err(e);
            },
        };
        Ok(Statement::DropFlow(DropFlow::new(flow_name, if_exists, ddl_options)))
    }

    /// Parses `DATABASE | SCHEMA [IF EXISTS] name [WITH (...)]`.
    pub fn parse_drop_database(&mut self) -> (res: Result<Statement, SqlError>)
        requires
            old(self).wf(),
        ensures
            final(self).wf(),
            final(self).toks() == old(self).toks(),
            outcome(res, spec_parse_drop_database(old(self).toks(), old(self).pos()), final(self).pos()),
    {
        self.advance();
        let if_exists = self.parse_if_exists();
        let database_name = match self.parse_canonical_name("a database name") {
            Ok(n) => n,
            Err(e) => {
                return Err(e);
            },
        };
        let ddl_options = match self.parse_ddl_with_options() {
            Ok(o) => o,
            Err(e) => {
                return Err(e);
            },
        };
        Ok(Statement::DropDatabase(DropDatabase::new(database_name, if_exists, ddl_options)))
    }

    /// Parses `TABLE [IF EXISTS] name [, name]* [WITH (...)]`.
    pub fn parse_drop_table(&mut self) -> (res: Result<Statement, SqlError>)
        requires
            old(self).wf(),
        ensures
            final(self).wf(),
            final(self).toks() == old(self).toks(),
            outcome(res, spec_parse_drop_table(old(self).toks(), old(self).pos()), final(self).pos()),
    {
        self.advance();
        let if_exists = self.parse_if_exists();
        let ghost s = self.toks();
        let ghost start = self.pos();
        proof {
            self.lemma_pos_in_range();
        }
        let mut table_names: Vec<ObjectName> = Vec::new();
        loop
            invariant
                self.wf(),
                self.toks() == s,
                s == old(self).toks(),
                start == spec_if_exists(s, step(s, old(self).pos())).1,
                if_exists == spec_if_exists(s, step(s, old(self).pos())).0,
                0 <= self.pos(),
                match spec_parse_table_names(s, self.pos()) {
                    Ok((rest, j)) => spec_parse_table_names(s, start) == Ok::<(Seq<Seq<IdentV>>, int), (SqlErrorV, int)>((names_view(table_names@) + rest, j)),
                    Err(e) => spec_parse_table_names(s, start) == Err::<(Seq<Seq<IdentV>>, int), (SqlErrorV, int)>(e),
                },
            decreases s.len() - self.pos(),
        {
            let ghost p = self.pos();
            let table_name = match self.parse_canonical_name("a table name") {
                Ok(n) => n,
                Err(e) => {
                    return Err(e);
                },
            };
            proof {
                lemma_object_name_range(s, p);
            }
            if table_name.0.len() == 0 {
                return Err(SqlError::InvalidTableName { name: table_name.to_sql() });
            }
            let ghost before = table_names@;
            let ghost nv = table_name@;
            table_names.push(table_name);
            assert(names_view(table_names@) =~= names_view(before) + seq![nv]);
            let is_comma = match &self.peek().kind {
                TokenKind::Comma => true,
                _ => false,
            };
            if is_comma {
                proof {
                    match spec_parse_table_names(s, self.pos() + 1) {
                        Ok((rest, j)) => {
                            assert(names_view(before) + (seq![nv] + rest) =~= names_view(table_names@) + rest);
                        },
                        Err(e) => {},
                    }
                }
                self.advance();
            } else {
                assert(spec_parse_table_names(s, start) == Ok::<(Seq<Seq<IdentV>>, int), (SqlErrorV, int)>((names_view(table_names@), self.pos())));
                let ddl_options = match self.parse_ddl_with_options() {
                    Ok(o) => o,
                    Err(e) => {
                        return Err(e);
                    },
                };
                return Ok(Statement::DropTable(DropTable::new(table_names, if_exists, ddl_options)));
            }
        }
    }

    /// Parses one statement; only `DROP` statements are supported.
    pub fn parse_statement(&mut self) -> (res: Result<Statement, SqlError>)
        requires
            old(self).wf(),
        ensures
            final(self).wf(),
            final(self).toks() == old(self).toks(),
            outcome(res, spec_parse_statement(old(self).toks(), old(self).pos()), final(self).pos()),
    {
        if is_keyword_token(self.peek(), "DROP") {
            self.parse_drop()
        } else {
            Err(SqlError::Unsupported { keyword: self.peek_token_as_string() })
        }
    }

    /// Parses statements separated by semicolons until the end of input.
    pub fn parse_statements(&mut self) -> (res: Result<Vec<Statement>, SqlError>)
        requires
            old(self).wf(),
        ensures
            statements_result_view(res) == spec_parse_statements(old(self).toks(), old(self).pos(), false),
    {
        let ghost s = self.toks();
        let ghost start = self.pos();
        proof {
            self.lemma_pos_in_range();
        }
        let mut stmts: Vec<Statement> = Vec::new();
        let mut expecting_delimiter = false;
        loop
            invariant
                self.wf(),
                self.toks() == s,
                s == old(self).toks(),
                start == old(self).pos(),
                0 <= self.pos() <= s.len(),
                match spec_parse_statements(s, self.pos(), expecting_delimiter) {
                    Ok(rest) => spec_parse_statements(s, start, false) == Ok::<Seq<StatementV>, SqlErrorV>(statements_view(stmts@) + rest),
                    Err(e) => spec_parse_statements(s, start, false) == Err::<Seq<StatementV>, SqlErrorV>(e),
                },
            decreases s.len() - self.pos(),
        {
            let kind_is_semi = match &self.peek().kind {
                TokenKind::SemiColon => true,
                _ => false,
            };
            let kind_is_eof = match &self.peek().kind {
                TokenKind::Eof => true,
                _ => false,
            };
            if kind_is_semi {
                self.advance();
                expecting_delimiter = false;
            } else if kind_is_eof {
                assert(statements_view(stmts@) + Seq::<StatementV>::empty() =~= statements_view(stmts@));
                return Ok(stmts);
            } else if expecting_delimiter {
                return Err(SqlError::Unsupported { keyword: self.peek_token_as_string() });
            } else {
                let ghost p = self.pos();
                let stmt = match self.parse_statement() {
                    Ok(st) => st,
                    Err(e) => {
                        return Err(e);
                    },
                };
                proof {
                    lemma_statement_range(s, p);
                }
                let ghost before = stmts@;
                let ghost sv = stmt@;
                stmts.push(stmt);
                proof {
                    match spec_parse_statements(s, self.pos(), true) {
                        Ok(rest) => {
                            assert(statements_view(stmts@) =~= statements_view(before) + seq![sv]);
                            assert(statements_view(before) + (seq![sv] + rest) =~= statements_view(stmts@) + rest);
                        },
                        Err(e) => {},
                    }
                }
                expecting_delimiter = true;
            }
        }
    }

    /// Parses a SQL text made of `DROP` statements separated by semicolons;
    /// unquoted names are lowercased. The text is tokenized by `sqlparser`
    /// under its generic dialect: identifiers start with a letter, `_`, `#` or
    /// `@`, and `"` or a backtick delimits a quoted one. There is no dialect
    /// parameter; the GreptimeDB dialect itself is not available here.
    pub fn create_with_dialect(sql: &str) -> (res: Result<Vec<Statement>, SqlError>)
        ensures
            statements_result_view(res) == spec_parse_sql(spec_lex(sql@)),
    {
        let tokens = match lex(sql) {
            Ok(t) => t,
            Err(message) => {
                return Err(SqlError::Tokenize { message });
            },
        };
        let significant = without_whitespace(&tokens);
        let mut ctx = ParserContext::new(significant);
        ctx.parse_statements()
    }
}

} // verus!
