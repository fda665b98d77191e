//! The parser state over significant tokens and the parts of the grammar that
//! every `DROP` statement shares: names, `IF EXISTS` and DDL options.

use crate::ast::{
    entries_map, idents_view, statements_view, Ident, IdentV, ObjectName, OptionMap, Statement,
    StatementV,
};
use crate::error::{SqlError, SqlErrorV};
use crate::grammar::{
    canon_ident, canon_name, eof_token, first_invalid_key, ident_of, is_ddl_option, is_expression_keyword, is_keyword,
    option_entries, option_value, spec_if_exists, spec_parse_canonical_name,
    spec_parse_ddl_options, spec_parse_object_name, spec_parse_option, spec_parse_option_list,
    spec_parse_options, step, syntax_error, tok_at,
};
use crate::text::{str_equals, string_of, to_lowercase};
use crate::token::{tokens_view, SqlToken, TokenKind, TokenV};
use vstd::prelude::*;

verus! {

/// A parser over the significant tokens of a SQL text.
pub struct ParserContext {
    tokens: Vec<SqlToken>,
    index: usize,
    eof: SqlToken,
}

/// The models of parsed options: each key with the token of its value.
pub open spec fn options_view(v: Seq<(Ident, SqlToken)>) -> Seq<(IdentV, TokenV)> {
    v.map_values(|p: (Ident, SqlToken)| (p.0@, p.1@))
}

/// The model of what parsing several statements gives.
pub open spec fn statements_result_view(r: Result<Vec<Statement>, SqlError>) -> Result<Seq<StatementV>, SqlErrorV> {
    match r {
        Ok(v) => Ok(statements_view(v@)),
        Err(e) => Err(e@),
    }
}

/// `res` is what `expected` says: the value or the error, with the parser at
/// the position `expected` gives for it.
pub open spec fn outcome<T: View, U>(res: Result<T, SqlError>, expected: Result<(T::V, U), (SqlErrorV, U)>, pos: U) -> bool {
    match expected {
        Ok((v, j)) => res matches Ok(r) && r@ == v && pos == j,
        Err((e, j)) => res matches Err(er) && er@ == e && pos == j,
    }
}

/// The identifier a token stands for.
fn ident_from(t: &SqlToken) -> (res: Option<Ident>)
    ensures
        match res {
            Some(id) => ident_of(t@) == Some(id@),
            None => ident_of(t@) is None,
        },
{
    match &t.kind {
        TokenKind::Word { value, quote_style, .. } => Some(Ident { value: value.clone(), quote_style: *quote_style }),
        TokenKind::SingleQuoted { value } => Some(Ident { value: value.clone(), quote_style: Some('\'') }),
        TokenKind::DoubleQuoted { value } => Some(Ident { value: value.clone(), quote_style: Some('"') }),
        _ => None,
    }
}

/// Whether a token is the keyword named `kw`.
pub fn is_keyword_token(t: &SqlToken, kw: &str) -> (res: bool)
    ensures
        res == is_keyword(t@, kw@),
{
    match &t.kind {
        TokenKind::Word { keyword, .. } => str_equals(keyword.as_str(), kw),
        _ => false,
    }
}

/// The syntax error for `expected` at token `t`.
fn syntax_err(expected: &str, t: &SqlToken) -> (res: SqlError)
    ensures
        res@ == syntax_error(expected@, t@),
{
    SqlError::Syntax { expected: string_of(expected), found: t.text.clone() }
}

/// Makes an identifier canonical: unquoted ones are lowercased.
pub fn canonicalize_identifier(id: &Ident) -> (res: Ident)
    ensures
        res@ == canon_ident(id@),
{
    match id.quote_style {
        None => Ident { value: to_lowercase(id.value.as_str()), quote_style: None },
        Some(q) => Ident { value: id.value.clone(), quote_style: Some(q) },
    }
}

/// Makes each identifier of a name canonical.
pub fn canonicalize_object_name(name: &ObjectName) -> (res: ObjectName)
    ensures
        res@ == canon_name(name@),
{
    let mut out: Vec<Ident> = Vec::new();
    let mut i: usize = 0;
    while i < name.0.len()
        invariant
            i <= name.0.len(),
            idents_view(out@) == canon_name(name@).take(i as int),
        decreases name.0.len() - i,
    {
        let id = canonicalize_identifier(&name.0[i]);
        let ghost before = out@;
        out.push(id);
        assert(idents_view(out@) =~= canon_name(name@).take(i + 1)) by {
            assert(idents_view(out@) =~= idents_view(before).push(id@));
        }
        i = i + 1;
    }
    assert(canon_name(name@).take(name.0.len() as int) =~= canon_name(name@));
    ObjectName(out)
}

/// The string an option value stands for.
fn option_value_of(t: &SqlToken) -> (res: Option<String>)
    ensures
        match res {
            Some(v) => option_value(t@) == Some(v@),
            None => option_value(t@) is None,
        },
{
    match &t.kind {
        TokenKind::SingleQuoted { value } => Some(value.clone()),
        TokenKind::DoubleQuoted { value } => Some(value.clone()),
        TokenKind::Number { .. } => Some(t.text.clone()),
        TokenKind::Word { value, keyword, .. } => {
            if str_equals(keyword.as_str(), "TRUE") {
                Some(string_of("true"))
            } else if str_equals(keyword.as_str(), "FALSE") {
                Some(string_of("false"))
            } else if is_expression_keyword_name(keyword.as_str()) {
                None
            } else {
                Some(value.clone())
            }
        },
        _ => None,
    }
}

/// Whether a keyword stands for an expression other than a name or a literal.
pub fn is_expression_keyword_name(k: &str) -> (res: bool)
    ensures
        res == is_expression_keyword(k@),
{
    str_equals(k, "NULL") || str_equals(k, "CURRENT_TIMESTAMP") || str_equals(k, "CURRENT_TIME")
        || str_equals(k, "CURRENT_DATE") || str_equals(k, "LOCALTIME") || str_equals(k, "LOCALTIMESTAMP")
        || str_equals(k, "CURRENT_CATALOG") || str_equals(k, "CURRENT_USER") || str_equals(k, "SESSION_USER")
        || str_equals(k, "USER") || str_equals(k, "EXISTS") || str_equals(k, "INTERVAL") || str_equals(k, "TRIM")
}

/// Whether `key` is an option of DDL statements.
pub fn is_ddl_option_key(key: &str) -> (res: bool)
    ensures
        res == is_ddl_option(key@),
{
    str_equals(key, "timeout") || str_equals(key, "wait")
}

/// An error found for a prefix of the options is the error for all of them.
proof fn lemma_option_entries_err(opts: Seq<(IdentV, TokenV)>, k: int)
    requires
        0 <= k <= opts.len(),
        option_entries(opts.take(k)) is Err,
    ensures
        option_entries(opts) == option_entries(opts.take(k)),
    decreases opts.len(),
{
    if k == opts.len() {
        assert(opts.take(k) =~= opts);
    } else {
        assert(opts.drop_last().take(k) =~= opts.take(k));
        lemma_option_entries_err(opts.drop_last(), k);
    }
}

/// An invalid key found in a prefix of the entries is the first one of all.
proof fn lemma_first_invalid_prefix(e: Seq<(Seq<char>, Seq<char>)>, k: int)
    requires
        0 <= k <= e.len(),
        first_invalid_key(e.take(k)) is Some,
    ensures
        first_invalid_key(e) == first_invalid_key(e.take(k)),
    decreases e.len(),
{
    if k == e.len() {
        assert(e.take(k) =~= e);
    } else {
        assert(e.drop_last().take(k) =~= e.take(k));
        lemma_first_invalid_prefix(e.drop_last(), k);
    }
}

/// The DDL options map from parsed options: values converted, keys lowercased
/// and checked.
pub fn ddl_options_from(opts: &Vec<(Ident, SqlToken)>) -> (res: Result<OptionMap, SqlError>)
    ensures
        match option_entries(options_view(opts@)) {
            Err(e) => res matches Err(er) && er@ == e,
            Ok(entries) => match first_invalid_key(entries) {
                Some(key) => res matches Err(er) && er@ == (SqlErrorV::InvalidOption { key }),
                None => res matches Ok(m) && m@ == entries_map(entries),
            },
        },
{
    let ghost ov = options_view(opts@);
    let mut keys: Vec<String> = Vec::new();
    let mut values: Vec<String> = Vec::new();
    let mut i: usize = 0;
    while i < opts.len()
        invariant
            i <= opts.len(),
            ov == options_view(opts@),
            keys.len() == i,
            values.len() == i,
            option_entries(ov.take(i as int)) matches Ok(prev) && prev.len() == i && (forall|j: int|
                0 <= j < i ==> #[trigger] prev[j] == (keys@[j]@, values@[j]@)),
        decreases opts.len() - i,
    {
        assert(ov.take(i + 1).drop_last() =~= ov.take(i as int));
        assert(ov.take(i + 1).last() == ov[i as int]);
        let (key, t) = (&opts[i].0, &opts[i].1);
        match option_value_of(t) {
            None => {
                proof {
                    lemma_option_entries_err(ov, i + 1);
                }
                return Err(SqlError::InvalidOptionValue { key: key.value.clone(), value: t.text.clone() });
            },
            Some(v) => {
                keys.push(to_lowercase(key.value.as_str()));
                values.push(v);
            },
        }
        i = i + 1;
    }
    assert(ov.take(opts.len() as int) =~= ov);
    let ghost entries = option_entries(ov)->Ok_0;
    let mut i: usize = 0;
    while i < keys.len()
        invariant
            i <= keys.len(),
            keys.len() == values.len(),
            entries.len() == keys.len(),
            forall|j: int| 0 <= j < keys.len() ==> #[trigger] entries[j] == (keys@[j]@, values@[j]@),
            first_invalid_key(entries.take(i as int)) is None,
            option_entries(options_view(opts@)) == Ok::<Seq<(Seq<char>, Seq<char>)>, SqlErrorV>(entries),
        decreases keys.len() - i,
    {
        assert(entries.take(i + 1).drop_last() =~= entries.take(i as int));
        assert(entries[i as int] == (keys@[i as int]@, values@[i as int]@));
        assert(entries.take(i + 1).last() == entries[i as int]);
        if !is_ddl_option_key(keys[i].as_str()) {
            proof {
                assert(first_invalid_key(entries.take(i + 1)) == Some(keys@[i as int]@));
                lemma_first_invalid_prefix(entries, i + 1);
            }
            return Err(SqlError::InvalidOption { key: keys[i].clone() });
        }
        i = i + 1;
    }
    assert(entries.take(keys.len() as int) =~= entries);
    let mut map = OptionMap::new();
    let mut i: usize = 0;
    while i < keys.len()
        invariant
            i <= keys.len(),
            keys.len() == values.len(),
            entries.len() == keys.len(),
            forall|j: int| 0 <= j < keys.len() ==> #[trigger] entries[j] == (keys@[j]@, values@[j]@),
            map@ == entries_map(entries.take(i as int)),
            first_invalid_key(entries) is None,
            option_entries(options_view(opts@)) == Ok::<Seq<(Seq<char>, Seq<char>)>, SqlErrorV>(entries),
        decreases keys.len() - i,
    {
        assert(entries.take(i + 1).drop_last() =~= entries.take(i as int));
        assert(entries[i as int] == (keys@[i as int]@, values@[i as int]@));
        map.insert(keys[i].clone(), values[i].clone());
        i = i + 1;
    }
    assert(entries.take(keys.len() as int) =~= entries);
    Ok(map)
}

impl ParserContext {
    /// The significant tokens.
    pub closed spec fn toks(&self) -> Seq<TokenV> {
        tokens_view(self.tokens@)
    }

    /// The position of the next token.
    pub closed spec fn pos(&self) -> int {
        self.index as int
    }

    /// The position lies within the tokens.
    pub closed spec fn wf(&self) -> bool {
        &&& self.index <= self.tokens.len()
        &&& self.eof@ == eof_token()
    }

    /// The position lies between the start and the end of the tokens.
    pub proof fn lemma_pos_in_range(&self)
        requires
            self.wf(),
        ensures
            0 <= self.pos() <= self.toks().len(),
    {
    }

    /// A parser at the start of `tokens`.
    pub fn new(tokens: Vec<SqlToken>) -> (res: ParserContext)
        ensures
            res.wf(),
            res.toks() == tokens_view(tokens@),
            res.pos() == 0,
    {
        ParserContext { tokens, index: 0, eof: SqlToken { kind: TokenKind::Eof, text: string_of("EOF") } }
    }

    /// The next token (the end of input past the last one).
    pub fn peek(&self) -> (res: &SqlToken)
        requires
            self.wf(),
        ensures
            res@ == tok_at(self.toks(), self.pos()),
    {
        if self.index < self.tokens.len() {
            &self.tokens[self.index]
        } else {
            &self.eof
        }
    }

    /// The token after the next one.
    fn peek_second(&self) -> (res: &SqlToken)
        requires
            self.wf(),
        ensures
            res@ == tok_at(self.toks(), self.pos() + 1),
    {
        if self.tokens.len() - self.index > 1 {
            &self.tokens[self.index + 1]
        } else {
            &self.eof
        }
    }

    /// The token two after the next one.
    fn peek_third(&self) -> (res: &SqlToken)
        requires
            self.wf(),
        ensures
            res@ == tok_at(self.toks(), self.pos() + 2),
    {
        if self.tokens.len() - self.index > 2 {
            &self.tokens[self.index + 2]
        } else {
            &self.eof
        }
    }

    /// Takes the next token.
    pub fn advance(&mut self)
        requires
            old(self).wf(),
        ensures
            final(self).wf(),
            final(self).toks() == old(self).toks(),
            final(self).pos() == step(old(self).toks(), old(self).pos()),
    {
        if self.index < self.tokens.len() {
            self.index = self.index + 1;
        }
    }

    /// The text of the next token.
    pub fn peek_token_as_string(&self) -> (res: String)
        requires
            self.wf(),
        ensures
            res@ == tok_at(self.toks(), self.pos()).text,
    {
        self.peek().text.clone()
    }

    /// Takes `IF EXISTS` if it comes next, and tells whether it did.
    pub fn parse_if_exists(&mut self) -> (res: bool)
        requires
            old(self).wf(),
        ensures
            final(self).wf(),
            final(self).toks() == old(self).toks(),
            (res, final(self).pos()) == spec_if_exists(old(self).toks(), old(self).pos()),
    {
        if is_keyword_token(self.peek(), "IF") && is_keyword_token(self.peek_second(), "EXISTS") {
            self.index = self.index + 2;
            true
        } else {
            false
        }
    }

    /// Parses a name `ident [. ident]*`. On failure the parser stands after
    /// the token that is no identifier.
    pub fn parse_object_name(&mut self) -> (res: Result<ObjectName, ()>)
        requires
            old(self).wf(),
        ensures
            final(self).wf(),
            final(self).toks() == old(self).toks(),
            match spec_parse_object_name(old(self).toks(), old(self).pos()) {
                Ok((n, j)) => res matches Ok(name) && name@ == n && final(self).pos() == j,
                Err(j) => res is Err && final(self).pos() == j,
            },
    {
        let ghost s = self.toks();
        let ghost start = self.pos();
        let mut idents: Vec<Ident> = Vec::new();
        loop
            invariant
                self.wf(),
                self.toks() == s,
                s == old(self).toks(),
                start == old(self).pos(),
                match spec_parse_object_name(s, self.pos()) {
                    Ok((rest, j)) => spec_parse_object_name(s, start) == Ok::<(Seq<IdentV>, int), int>((idents_view(idents@) + rest, j)),
                    Err(j) => spec_parse_object_name(s, start) == Err::<(Seq<IdentV>, int), int>(j),
                },
            decreases s.len() - self.pos(),
        {
            match ident_from(self.peek()) {
                None => {
                    self.advance();
                    return Err(());
                },
                Some(id) => {
                    let ghost before = idents@;
                    idents.push(id);
                    assert(idents_view(idents@) =~= idents_view(before) + seq![id@]);
                    let period = match &self.peek_second().kind {
                        TokenKind::Period => true,
                        _ => false,
                    };
                    if period {
                        proof {
                            match spec_parse_object_name(s, self.pos() + 2) {
                                Ok((rest, j)) => {
                                    assert(idents_view(before) + (seq![id@] + rest) =~= idents_view(idents@) + rest);
                                },
                                Err(j) => {},
                            }
                        }
                        self.index = self.index + 2;
                    } else {
                        self.index = self.index + 1;
                        assert(idents_view(idents@) =~= idents_view(before) + seq![id@]);
                        return Ok(ObjectName(idents));
                    }
                },
            }
        }
    }

    /// Parses one `key = value` option.
    fn parse_option(&mut self) -> (res: Result<(Ident, SqlToken), SqlError>)
        requires
            old(self).wf(),
        ensures
            final(self).wf(),
            final(self).toks() == old(self).toks(),
            match spec_parse_option(old(self).toks(), old(self).pos()) {
                Ok((k, v)) => res matches Ok(p) && p.0@ == k && p.1@ == v && final(self).pos() == old(self).pos() + 3,
                Err((e, j)) => res matches Err(er) && er@ == e && final(self).pos() == j,
            },
    {
        let key = match ident_from(self.peek()) {
            Some(k) => k,
            None => {
                let e = syntax_err("identifier", self.peek());
                self.advance();
                return Err(e);
            },
        };
        let is_eq = match &self.peek_second().kind {
            TokenKind::Eq => true,
            _ => false,
        };
        if !is_eq {
            let e = syntax_err("=", self.peek_second());
            self.index = self.index + 1;
            return Err(e);
        }
        let is_value = match &self.peek_third().kind {
            TokenKind::Word { .. } => true,
            TokenKind::Number { .. } => true,
            TokenKind::SingleQuoted { .. } => true,
            TokenKind::DoubleQuoted { .. } => true,
            _ => false,
        };
        if !is_value {
            let e = syntax_err("an expression", self.peek_third());
            self.index = self.index + 2;
            self.advance();
            return Err(e);
        }
        let value = crate::token::copy_token(self.peek_third());
        self.index = self.index + 3;
        Ok((key, value))
    }

    /// Parses `[WITH ( [option [, option]*] )]`.
    pub fn parse_options(&mut self) -> (res: Result<Vec<(Ident, SqlToken)>, SqlError>)
        requires
            old(self).wf(),
        ensures
            final(self).wf(),
            final(self).toks() == old(self).toks(),
            match spec_parse_options(old(self).toks(), old(self).pos()) {
                Ok((opts, j)) => res matches Ok(v) && options_view(v@) == opts && final(self).pos() == j,
                Err((e, j)) => res matches Err(er) && er@ == e && final(self).pos() == j,
            },
    {
        let ghost s = self.toks();
        let mut opts: Vec<(Ident, SqlToken)> = Vec::new();
        if !is_keyword_token(self.peek(), "WITH") {
            assert(options_view(opts@) =~= Seq::empty());
            return Ok(opts);
        }
        let is_lparen = match &self.peek_second().kind {
            TokenKind::LParen => true,
            _ => false,
        };
        if !is_lparen {
            let e = syntax_err("(", self.peek_second());
            self.index = self.index + 1;
            return Err(e);
        }
        let is_rparen = match &self.peek_third().kind {
            TokenKind::RParen => true,
            _ => false,
        };
        if is_rparen {
            self.index = self.index + 3;
            assert(options_view(opts@) =~= Seq::empty());
            return Ok(opts);
        }
        self.index = self.index + 2;
        let ghost start = self.pos();
        loop
            invariant
                self.wf(),
                self.toks() == s,
                s == old(self).toks(),
                start == old(self).pos() + 2,
                is_keyword(tok_at(s, old(self).pos()), "WITH"@),
                tok_at(s, old(self).pos() + 1).kind is LParen,
                !(tok_at(s, old(self).pos() + 2).kind is RParen),
                start <= self.pos(),
                match spec_parse_option_list(s, self.pos()) {
                    Ok((rest, j)) => spec_parse_option_list(s, start) == Ok::<(Seq<(IdentV, TokenV)>, int), (SqlErrorV, int)>((options_view(opts@) + rest, j)),
                    Err(e) => spec_parse_option_list(s, start) == Err::<(Seq<(IdentV, TokenV)>, int), (SqlErrorV, int)>(e),
                },
            decreases s.len() - self.pos(),
        {
            let ghost p = self.pos();
            let opt = match self.parse_option() {
                Ok(o) => o,
                Err(e) => {
                    return Err(e);
                },
            };
            let ghost ov = (opt.0@, opt.1@);
            let ghost before = opts@;
            opts.push(opt);
            assert(options_view(opts@) =~= options_view(before) + seq![ov]);
            let is_comma = match &self.peek().kind {
                TokenKind::Comma => true,
                _ => false,
            };
            if is_comma {
                proof {
                    match spec_parse_option_list(s, p + 4) {
                        Ok((rest, j)) => {
                            assert(options_view(before) + (seq![ov] + rest) =~= options_view(opts@) + rest);
                        },
                        Err(e) => {},
                    }
                }
                self.index = self.index + 1;
            } else {
                assert(options_view(opts@) =~= options_view(before) + seq![ov]);
                assert(spec_parse_option_list(s, start) == Ok::<(Seq<(IdentV, TokenV)>, int), (SqlErrorV, int)>((options_view(opts@), self.pos())));
                let is_rparen = match &self.peek().kind {
                    TokenKind::RParen => true,
                    _ => false,
                };
                if !is_rparen {
                    return Err(syntax_err(")", self.peek()));
                }
                self.index = self.index + 1;
                return Ok(opts);
            }
        }
    }

    /// Parses the DDL options of a statement: `WITH (...)` whose keys, made
    /// lowercase, must be `timeout` or `wait` and whose values must be literals.
    pub fn parse_ddl_with_options(&mut self) -> (res: Result<OptionMap, SqlError>)
        requires
            old(self).wf(),
        ensures
            final(self).wf(),
            final(self).toks() == old(self).toks(),
            outcome(res, spec_parse_ddl_options(old(self).toks(), old(self).pos()), final(self).pos()),
    {
        let opts = match self.parse_options() {
            Ok(o) => o,
            Err(e) => {
                return Err(e);
            },
        };
        ddl_options_from(&opts)
    }

    /// Parses a name and makes it canonical; `what` names what was expected
    /// in the error.
    pub fn parse_canonical_name(&mut self, what: &str) -> (res: Result<ObjectName, SqlError>)
        requires
            old(self).wf(),
        ensures
            final(self).wf(),
            final(self).toks() == old(self).toks(),
            outcome(res, spec_parse_canonical_name(old(self).toks(), old(self).pos(), what@), final(self).pos()),
    {
        match self.parse_object_name() {
            Ok(raw) => Ok(canonicalize_object_name(&raw)),
            Err(()) => Err(SqlError::Unexpected { expected: string_of(what), actual: self.peek_token_as_string() }),
        }
    }
}

} // verus!
