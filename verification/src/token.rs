//! Tokens of SQL text, as produced by the `sqlparser` tokenizer, held as
//! plain values.

use sqlparser::dialect::GenericDialect;
use sqlparser::tokenizer::{Token, Tokenizer};
use vstd::prelude::*;

verus! {

/// The `sqlparser` token type, carried through opaquely.
#[verifier::external_type_specification]
#[verifier::external_body]
pub struct ExSqlparserToken(Token);

/// The kind of a token and the fields the parser reads from it.
#[derive(Debug)]
pub enum TokenKind {
    /// A keyword or an (optionally quoted) identifier. `keyword` is the name of
    /// the `sqlparser` keyword the word was recognised as (`NoKeyword` if none).
    Word { value: String, quote_style: Option<char>, keyword: String },
    /// An unsigned numeric literal; `long` marks a trailing `L`.
    Number { digits: String, long: bool },
    /// `'...'`
    SingleQuoted { value: String },
    /// `"..."`
    DoubleQuoted { value: String },
    Comma,
    Period,
    LParen,
    RParen,
    Eq,
    SemiColon,
    Whitespace,
    /// End of input.
    Eof,
    /// Any other token.
    Other,
}

/// A token with its kind and its SQL text (how the tokenizer displays it).
#[derive(Debug)]
pub struct SqlToken {
    pub kind: TokenKind,
    pub text: String,
}

/// Mathematical model of [`TokenKind`].
pub enum KindV {
    Word { value: Seq<char>, quote_style: Option<char>, keyword: Seq<char> },
    Number { digits: Seq<char>, long: bool },
    SingleQuoted { value: Seq<char> },
    DoubleQuoted { value: Seq<char> },
    Comma,
    Period,
    LParen,
    RParen,
    Eq,
    SemiColon,
    Whitespace,
    Eof,
    Other,
}

/// Mathematical model of [`SqlToken`].
pub struct TokenV {
    pub kind: KindV,
    pub text: Seq<char>,
}

impl View for TokenKind {
    type V = KindV;

    open spec fn view(&self) -> KindV {
        match self {
            TokenKind::Word { value, quote_style, keyword } => KindV::Word {
                value: value@,
                quote_style: *quote_style,
                keyword: keyword@,
            },
            TokenKind::Number { digits, long } => KindV::Number { digits: digits@, long: *long },
            TokenKind::SingleQuoted { value } => KindV::SingleQuoted { value: value@ },
            TokenKind::DoubleQuoted { value } => KindV::DoubleQuoted { value: value@ },
            TokenKind::Comma => KindV::Comma,
            TokenKind::Period => KindV::Period,
            TokenKind::LParen => KindV::LParen,
            TokenKind::RParen => KindV::RParen,
            TokenKind::Eq => KindV::Eq,
            TokenKind::SemiColon => KindV::SemiColon,
            TokenKind::Whitespace => KindV::Whitespace,
            TokenKind::Eof => KindV::Eof,
            TokenKind::Other => KindV::Other,
        }
    }
}

impl View for SqlToken {
    type V = TokenV;

    open spec fn view(&self) -> TokenV {
        TokenV { kind: self.kind@, text: self.text@ }
    }
}

/// The models of a sequence of tokens.
pub open spec fn tokens_view(v: Seq<SqlToken>) -> Seq<TokenV> {
    v.map_values(|t: SqlToken| t@)
}

/// The model of what tokenizing gives back.
pub open spec fn lex_result_view(r: Result<Vec<SqlToken>, String>) -> Result<Seq<TokenV>, Seq<char>> {
    match r {
        Ok(v) => Ok(tokens_view(v@)),
        Err(e) => Err(e@),
    }
}

/// What the `sqlparser` tokenizer (generic dialect) gives for a SQL text:
/// the tokens in order, or the message of its error.
pub uninterp spec fn spec_lex(sql: Seq<char>) -> Result<Seq<TokenV>, Seq<char>>;

impl SqlToken {
    /// Turns a `sqlparser` token into the library's token: the kind and its
    /// fields are moved over, the keyword is taken by its name, and the text is
    /// the token's `Display`.
    #[verifier::external_body]
    fn from_sqlparser(t: Token) -> SqlToken {
        let text = t.to_string();
        let kind = match t {
            Token::Word(w) => TokenKind::Word { value: w.value, quote_style: w.quote_style, keyword: format!("{:?}", w.keyword) },
            Token::Number(digits, long) => TokenKind::Number { digits, long },
            Token::SingleQuotedString(value) => TokenKind::SingleQuoted { value },
            Token::DoubleQuotedString(value) => TokenKind::DoubleQuoted { value },
            Token::Comma => TokenKind::Comma, Token::Period => TokenKind::Period,
            Token::LParen => TokenKind::LParen, Token::RParen => TokenKind::RParen,
            Token::Eq => TokenKind::Eq, Token::SemiColon => TokenKind::SemiColon,
            Token::Whitespace(_) => TokenKind::Whitespace, Token::EOF => TokenKind::Eof,
            _ => TokenKind::Other,
        };
        SqlToken { kind, text }
    }
}

/// Tokenizes `sql` with `sqlparser`'s `Tokenizer` under its generic dialect
/// (identifiers may be delimited by `"` or `` ` ``). The contract claims only
/// that the result is a function of the text: it is named `spec_lex`.
#[verifier::external_body]
pub(crate) fn lex(sql: &str) -> (res: Result<Vec<SqlToken>, String>)
    ensures
        lex_result_view(res) == spec_lex(sql@),
{
    match Tokenizer::new(&GenericDialect {}, sql).tokenize() {
        Ok(tokens) => Ok(tokens.into_iter().map(SqlToken::from_sqlparser).collect()),
        Err(e) => Err(e.to_string()),
    }
}

/// The tokens that are not whitespace, in order.
pub open spec fn significant(s: Seq<TokenV>) -> Seq<TokenV>
    decreases s.len(),
{
    if s.len() == 0 {
        Seq::empty()
    } else {
        let rest = significant(s.drop_last());
        if s.last().kind is Whitespace {
            rest
        } else {
            rest.push(s.last())
        }
    }
}

/// A copy of a token.
pub fn copy_token(t: &SqlToken) -> (res: SqlToken)
    ensures
        res@ == t@,
{
    let kind = match &t.kind {
        TokenKind::Word { value, quote_style, keyword } => TokenKind::Word {
            value: value.clone(),
            quote_style: *quote_style,
            keyword: keyword.clone(),
        },
        TokenKind::Number { digits, long } => TokenKind::Number { digits: digits.clone(), long: *long },
        TokenKind::SingleQuoted { value } => TokenKind::SingleQuoted { value: value.clone() },
        TokenKind::DoubleQuoted { value } => TokenKind::DoubleQuoted { value: value.clone() },
        TokenKind::Comma => TokenKind::Comma,
        TokenKind::Period => TokenKind::Period,
        TokenKind::LParen => TokenKind::LParen,
        TokenKind::RParen => TokenKind::RParen,
        TokenKind::Eq => TokenKind::Eq,
        TokenKind::SemiColon => TokenKind::SemiColon,
        TokenKind::Whitespace => TokenKind::Whitespace,
        TokenKind::Eof => TokenKind::Eof,
        TokenKind::Other => TokenKind::Other,
    };
    SqlToken { kind, text: t.text.clone() }
}

/// Drops the whitespace tokens, keeping the order of the others.
pub fn without_whitespace(tokens: &Vec<SqlToken>) -> (res: Vec<SqlToken>)
    ensures
        tokens_view(res@) == significant(tokens_view(tokens@)),
{
    let mut out: Vec<SqlToken> = Vec::new();
    let mut i: usize = 0;
    while i < tokens.len()
        invariant
            i <= tokens.len(),
            tokens_view(out@) == significant(tokens_view(tokens@).take(i as int)),
        decreases tokens.len() - i,
    {
        let ghost all = tokens_view(tokens@);
        assert(all.take(i + 1).drop_last() =~= all.take(i as int));
        assert(all.take(i + 1).last() == tokens[i as int]@);
        let is_space = match &tokens[i].kind {
            TokenKind::Whitespace => true,
            _ => false,
        };
        if !is_space {
            let t = copy_token(&tokens[i]);
            let ghost before = out@;
            out.push(t);
            assert(tokens_view(out@) =~= tokens_view(before).push(tokens[i as int]@));
        }
        i = i + 1;
    }
    assert(tokens_view(tokens@).take(tokens.len() as int) =~= tokens_view(tokens@));
    out
}

} // verus!
