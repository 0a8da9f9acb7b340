//! Takes the values out of SQL statements, for logs and traces that must hold no
//! secrets: quoted strings, numbers, `NULL`, `TRUE` and `FALSE` are replaced by
//! placeholders, lists of values and repeated rows are collapsed, and comments are
//! deleted, while keywords, identifiers and placeholders are kept.
//!
//! A statement is read into tokens that refer to its text ([`lex`]), the values are
//! taken out of the tokens in one pass ([`sanitize`]), and the tokens are written
//! back as text ([`write`]). [`sanitize_string`] does the three in a row. No
//! statement is refused: what is not recognised is kept as it is.

pub mod lexer;
pub mod pass;
pub mod round_trip;
pub mod sanitizer;
pub mod sanitizing;
pub mod scanning;
pub mod sql;
pub mod text;
pub mod token;
pub mod writer;

pub use crate::sql::{Sql, SqlView};
pub use crate::token::{
    ArithmeticOperator, BitwiseOperator, BufferSlice, ComparisonOperator, JsonOperator, Keyword,
    LiteralValueTypeIndicator, LogicalOperator, Operator, Token,
};

use crate::lexer::SqlLexer;
use crate::pass::{is_substitute, lemma_sanitized_text_unchanged, untouched};
use crate::round_trip::{lemma_round_trip, written_as_read};
use crate::sanitizer::SqlSanitizer;
use crate::sanitizing::sanitized;
use crate::scanning::{is_token_of, lex_text};
use crate::text::addressable;
use crate::writer::{render, SqlWriter};
use vstd::prelude::*;

verus! {

/// Reads a text into its tokens.
pub fn lex(buf: String) -> (sql: Sql)
    ensures
        sql@ == (SqlView { text: buf@, tokens: lex_text(buf@) }),
        addressable(buf@),
        forall|i: int|
            0 <= i < sql@.tokens.len() ==> is_token_of(sql@.text, #[trigger] sql@.tokens[i]),
{
    SqlLexer::new(buf).lex()
}

/// Writes the tokens back as one text. The tokens of a text, as they were read, are
/// written as that text if, and only if, each of them stands in the text the way the
/// writer writes it.
pub fn write(sql: Sql) -> (text: String)
    ensures
        text@ == render(sql@.text, sql@.tokens),
        addressable(sql@.text) && sql@.tokens == lex_text(sql@.text) ==> (text@ == sql@.text
            <==> written_as_read(sql@.text)),
{
    proof {
        if addressable(sql@.text) {
            lemma_round_trip(sql@.text);
        }
    }
    SqlWriter::new(sql).write()
}

/// Takes the values out of the tokens of a statement.
pub fn sanitize(sql: Sql) -> (sanitized_sql: Sql)
    ensures
        sanitized_sql@ == (SqlView { text: sql@.text, tokens: sanitized(sql@.tokens) }),
        sanitized_sql@.tokens.len() == sql@.tokens.len(),
        forall|i: int|
            0 <= i < sql@.tokens.len() ==> #[trigger] sanitized_sql@.tokens[i] == sql@.tokens[i]
                || is_substitute(sanitized_sql@.tokens[i]),
        forall|i: int|
            0 <= i < sql@.tokens.len() ==> !(#[trigger] sanitized_sql@.tokens[i] is Comment),
{
    SqlSanitizer::new(sql).sanitize()
}

/// The text of a statement without its values.
pub open spec fn sanitized_text(text: Seq<char>) -> Seq<char> {
    render(text, sanitized(lex_text(text)))
}

/// Reads a statement, takes its values out and writes it back. A statement that
/// stands the way the writer writes it, and in which the sanitizer finds nothing to
/// change, comes back as it is.
pub fn sanitize_string(buf: String) -> (text: String)
    ensures
        text@ == sanitized_text(buf@),
        written_as_read(buf@) && untouched(lex_text(buf@)) ==> text@ == buf@,
{
    let sql = lex(buf);
    proof {
        if written_as_read(buf@) && untouched(lex_text(buf@)) {
            lemma_sanitized_text_unchanged(buf@);
        }
    }
    write(sanitize(sql))
}

} // verus!
