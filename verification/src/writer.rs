//! The writer: turns tokens back into text.

use crate::sql::Sql;
use crate::text::slice_text;
use crate::token::{
    ArithmeticOperator, BitwiseOperator, ComparisonOperator, JsonOperator, Keyword,
    LiteralValueTypeIndicator, LogicalOperator, Operator, Token,
};
use vstd::prelude::*;
use vstd::string::*;

verus! {

/// Taken on trust: `String::push` appends the character at the end of the string.
pub assume_specification[ String::push ](s: &mut String, c: char)
    ensures
        final(s)@ == old(s)@.push(c),
;

/// The text of a token that is written the same way wherever it stands.
pub open spec fn fixed_text(token: Token) -> Option<Seq<char>> {
    match token {
        Token::Operator(Operator::Arithmetic(ArithmeticOperator::Multiply)) => Some("*"@),
        Token::Operator(Operator::Arithmetic(ArithmeticOperator::Divide)) => Some("/"@),
        Token::Operator(Operator::Arithmetic(ArithmeticOperator::Modulo)) => Some("%"@),
        Token::Operator(Operator::Arithmetic(ArithmeticOperator::Plus)) => Some("+"@),
        Token::Operator(Operator::Arithmetic(ArithmeticOperator::Minus)) => Some("-"@),
        Token::Operator(Operator::Logical(LogicalOperator::In)) => Some("IN"@),
        Token::Operator(Operator::Logical(LogicalOperator::Not)) => Some("NOT"@),
        Token::Operator(Operator::Logical(LogicalOperator::Like)) => Some("LIKE"@),
        Token::Operator(Operator::Logical(LogicalOperator::Ilike)) => Some("ILIKE"@),
        Token::Operator(Operator::Logical(LogicalOperator::Rlike)) => Some("RLIKE"@),
        Token::Operator(Operator::Logical(LogicalOperator::Glob)) => Some("GLOB"@),
        Token::Operator(Operator::Logical(LogicalOperator::Match)) => Some("MATCH"@),
        Token::Operator(Operator::Logical(LogicalOperator::Regexp)) => Some("REGEXP"@),
        Token::Operator(Operator::Logical(LogicalOperator::Then)) => Some("THEN"@),
        Token::Operator(Operator::Logical(LogicalOperator::Else)) => Some("ELSE"@),
        Token::Operator(Operator::Comparison(ComparisonOperator::Equal)) => Some("="@),
        Token::Operator(Operator::Comparison(ComparisonOperator::Equal2)) => Some("=="@),
        Token::Operator(Operator::Comparison(ComparisonOperator::NullSafeEqual)) => Some("<=>"@),
        Token::Operator(Operator::Comparison(ComparisonOperator::GreaterThanOrEqual)) => Some(
            ">="@,
        ),
        Token::Operator(Operator::Comparison(ComparisonOperator::LessThanOrEqual)) => Some("<="@),
        Token::Operator(Operator::Comparison(ComparisonOperator::EqualOrGreaterThan)) => Some(
            "=>"@,
        ),
        Token::Operator(Operator::Comparison(ComparisonOperator::EqualOrLessThan)) => Some("=<"@),
        Token::Operator(Operator::Comparison(ComparisonOperator::EqualWithArrows)) => Some("<>"@),
        Token::Operator(Operator::Comparison(ComparisonOperator::NotEqual)) => Some("!="@),
        Token::Operator(Operator::Comparison(ComparisonOperator::GreaterThan)) => Some(">"@),
        Token::Operator(Operator::Comparison(ComparisonOperator::LessThan)) => Some("<"@),
        Token::Operator(Operator::Bitwise(BitwiseOperator::LeftShift)) => Some("<<"@),
        Token::Operator(Operator::Bitwise(BitwiseOperator::RightShift)) => Some(">>"@),
        Token::Operator(Operator::Bitwise(BitwiseOperator::And)) => Some("&"@),
        Token::Operator(Operator::Bitwise(BitwiseOperator::Or)) => Some("|"@),
        Token::Operator(Operator::Json(JsonOperator::SpecifiedPath)) => Some("#>"@),
        Token::Operator(Operator::Json(JsonOperator::SpecifiedPathAsText)) => Some("#>>"@),
        Token::Keyword(Keyword::Select) => Some("SELECT"@),
        Token::Keyword(Keyword::From) => Some("FROM"@),
        Token::Keyword(Keyword::Where) => Some("WHERE"@),
        Token::Keyword(Keyword::And) => Some("AND"@),
        Token::Keyword(Keyword::Or) => Some("OR"@),
        Token::Keyword(Keyword::Update) => Some("UPDATE"@),
        Token::Keyword(Keyword::SetClause) => Some("SET"@),
        Token::Keyword(Keyword::Insert) => Some("INSERT"@),
        Token::Keyword(Keyword::Into) => Some("INTO"@),
        Token::Keyword(Keyword::Values) => Some("VALUES"@),
        Token::Keyword(Keyword::Inner) => Some("INNER"@),
        Token::Keyword(Keyword::Join) => Some("JOIN"@),
        Token::Keyword(Keyword::On) => Some("ON"@),
        Token::Keyword(Keyword::Limit) => Some("LIMIT"@),
        Token::Keyword(Keyword::Offset) => Some("OFFSET"@),
        Token::Keyword(Keyword::Between) => Some("BETWEEN"@),
        Token::Keyword(Keyword::Array) => Some("ARRAY"@),
        Token::LiteralValueTypeIndicator(LiteralValueTypeIndicator::Binary) => Some("BINARY"@),
        Token::LiteralValueTypeIndicator(LiteralValueTypeIndicator::Date) => Some("DATE"@),
        Token::LiteralValueTypeIndicator(LiteralValueTypeIndicator::Time) => Some("TIME"@),
        Token::LiteralValueTypeIndicator(LiteralValueTypeIndicator::Timestamp) => Some(
            "TIMESTAMP"@,
        ),
        Token::LiteralValueTypeIndicator(LiteralValueTypeIndicator::X) => Some("x"@),
        Token::LiteralValueTypeIndicator(LiteralValueTypeIndicator::ZeroX) => Some("0x"@),
        Token::LiteralValueTypeIndicator(LiteralValueTypeIndicator::B) => Some("b"@),
        Token::LiteralValueTypeIndicator(LiteralValueTypeIndicator::ZeroB) => Some("0b"@),
        Token::LiteralValueTypeIndicator(LiteralValueTypeIndicator::N) => Some("n"@),
        Token::Space => Some(" "@),
        Token::Newline => Some("\n"@),
        Token::Dot => Some("."@),
        Token::Comma => Some(","@),
        Token::Wildcard => Some("*"@),
        Token::ParentheseOpen => Some("("@),
        Token::ParentheseClose => Some(")"@),
        Token::SquareBracketOpen => Some("["@),
        Token::SquareBracketClose => Some("]"@),
        Token::Colon => Some(":"@),
        Token::Semicolon => Some(";"@),
        Token::Placeholder => Some("?"@),
        Token::Ellipsis => Some("..."@),
        Token::Null => Some("NULL"@),
        Token::True => Some("TRUE"@),
        Token::False => Some("FALSE"@),
        _ => None,
    }
}

/// The text that a token is written as. A token with a slice is written as the part
/// of `text` that the slice refers to, between its delimiters where it has any; a
/// deleted token is written as nothing.
pub open spec fn fragment(text: Seq<char>, token: Token) -> Seq<char> {
    match token {
        Token::Keyword(Keyword::Other(slice)) => slice_text(text, slice),
        Token::LiteralValueTypeIndicator(LiteralValueTypeIndicator::Charset(slice)) => seq!['_']
            + slice_text(text, slice),
        Token::Backticked(slice) => seq!['`'] + slice_text(text, slice) + seq!['`'],
        Token::DoubleQuoted(slice) => seq!['"'] + slice_text(text, slice) + seq!['"'],
        Token::SingleQuoted(slice) => seq!['\''] + slice_text(text, slice) + seq!['\''],
        Token::Numeric(slice) => slice_text(text, slice),
        Token::Comment(slice) => slice_text(text, slice),
        Token::NumberedPlaceholder(slice) => slice_text(text, slice),
        Token::Tombstone => Seq::empty(),
        Token::Unknown(c) => seq![c],
        _ => fixed_text(token)->0,
    }
}

/// The text that a sequence of tokens is written as: their fragments, one after the other.
pub open spec fn render(text: Seq<char>, tokens: Seq<Token>) -> Seq<char>
    decreases tokens.len(),
{
    if tokens.len() == 0 {
        Seq::empty()
    } else {
        render(text, tokens.drop_last()) + fragment(text, tokens.last())
    }
}

/// Writing distributes over concatenation.
pub proof fn lemma_render_concat(text: Seq<char>, a: Seq<Token>, b: Seq<Token>)
    ensures
        render(text, a + b) == render(text, a) + render(text, b),
    decreases b.len(),
{
    if b.len() > 0 {
        assert((a + b).drop_last() =~= a + b.drop_last());
        lemma_render_concat(text, a, b.drop_last());
    }
}

/// One token is written as its fragment.
pub proof fn lemma_render_one(text: Seq<char>, token: Token)
    ensures
        render(text, seq![token]) == fragment(text, token),
{
    reveal_with_fuel(render, 2);
}

/// The tokens of a text, to be written.
pub struct SqlWriter {
    pub sql: Sql,
}

/// The text of a token that is written the same way wherever it stands.
fn fixed_str(token: &Token) -> (text: Option<&'static str>)
    ensures
        text is Some <==> fixed_text(*token) is Some,
        text is Some ==> text->0@ == fixed_text(*token)->0,
{
    match token {
        Token::Operator(Operator::Arithmetic(ArithmeticOperator::Multiply)) => Some("*"),
        Token::Operator(Operator::Arithmetic(ArithmeticOperator::Divide)) => Some("/"),
        Token::Operator(Operator::Arithmetic(ArithmeticOperator::Modulo)) => Some("%"),
        Token::Operator(Operator::Arithmetic(ArithmeticOperator::Plus)) => Some("+"),
        Token::Operator(Operator::Arithmetic(ArithmeticOperator::Minus)) => Some("-"),
        Token::Operator(Operator::Logical(LogicalOperator::In)) => Some("IN"),
        Token::Operator(Operator::Logical(LogicalOperator::Not)) => Some("NOT"),
        Token::Operator(Operator::Logical(LogicalOperator::Like)) => Some("LIKE"),
        Token::Operator(Operator::Logical(LogicalOperator::Ilike)) => Some("ILIKE"),
        Token::Operator(Operator::Logical(LogicalOperator::Rlike)) => Some("RLIKE"),
        Token::Operator(Operator::Logical(LogicalOperator::Glob)) => Some("GLOB"),
        Token::Operator(Operator::Logical(LogicalOperator::Match)) => Some("MATCH"),
        Token::Operator(Operator::Logical(LogicalOperator::Regexp)) => Some("REGEXP"),
        Token::Operator(Operator::Logical(LogicalOperator::Then)) => Some("THEN"),
        Token::Operator(Operator::Logical(LogicalOperator::Else)) => Some("ELSE"),
        Token::Operator(Operator::Comparison(ComparisonOperator::Equal)) => Some("="),
        Token::Operator(Operator::Comparison(ComparisonOperator::Equal2)) => Some("=="),
        Token::Operator(Operator::Comparison(ComparisonOperator::NullSafeEqual)) => Some("<=>"),
        Token::Operator(Operator::Comparison(ComparisonOperator::GreaterThanOrEqual)) => Some(">="),
        Token::Operator(Operator::Comparison(ComparisonOperator::LessThanOrEqual)) => Some("<="),
        Token::Operator(Operator::Comparison(ComparisonOperator::EqualOrGreaterThan)) => Some("=>"),
        Token::Operator(Operator::Comparison(ComparisonOperator::EqualOrLessThan)) => Some("=<"),
        Token::Operator(Operator::Comparison(ComparisonOperator::EqualWithArrows)) => Some("<>"),
        Token::Operator(Operator::Comparison(ComparisonOperator::NotEqual)) => Some("!="),
        Token::Operator(Operator::Comparison(ComparisonOperator::GreaterThan)) => Some(">"),
        Token::Operator(Operator::Comparison(ComparisonOperator::LessThan)) => Some("<"),
        Token::Operator(Operator::Bitwise(BitwiseOperator::LeftShift)) => Some("<<"),
        Token::Operator(Operator::Bitwise(BitwiseOperator::RightShift)) => Some(">>"),
        Token::Operator(Operator::Bitwise(BitwiseOperator::And)) => Some("&"),
        Token::Operator(Operator::Bitwise(BitwiseOperator::Or)) => Some("|"),
        Token::Operator(Operator::Json(JsonOperator::SpecifiedPath)) => Some("#>"),
        Token::Operator(Operator::Json(JsonOperator::SpecifiedPathAsText)) => Some("#>>"),
        Token::Keyword(Keyword::Select) => Some("SELECT"),
        Token::Keyword(Keyword::From) => Some("FROM"),
        Token::Keyword(Keyword::Where) => Some("WHERE"),
        Token::Keyword(Keyword::And) => Some("AND"),
        Token::Keyword(Keyword::Or) => Some("OR"),
        Token::Keyword(Keyword::Update) => Some("UPDATE"),
        Token::Keyword(Keyword::SetClause) => Some("SET"),
        Token::Keyword(Keyword::Insert) => Some("INSERT"),
        Token::Keyword(Keyword::Into) => Some("INTO"),
        Token::Keyword(Keyword::Values) => Some("VALUES"),
        Token::Keyword(Keyword::Inner) => Some("INNER"),
        Token::Keyword(Keyword::Join) => Some("JOIN"),
        Token::Keyword(Keyword::On) => Some("ON"),
        Token::Keyword(Keyword::Limit) => Some("LIMIT"),
        Token::Keyword(Keyword::Offset) => Some("OFFSET"),
        Token::Keyword(Keyword::Between) => Some("BETWEEN"),
        Token::Keyword(Keyword::Array) => Some("ARRAY"),
        Token::LiteralValueTypeIndicator(LiteralValueTypeIndicator::Binary) => Some("BINARY"),
        Token::LiteralValueTypeIndicator(LiteralValueTypeIndicator::Date) => Some("DATE"),
        Token::LiteralValueTypeIndicator(LiteralValueTypeIndicator::Time) => Some("TIME"),
        Token::LiteralValueTypeIndicator(LiteralValueTypeIndicator::Timestamp) => Some("TIMESTAMP"),
        Token::LiteralValueTypeIndicator(LiteralValueTypeIndicator::X) => Some("x"),
        Token::LiteralValueTypeIndicator(LiteralValueTypeIndicator::ZeroX) => Some("0x"),
        Token::LiteralValueTypeIndicator(LiteralValueTypeIndicator::B) => Some("b"),
        Token::LiteralValueTypeIndicator(LiteralValueTypeIndicator::ZeroB) => Some("0b"),
        Token::LiteralValueTypeIndicator(LiteralValueTypeIndicator::N) => Some("n"),
        Token::Space => Some(" "),
        Token::Newline => Some("\n"),
        Token::Dot => Some("."),
        Token::Comma => Some(","),
        Token::Wildcard => Some("*"),
        Token::ParentheseOpen => Some("("),
        Token::ParentheseClose => Some(")"),
        Token::SquareBracketOpen => Some("["),
        Token::SquareBracketClose => Some("]"),
        Token::Colon => Some(":"),
        Token::Semicolon => Some(";"),
        Token::Placeholder => Some("?"),
        Token::Ellipsis => Some("..."),
        Token::Null => Some("NULL"),
        Token::True => Some("TRUE"),
        Token::False => Some("FALSE"),
        _ => None,
    }
}

impl SqlWriter {
    /// A writer of the tokens of `sql`.
    pub fn new(sql: Sql) -> (writer: SqlWriter)
        ensures
            writer.sql@ == sql@,
    {
        SqlWriter { sql: sql }
    }

    /// Writes the tokens, in their order, as one text.
    pub fn write(&self) -> (out: String)
        ensures
            out@ == render(self.sql@.text, self.sql@.tokens),
    {
        let mut out = String::new();
        let ghost text = self.sql@.text;
        let ghost tokens = self.sql@.tokens;
        let mut i: usize = 0;
        while i < self.sql.tokens.len()
            invariant
                i <= self.sql.tokens.len(),
                text == self.sql@.text,
                tokens == self.sql@.tokens,
                out@ == render(text, tokens.take(i as int)),
            decreases self.sql.tokens.len() - i,
        {
            let token = &self.sql.tokens[i];
            proof {
                assert(tokens.take(i + 1).drop_last() =~= tokens.take(i as int));
            }
            match token {
                Token::Keyword(Keyword::Other(slice)) => {
                    out.append(self.sql.buffer_content(slice));
                },
                Token::LiteralValueTypeIndicator(LiteralValueTypeIndicator::Charset(slice)) => {
                    out.push('_');
                    out.append(self.sql.buffer_content(slice));
                },
                Token::Backticked(slice) => {
                    out.push('`');
                    out.append(self.sql.buffer_content(slice));
                    out.push('`');
                },
                Token::DoubleQuoted(slice) => {
                    out.push('"');
                    out.append(self.sql.buffer_content(slice));
                    out.push('"');
                },
                Token::SingleQuoted(slice) => {
                    out.push('\'');
                    out.append(self.sql.buffer_content(slice));
                    out.push('\'');
                },
                Token::Numeric(slice) => {
                    out.append(self.sql.buffer_content(slice));
                },
                Token::Comment(slice) => {
                    out.append(self.sql.buffer_content(slice));
                },
                Token::NumberedPlaceholder(slice) => {
                    out.append(self.sql.buffer_content(slice));
                },
                Token::Tombstone => {},
                Token::Unknown(c) => {
                    out.push(*c);
                },
                _ => {
                    match fixed_str(token) {
                        Some(fixed) => out.append(fixed),
                        None => {},
                    }
                },
            }
            i += 1;
        }
        assert(tokens.take(i as int) =~= tokens);
        out
    }
}

} // verus!
