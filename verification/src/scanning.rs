//! What the tokenizer reads: the rules that cut a text into tokens, stated over
//! the sequence of its characters.
//!
//! Scanning never looks back beyond the position it starts from, with one exception:
//! the end of a block comment is found by looking at the two characters before
//! the position under test.

use crate::text::{
    addressable, lemma_byte_offset_monotonic, lemma_char_range, lemma_span_text, slice_fits, span,
};
use crate::token::{
    ArithmeticOperator, BitwiseOperator, BufferSlice, ComparisonOperator, JsonOperator, Keyword,
    LiteralValueTypeIndicator, LogicalOperator, Operator, Token,
};
use vstd::prelude::*;

verus! {

/// Whether `char::is_alphabetic` holds of the character (the Unicode property `Alphabetic`).
pub uninterp spec fn alphabetic(c: char) -> bool;

/// Whether `char::is_numeric` holds of the character (the Unicode categories `Nd`, `Nl`, `No`).
pub uninterp spec fn numeric(c: char) -> bool;

/// Taken on trust: what `char::is_alphabetic` returns depends on the character alone.
pub assume_specification[ char::is_alphabetic ](c: char) -> (r: bool)
    ensures
        r == alphabetic(c),
;

/// Taken on trust: what `char::is_numeric` returns depends on the character alone.
pub assume_specification[ char::is_numeric ](c: char) -> (r: bool)
    ensures
        r == numeric(c),
;

/// The kind of token that starts at a position, decided by the character there
/// and, for `#`, `-` and `/`, by the one after it.
#[derive(Debug, PartialEq, Eq, Clone, Copy)]
pub enum Lexeme {
    Quoted,
    LineComment,
    BlockComment,
    Punctuation,
    NumberedPlaceholder,
    Star,
    Arithmetic,
    OperatorRun,
    Charset,
    Word,
    Number,
    Unknown,
}

/// Where a run of characters ends.
#[derive(Debug, PartialEq, Eq, Clone, Copy)]
pub enum Stop {
    /// At a line feed or a carriage return.
    LineBreak,
    /// After the two characters `*/`.
    CommentClose,
    /// At the first character that is not numeric.
    NotNumeric,
    /// At the first character that is none of `= ! > < & | #`.
    NotOperator,
    /// At the first character that is neither alphabetic nor numeric.
    NotAlphanumeric,
    /// At the first character that is none of `_`, `-`, alphabetic, numeric.
    NotWord,
    /// At the first character that is none of `.`, `x`, `X`, `b`, `B`, numeric.
    NotNumber,
}

pub open spec fn is_quote(c: char) -> bool {
    c == '`' || c == '\'' || c == '"'
}

pub open spec fn is_operator_char(c: char) -> bool {
    c == '=' || c == '!' || c == '>' || c == '<' || c == '&' || c == '|' || c == '#'
}

/// The token of a character that is a token by itself.
pub open spec fn punctuation(c: char) -> Option<Token> {
    if c == ' ' {
        Some(Token::Space)
    } else if c == '\n' || c == '\r' {
        Some(Token::Newline)
    } else if c == '.' {
        Some(Token::Dot)
    } else if c == ',' {
        Some(Token::Comma)
    } else if c == '(' {
        Some(Token::ParentheseOpen)
    } else if c == ')' {
        Some(Token::ParentheseClose)
    } else if c == '[' {
        Some(Token::SquareBracketOpen)
    } else if c == ']' {
        Some(Token::SquareBracketClose)
    } else if c == ':' {
        Some(Token::Colon)
    } else if c == ';' {
        Some(Token::Semicolon)
    } else if c == '?' {
        Some(Token::Placeholder)
    } else {
        None
    }
}

/// What the tokenizer asks of a character beyond its value.
#[derive(Debug, PartialEq, Eq, Clone, Copy)]
pub struct CharClass {
    pub alphabetic: bool,
    pub numeric: bool,
}

pub open spec fn class_of(c: char) -> CharClass {
    CharClass { alphabetic: alphabetic(c), numeric: numeric(c) }
}

/// The kind of token that starts with the character `c` of class `class`, which is
/// followed by `next`, if by anything; `next_numeric` says whether `next` is numeric.
pub open spec fn lexeme_of(c: char, class: CharClass, next: Option<char>, next_numeric: bool)
    -> Lexeme {
    if is_quote(c) {
        Lexeme::Quoted
    } else if c == '#' && next != Some('>') {
        Lexeme::LineComment
    } else if c == '-' && next == Some('-') {
        Lexeme::LineComment
    } else if c == '/' && next == Some('*') {
        Lexeme::BlockComment
    } else if punctuation(c) is Some {
        Lexeme::Punctuation
    } else if c == '$' {
        Lexeme::NumberedPlaceholder
    } else if c == '*' {
        Lexeme::Star
    } else if c == '/' || c == '%' || c == '+' {
        Lexeme::Arithmetic
    } else if c == '-' && !(next is Some && next_numeric) {
        Lexeme::Arithmetic
    } else if is_operator_char(c) {
        Lexeme::OperatorRun
    } else if c == '_' {
        Lexeme::Charset
    } else if class.alphabetic {
        Lexeme::Word
    } else if c == '-' || class.numeric {
        Lexeme::Number
    } else {
        Lexeme::Unknown
    }
}

/// The character after position `at`, if there is one.
pub open spec fn char_after(text: Seq<char>, at: int) -> Option<char> {
    if at + 1 < text.len() {
        Some(text[at + 1])
    } else {
        None
    }
}

/// The kind of token that starts at position `at`.
pub open spec fn lexeme_at(text: Seq<char>, at: int) -> Lexeme {
    lexeme_of(text[at], class_of(text[at]), char_after(text, at), numeric(text[at + 1]))
}

/// Whether a run that is scanned with `stop` ends before the character `c` of class
/// `class`; `after_close` says whether the two characters before it are `*/`.
pub open spec fn stops_on(stop: Stop, c: char, class: CharClass, after_close: bool) -> bool {
    match stop {
        Stop::LineBreak => c == '\n' || c == '\r',
        Stop::CommentClose => after_close,
        Stop::NotNumeric => !class.numeric,
        Stop::NotOperator => !is_operator_char(c),
        Stop::NotAlphanumeric => !(class.alphabetic || class.numeric),
        Stop::NotWord => !(c == '_' || c == '-' || class.alphabetic || class.numeric),
        Stop::NotNumber => !(c == '.' || c == 'x' || c == 'X' || c == 'b' || c == 'B'
            || class.numeric),
    }
}

/// Whether the two characters `*/` stand before position `i`.
pub open spec fn is_after_close(text: Seq<char>, i: int) -> bool {
    i > 1 && text[i - 2] == '*' && text[i - 1] == '/'
}

/// Whether a run that is scanned with `stop` ends before the character at `i`.
pub open spec fn stops(stop: Stop, text: Seq<char>, i: int) -> bool {
    stops_on(stop, text[i], class_of(text[i]), is_after_close(text, i))
}

/// The first position from `i` on at which the run stops; the end of the text if there is none.
pub open spec fn scan_end(text: Seq<char>, i: int, stop: Stop) -> int
    decreases text.len() - i,
{
    if i >= text.len() || stops(stop, text, i) {
        i
    } else {
        scan_end(text, i + 1, stop)
    }
}

/// The number of backslashes that stand directly before position `i`, none of them before `from`.
pub open spec fn backslashes_before(text: Seq<char>, from: int, i: int) -> nat
    decreases i - from,
{
    if i <= from || text[i - 1] != '\\' {
        0
    } else {
        1 + backslashes_before(text, from, i - 1)
    }
}

/// The character at `i` closes the quote whose content starts at `from`: it is the
/// delimiter, and an even number of backslashes stands before it.
pub open spec fn closes_quote(text: Seq<char>, from: int, i: int, delimiter: char) -> bool {
    text[i] == delimiter && backslashes_before(text, from, i) % 2 == 0
}

/// The first position from `i` on that closes the quote; the end of the text if none does.
pub open spec fn quote_end(text: Seq<char>, from: int, i: int, delimiter: char) -> int
    decreases text.len() - i,
{
    if i >= text.len() || closes_quote(text, from, i, delimiter) {
        i
    } else {
        quote_end(text, from, i + 1, delimiter)
    }
}

/// The lower-case form of an ASCII capital letter; every other character as it is.
pub open spec fn lower(c: char) -> char {
    if 'A' <= c <= 'Z' {
        ((c as u32) + 32) as char
    } else {
        c
    }
}

/// The two texts are equal but for the case of their ASCII letters.
pub open spec fn same_ignoring_case(a: Seq<char>, b: Seq<char>) -> bool {
    &&& a.len() == b.len()
    &&& forall|i: int| 0 <= i < a.len() ==> lower(#[trigger] a[i]) == lower(b[i])
}

/// The token of a word that has a meaning of its own, whatever the case of its letters.
pub open spec fn fixed_word(word: Seq<char>) -> Option<Token> {
    if same_ignoring_case(word, "SELECT"@) {
        Some(Token::Keyword(Keyword::Select))
    } else if same_ignoring_case(word, "FROM"@) {
        Some(Token::Keyword(Keyword::From))
    } else if same_ignoring_case(word, "WHERE"@) {
        Some(Token::Keyword(Keyword::Where))
    } else if same_ignoring_case(word, "AND"@) {
        Some(Token::Keyword(Keyword::And))
    } else if same_ignoring_case(word, "OR"@) {
        Some(Token::Keyword(Keyword::Or))
    } else if same_ignoring_case(word, "UPDATE"@) {
        Some(Token::Keyword(Keyword::Update))
    } else if same_ignoring_case(word, "SET"@) {
        Some(Token::Keyword(Keyword::SetClause))
    } else if same_ignoring_case(word, "INSERT"@) {
        Some(Token::Keyword(Keyword::Insert))
    } else if same_ignoring_case(word, "INTO"@) {
        Some(Token::Keyword(Keyword::Into))
    } else if same_ignoring_case(word, "VALUES"@) {
        Some(Token::Keyword(Keyword::Values))
    } else if same_ignoring_case(word, "INNER"@) {
        Some(Token::Keyword(Keyword::Inner))
    } else if same_ignoring_case(word, "JOIN"@) {
        Some(Token::Keyword(Keyword::Join))
    } else if same_ignoring_case(word, "ON"@) {
        Some(Token::Keyword(Keyword::On))
    } else if same_ignoring_case(word, "LIMIT"@) {
        Some(Token::Keyword(Keyword::Limit))
    } else if same_ignoring_case(word, "OFFSET"@) {
        Some(Token::Keyword(Keyword::Offset))
    } else if same_ignoring_case(word, "BETWEEN"@) {
        Some(Token::Keyword(Keyword::Between))
    } else if same_ignoring_case(word, "ARRAY"@) {
        Some(Token::Keyword(Keyword::Array))
    } else if same_ignoring_case(word, "IN"@) {
        Some(Token::Operator(Operator::Logical(LogicalOperator::In)))
    } else if same_ignoring_case(word, "NOT"@) {
        Some(Token::Operator(Operator::Logical(LogicalOperator::Not)))
    } else if same_ignoring_case(word, "THEN"@) {
        Some(Token::Operator(Operator::Logical(LogicalOperator::Then)))
    } else if same_ignoring_case(word, "ELSE"@) {
        Some(Token::Operator(Operator::Logical(LogicalOperator::Else)))
    } else if same_ignoring_case(word, "LIKE"@) {
        Some(Token::Operator(Operator::Logical(LogicalOperator::Like)))
    } else if same_ignoring_case(word, "ILIKE"@) {
        Some(Token::Operator(Operator::Logical(LogicalOperator::Ilike)))
    } else if same_ignoring_case(word, "RLIKE"@) {
        Some(Token::Operator(Operator::Logical(LogicalOperator::Rlike)))
    } else if same_ignoring_case(word, "GLOB"@) {
        Some(Token::Operator(Operator::Logical(LogicalOperator::Glob)))
    } else if same_ignoring_case(word, "MATCH"@) {
        Some(Token::Operator(Operator::Logical(LogicalOperator::Match)))
    } else if same_ignoring_case(word, "REGEXP"@) {
        Some(Token::Operator(Operator::Logical(LogicalOperator::Regexp)))
    } else if same_ignoring_case(word, "BINARY"@) {
        Some(Token::LiteralValueTypeIndicator(LiteralValueTypeIndicator::Binary))
    } else if same_ignoring_case(word, "DATE"@) {
        Some(Token::LiteralValueTypeIndicator(LiteralValueTypeIndicator::Date))
    } else if same_ignoring_case(word, "TIME"@) {
        Some(Token::LiteralValueTypeIndicator(LiteralValueTypeIndicator::Time))
    } else if same_ignoring_case(word, "TIMESTAMP"@) {
        Some(Token::LiteralValueTypeIndicator(LiteralValueTypeIndicator::Timestamp))
    } else if same_ignoring_case(word, "x"@) {
        Some(Token::LiteralValueTypeIndicator(LiteralValueTypeIndicator::X))
    } else if same_ignoring_case(word, "b"@) {
        Some(Token::LiteralValueTypeIndicator(LiteralValueTypeIndicator::B))
    } else if same_ignoring_case(word, "n"@) {
        Some(Token::LiteralValueTypeIndicator(LiteralValueTypeIndicator::N))
    } else if same_ignoring_case(word, "NULL"@) {
        Some(Token::Null)
    } else if same_ignoring_case(word, "TRUE"@) {
        Some(Token::True)
    } else if same_ignoring_case(word, "FALSE"@) {
        Some(Token::False)
    } else {
        None
    }
}

/// The token of a word: its fixed meaning, or an identifier that refers to the word's slice.
pub open spec fn word_token(word: Seq<char>, slice: BufferSlice) -> Token {
    match fixed_word(word) {
        Some(token) => token,
        None => Token::Keyword(Keyword::Other(slice)),
    }
}

/// The operator that a whole run of operator characters spells, if it spells one.
pub open spec fn operator_token(run: Seq<char>) -> Option<Token> {
    if run == "<=>"@ {
        Some(Token::Operator(Operator::Comparison(ComparisonOperator::NullSafeEqual)))
    } else if run == ">="@ {
        Some(Token::Operator(Operator::Comparison(ComparisonOperator::GreaterThanOrEqual)))
    } else if run == "<="@ {
        Some(Token::Operator(Operator::Comparison(ComparisonOperator::LessThanOrEqual)))
    } else if run == "=>"@ {
        Some(Token::Operator(Operator::Comparison(ComparisonOperator::EqualOrGreaterThan)))
    } else if run == "=<"@ {
        Some(Token::Operator(Operator::Comparison(ComparisonOperator::EqualOrLessThan)))
    } else if run == "<>"@ {
        Some(Token::Operator(Operator::Comparison(ComparisonOperator::EqualWithArrows)))
    } else if run == "!="@ {
        Some(Token::Operator(Operator::Comparison(ComparisonOperator::NotEqual)))
    } else if run == "=="@ {
        Some(Token::Operator(Operator::Comparison(ComparisonOperator::Equal2)))
    } else if run == "="@ {
        Some(Token::Operator(Operator::Comparison(ComparisonOperator::Equal)))
    } else if run == ">"@ {
        Some(Token::Operator(Operator::Comparison(ComparisonOperator::GreaterThan)))
    } else if run == "<"@ {
        Some(Token::Operator(Operator::Comparison(ComparisonOperator::LessThan)))
    } else if run == "<<"@ {
        Some(Token::Operator(Operator::Bitwise(BitwiseOperator::LeftShift)))
    } else if run == ">>"@ {
        Some(Token::Operator(Operator::Bitwise(BitwiseOperator::RightShift)))
    } else if run == "&"@ {
        Some(Token::Operator(Operator::Bitwise(BitwiseOperator::And)))
    } else if run == "|"@ {
        Some(Token::Operator(Operator::Bitwise(BitwiseOperator::Or)))
    } else if run == "#>"@ {
        Some(Token::Operator(Operator::Json(JsonOperator::SpecifiedPath)))
    } else if run == "#>>"@ {
        Some(Token::Operator(Operator::Json(JsonOperator::SpecifiedPathAsText)))
    } else {
        None
    }
}

/// One `Unknown` token for each character.
pub open spec fn unknown_tokens(run: Seq<char>) -> Seq<Token>
    decreases run.len(),
{
    if run.len() == 0 {
        Seq::empty()
    } else {
        unknown_tokens(run.drop_last()).push(Token::Unknown(run.last()))
    }
}

/// The token of a run that starts like a number: the prefix of a hexadecimal or
/// bit-field literal where the run is just that, else a number.
pub open spec fn number_token(run: Seq<char>, slice: BufferSlice) -> Token {
    if run == "0X"@ || run == "0x"@ {
        Token::LiteralValueTypeIndicator(LiteralValueTypeIndicator::ZeroX)
    } else if run == "0B"@ || run == "0b"@ {
        Token::LiteralValueTypeIndicator(LiteralValueTypeIndicator::ZeroB)
    } else {
        Token::Numeric(slice)
    }
}

pub open spec fn quoted_token(delimiter: char, slice: BufferSlice) -> Token {
    if delimiter == '`' {
        Token::Backticked(slice)
    } else if delimiter == '\'' {
        Token::SingleQuoted(slice)
    } else {
        Token::DoubleQuoted(slice)
    }
}

pub open spec fn arithmetic_token(c: char) -> Token {
    if c == '/' {
        Token::Operator(Operator::Arithmetic(ArithmeticOperator::Divide))
    } else if c == '%' {
        Token::Operator(Operator::Arithmetic(ArithmeticOperator::Modulo))
    } else if c == '+' {
        Token::Operator(Operator::Arithmetic(ArithmeticOperator::Plus))
    } else {
        Token::Operator(Operator::Arithmetic(ArithmeticOperator::Minus))
    }
}

/// The position after the token or tokens that start at `at`.
pub open spec fn scan_next(text: Seq<char>, at: int) -> int {
    match lexeme_at(text, at) {
        Lexeme::Quoted => {
            let close = quote_end(text, at + 1, at + 1, text[at]);
            if close < text.len() {
                close + 1
            } else {
                close
            }
        },
        Lexeme::LineComment => scan_end(text, at + 1, Stop::LineBreak),
        Lexeme::BlockComment => scan_end(text, at + 1, Stop::CommentClose),
        Lexeme::NumberedPlaceholder => scan_end(text, at + 1, Stop::NotNumeric),
        Lexeme::OperatorRun => scan_end(text, at + 1, Stop::NotOperator),
        Lexeme::Charset => scan_end(text, at + 1, Stop::NotAlphanumeric),
        Lexeme::Word => scan_end(text, at + 1, Stop::NotWord),
        Lexeme::Number => scan_end(text, at + 1, Stop::NotNumber),
        Lexeme::Punctuation | Lexeme::Star | Lexeme::Arithmetic | Lexeme::Unknown => at + 1,
    }
}

/// The tokens that start at `at`: one, but for a run of operator characters that
/// spells no operator, which gives one `Unknown` token for each of its characters.
/// `wildcard` says whether a `*` is a wildcard here.
pub open spec fn scan_tokens(text: Seq<char>, at: int, wildcard: bool) -> Seq<Token> {
    let c = text[at];
    let next = scan_next(text, at);
    match lexeme_at(text, at) {
        Lexeme::Quoted => seq![
            quoted_token(c, span(text, at + 1, quote_end(text, at + 1, at + 1, c))),
        ],
        Lexeme::LineComment | Lexeme::BlockComment => seq![Token::Comment(span(text, at, next))],
        Lexeme::Punctuation => seq![punctuation(c)->0],
        Lexeme::NumberedPlaceholder => seq![Token::NumberedPlaceholder(span(text, at, next))],
        Lexeme::Star => seq![
            if wildcard {
                Token::Wildcard
            } else {
                Token::Operator(Operator::Arithmetic(ArithmeticOperator::Multiply))
            },
        ],
        Lexeme::Arithmetic => seq![arithmetic_token(c)],
        Lexeme::OperatorRun => match operator_token(text.subrange(at, next)) {
            Some(token) => seq![token],
            None => unknown_tokens(text.subrange(at, next)),
        },
        Lexeme::Charset => seq![
            Token::LiteralValueTypeIndicator(
                LiteralValueTypeIndicator::Charset(span(text, at + 1, next)),
            ),
        ],
        Lexeme::Word => seq![word_token(text.subrange(at, next), span(text, at, next))],
        Lexeme::Number => seq![number_token(text.subrange(at, next), span(text, at, next))],
        Lexeme::Unknown => seq![Token::Unknown(c)],
    }
}

/// Whether a `*` is a wildcard after the token that starts at `at`: it is one from
/// `SELECT` up to `FROM`.
pub open spec fn scan_wildcard(text: Seq<char>, at: int, wildcard: bool) -> bool {
    if lexeme_at(text, at) is Word {
        let token = fixed_word(text.subrange(at, scan_next(text, at)));
        if token == Some(Token::Keyword(Keyword::Select)) {
            true
        } else if token == Some(Token::Keyword(Keyword::From)) {
            false
        } else {
            wildcard
        }
    } else {
        wildcard
    }
}

/// The tokens of the text from position `at` on.
pub open spec fn lex_from(text: Seq<char>, at: int, wildcard: bool) -> Seq<Token>
    decreases text.len() - at,
    via lex_from_decreases
{
    if at < 0 || at >= text.len() {
        Seq::empty()
    } else {
        scan_tokens(text, at, wildcard) + lex_from(
            text,
            scan_next(text, at),
            scan_wildcard(text, at, wildcard),
        )
    }
}

/// The tokens of a text.
pub open spec fn lex_text(text: Seq<char>) -> Seq<Token> {
    lex_from(text, 0, false)
}

#[via_fn]
proof fn lex_from_decreases(text: Seq<char>, at: int, wildcard: bool) {
    if 0 <= at < text.len() {
        lemma_scan_next_bounds(text, at);
    }
}

/// A run ends within the text, at the first position at which it stops.
pub proof fn lemma_scan_end_bounds(text: Seq<char>, i: int, stop: Stop)
    requires
        0 <= i <= text.len(),
    ensures
        i <= scan_end(text, i, stop) <= text.len(),
        scan_end(text, i, stop) < text.len() ==> stops(stop, text, scan_end(text, i, stop)),
        forall|j: int| i <= j < scan_end(text, i, stop) ==> !stops(stop, text, j),
    decreases text.len() - i,
{
    if i < text.len() && !stops(stop, text, i) {
        lemma_scan_end_bounds(text, i + 1, stop);
    }
}

/// A quote ends within the text, at the first position that closes it.
pub proof fn lemma_quote_end_bounds(text: Seq<char>, from: int, i: int, delimiter: char)
    requires
        0 <= i <= text.len(),
    ensures
        i <= quote_end(text, from, i, delimiter) <= text.len(),
        quote_end(text, from, i, delimiter) < text.len() ==> closes_quote(
            text,
            from,
            quote_end(text, from, i, delimiter),
            delimiter,
        ),
        forall|j: int|
            i <= j < quote_end(text, from, i, delimiter) ==> !closes_quote(
                text,
                from,
                j,
                delimiter,
            ),
    decreases text.len() - i,
{
    if i < text.len() && !closes_quote(text, from, i, delimiter) {
        lemma_quote_end_bounds(text, from, i + 1, delimiter);
    }
}

/// Every scan moves on by at least one character and stays within the text.
pub proof fn lemma_scan_next_bounds(text: Seq<char>, at: int)
    requires
        0 <= at < text.len(),
    ensures
        at < scan_next(text, at) <= text.len(),
{
    lemma_quote_end_bounds(text, at + 1, at + 1, text[at]);
    lemma_scan_end_bounds(text, at + 1, Stop::LineBreak);
    lemma_scan_end_bounds(text, at + 1, Stop::CommentClose);
    lemma_scan_end_bounds(text, at + 1, Stop::NotNumeric);
    lemma_scan_end_bounds(text, at + 1, Stop::NotOperator);
    lemma_scan_end_bounds(text, at + 1, Stop::NotAlphanumeric);
    lemma_scan_end_bounds(text, at + 1, Stop::NotWord);
    lemma_scan_end_bounds(text, at + 1, Stop::NotNumber);
}

/// The slice of a token that refers to the text.
pub open spec fn token_slice(token: Token) -> Option<BufferSlice> {
    match token {
        Token::Keyword(Keyword::Other(slice)) => Some(slice),
        Token::LiteralValueTypeIndicator(LiteralValueTypeIndicator::Charset(slice)) => Some(slice),
        Token::Backticked(slice) => Some(slice),
        Token::DoubleQuoted(slice) => Some(slice),
        Token::SingleQuoted(slice) => Some(slice),
        Token::Numeric(slice) => Some(slice),
        Token::Comment(slice) => Some(slice),
        Token::NumberedPlaceholder(slice) => Some(slice),
        _ => None,
    }
}

/// A token as the tokenizer makes it: it is no ellipsis and no tombstone; its slice,
/// if it has one, lies within the text, in order, and cuts no character in two; and
/// the slice is empty only where it is the content of a quote or the name of a
/// character set.
pub open spec fn is_token_of(text: Seq<char>, token: Token) -> bool {
    &&& !(token is Ellipsis)
    &&& !(token is Tombstone)
    &&& match token_slice(token) {
        Some(slice) => {
            &&& slice_fits(text, slice)
            &&& (token is Keyword || token is Numeric || token is Comment
                || token is NumberedPlaceholder) ==> slice.start < slice.end
        },
        None => true,
    }
}

/// A run of characters gives as many tokens, each of them `Unknown`.
pub proof fn lemma_unknown_tokens(run: Seq<char>)
    ensures
        unknown_tokens(run).len() == run.len(),
        forall|i: int| 0 <= i < run.len() ==> (#[trigger] unknown_tokens(run)[i]) is Unknown,
    decreases run.len(),
{
    if run.len() > 0 {
        lemma_unknown_tokens(run.drop_last());
        lemma_char_range(run.last());
    }
}

/// The tokens that are read at one position are tokens of the text.
pub proof fn lemma_scan_tokens_of_text(text: Seq<char>, at: int, wildcard: bool)
    requires
        addressable(text),
        0 <= at < text.len(),
    ensures
        forall|i: int|
            0 <= i < scan_tokens(text, at, wildcard).len() ==> is_token_of(
                text,
                #[trigger] scan_tokens(text, at, wildcard)[i],
            ),
{
    let next = scan_next(text, at);
    lemma_scan_next_bounds(text, at);
    lemma_span_text(text, at, next);
    lemma_span_text(text, at + 1, next);
    lemma_byte_offset_monotonic(text, at, next);
    lemma_byte_offset_monotonic(text, next, text.len() as int);
    lemma_char_range(text[at]);
    match lexeme_at(text, at) {
        Lexeme::Quoted => {
            let close = quote_end(text, at + 1, at + 1, text[at]);
            lemma_quote_end_bounds(text, at + 1, at + 1, text[at]);
            lemma_span_text(text, at + 1, close);
        },
        Lexeme::OperatorRun => {
            lemma_unknown_tokens(text.subrange(at, next));
        },
        _ => {},
    }
}

/// Every token of a text is a token of the text.
pub proof fn lemma_lex_tokens_of_text(text: Seq<char>, at: int, wildcard: bool)
    requires
        addressable(text),
        0 <= at <= text.len(),
    ensures
        forall|i: int|
            0 <= i < lex_from(text, at, wildcard).len() ==> is_token_of(
                text,
                #[trigger] lex_from(text, at, wildcard)[i],
            ),
    decreases text.len() - at,
{
    if at < text.len() {
        lemma_scan_next_bounds(text, at);
        lemma_scan_tokens_of_text(text, at, wildcard);
        lemma_lex_tokens_of_text(text, scan_next(text, at), scan_wildcard(text, at, wildcard));
        let first = scan_tokens(text, at, wildcard);
        let rest = lex_from(text, scan_next(text, at), scan_wildcard(text, at, wildcard));
        let tokens = lex_from(text, at, wildcard);
        assert forall|i: int| 0 <= i < tokens.len() implies is_token_of(
            text,
            #[trigger] tokens[i],
        ) by {
            if i < first.len() {
                assert(tokens[i] == first[i]);
            } else {
                assert(tokens[i] == rest[i - first.len()]);
            }
        }
    }
}

} // verus!
