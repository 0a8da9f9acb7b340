//! The token vocabulary shared by the tokenizer, the sanitizer and the writer.

use vstd::prelude::*;

verus! {

/// A half-open range of byte offsets into the text that a token was read from.
#[derive(Debug, PartialEq, Eq, Clone, Copy)]
pub struct BufferSlice {
    pub start: usize,
    pub end: usize,
}

impl BufferSlice {
    /// The slice from byte offset `start` up to byte offset `end`.
    pub fn new(start: usize, end: usize) -> (slice: BufferSlice)
        ensures
            slice == (BufferSlice { start, end }),
    {
        BufferSlice { start: start, end: end }
    }
}

/// The recognised keywords. Every other identifier is `Other`.
#[derive(Debug, PartialEq, Eq, Clone, Copy)]
pub enum Keyword {
    Select,
    From,
    Where,
    And,
    Or,
    Update,
    /// `SET`
    SetClause,
    Insert,
    Into,
    Values,
    Inner,
    Join,
    On,
    Limit,
    Offset,
    Between,
    Array,
    Other(BufferSlice),
}

#[derive(Debug, PartialEq, Eq, Clone, Copy)]
pub enum Operator {
    Arithmetic(ArithmeticOperator),
    Logical(LogicalOperator),
    Comparison(ComparisonOperator),
    Bitwise(BitwiseOperator),
    Json(JsonOperator),
}

#[derive(Debug, PartialEq, Eq, Clone, Copy)]
pub enum ArithmeticOperator {
    /// `*`
    Multiply,
    /// `/`
    Divide,
    /// `%`
    Modulo,
    /// `+`
    Plus,
    /// `-`
    Minus,
}

#[derive(Debug, PartialEq, Eq, Clone, Copy)]
pub enum LogicalOperator {
    In,
    Not,
    Like,
    Ilike,
    Rlike,
    Glob,
    Match,
    Regexp,
    Then,
    Else,
}

#[derive(Debug, PartialEq, Eq, Clone, Copy)]
pub enum ComparisonOperator {
    /// `=`
    Equal,
    /// `==`
    Equal2,
    /// `<=>`
    NullSafeEqual,
    /// `>=`
    GreaterThanOrEqual,
    /// `<=`
    LessThanOrEqual,
    /// `=>`
    EqualOrGreaterThan,
    /// `=<`
    EqualOrLessThan,
    /// `<>`
    EqualWithArrows,
    /// `!=`
    NotEqual,
    /// `>`
    GreaterThan,
    /// `<`
    LessThan,
}

#[derive(Debug, PartialEq, Eq, Clone, Copy)]
pub enum BitwiseOperator {
    /// `<<`
    LeftShift,
    /// `>>`
    RightShift,
    /// `&`
    And,
    /// `|`
    Or,
}

#[derive(Debug, PartialEq, Eq, Clone, Copy)]
pub enum JsonOperator {
    /// `#>`
    SpecifiedPath,
    /// `#>>`
    SpecifiedPathAsText,
}

/// A prefix that announces a literal without an operator in between.
#[derive(Debug, PartialEq, Eq, Clone, Copy)]
pub enum LiteralValueTypeIndicator {
    Binary,
    Date,
    Time,
    Timestamp,
    /// Hexadecimal literal, `x'..'`
    X,
    /// Hexadecimal literal, `0x'..'`
    ZeroX,
    /// Bit field, `b'..'`
    B,
    /// Bit field, `0b'..'`
    ZeroB,
    /// National character set, `n'..'`
    N,
    /// Character set, `_name'..'`; the slice holds the name without the underscore.
    Charset(BufferSlice),
}

#[derive(Debug, PartialEq, Eq, Clone, Copy)]
pub enum Token {
    Operator(Operator),
    Keyword(Keyword),
    LiteralValueTypeIndicator(LiteralValueTypeIndicator),
    /// The slice holds the content between the backticks.
    Backticked(BufferSlice),
    /// The slice holds the content between the double quotes.
    DoubleQuoted(BufferSlice),
    /// The slice holds the content between the single quotes.
    SingleQuoted(BufferSlice),
    Numeric(BufferSlice),
    /// The slice holds the whole comment, its opening characters included.
    Comment(BufferSlice),
    Space,
    Newline,
    Dot,
    Comma,
    Wildcard,
    ParentheseOpen,
    ParentheseClose,
    SquareBracketOpen,
    SquareBracketClose,
    Colon,
    Semicolon,
    /// `?`, read from the text or put in place of a value.
    Placeholder,
    /// `...`, put in place of the second and later rows of an insert.
    Ellipsis,
    /// What is left of a deleted token: it is written as nothing and keeps the
    /// positions of the tokens around it.
    Tombstone,
    Null,
    True,
    False,
    /// The slice holds the `$` and the digits that follow it.
    NumberedPlaceholder(BufferSlice),
    Unknown(char),
}

impl Token {
    /// A token that may hold a value: a string in single or double quotes, a number,
    /// `NULL`, `TRUE` or `FALSE`.
    pub open spec fn is_literal(self) -> bool {
        self is SingleQuoted || self is DoubleQuoted || self is Numeric || self is Null
            || self is True || self is False
    }
}

} // verus!
