//! The tokenizer: cuts a text into tokens, one Unicode scalar value at a time.

use crate::scanning::{
    backslashes_before, class_of, fixed_word, is_operator_char, is_token_of,
    lemma_lex_tokens_of_text, lemma_quote_end_bounds, lemma_scan_next_bounds, lex_from, lexeme_at,
    lexeme_of, lower, number_token, operator_token, punctuation, quote_end, same_ignoring_case,
    scan_end, scan_next, scan_tokens, scan_wildcard, stops, stops_on, unknown_tokens, CharClass,
    Lexeme, Stop,
};
use crate::sql::{Sql, SqlView};
use crate::text::{
    addressable, byte_offset, lemma_byte_offset_is_encoded_len, lemma_byte_offset_monotonic,
    lemma_byte_offset_step, lemma_char_range, lemma_utf8_width_bounds,
};
use crate::token::{
    ArithmeticOperator, BitwiseOperator, BufferSlice, ComparisonOperator, JsonOperator, Keyword,
    LiteralValueTypeIndicator, LogicalOperator, Operator, Token,
};
use vstd::prelude::*;

verus! {

/// A text that is being cut into tokens, and the position up to which it has been.
#[derive(Clone)]
pub struct SqlLexer {
    /// Whether a `*` is a wildcard at the current position.
    past_select: bool,
    buf: String,
    /// Each character of the text with the byte offset at which it starts.
    char_indices: Vec<(usize, char)>,
    len: usize,
    pos: usize,
}

fn to_lower(c: char) -> (r: char)
    ensures
        r == lower(c),
{
    if c >= 'A' && c <= 'Z' {
        ((c as u8) + 32) as char
    } else {
        c
    }
}

/// Whether the next character is there and is `wanted`.
fn follows(next: Option<char>, wanted: char) -> (r: bool)
    ensures
        r == (next == Some(wanted)),
{
    match next {
        Some(found) => found == wanted,
        None => false,
    }
}

/// The class of a character.
pub fn class(c: char) -> (r: CharClass)
    ensures
        r == class_of(c),
{
    CharClass { alphabetic: c.is_alphabetic(), numeric: c.is_numeric() }
}

/// The kind of token that starts with the character `c` of class `class`, which is
/// followed by `next`, if by anything; `next_numeric` says whether `next` is numeric.
pub fn lexeme(c: char, class: CharClass, next: Option<char>, next_numeric: bool) -> (kind: Lexeme)
    ensures
        kind == lexeme_of(c, class, next, next_numeric),
{
    if c == '`' || c == '\'' || c == '"' {
        Lexeme::Quoted
    } else if c == '#' && !follows(next, '>') {
        Lexeme::LineComment
    } else if c == '-' && follows(next, '-') {
        Lexeme::LineComment
    } else if c == '/' && follows(next, '*') {
        Lexeme::BlockComment
    } else if punctuation_token(c).is_some() {
        Lexeme::Punctuation
    } else if c == '$' {
        Lexeme::NumberedPlaceholder
    } else if c == '*' {
        Lexeme::Star
    } else if c == '/' || c == '%' || c == '+' {
        Lexeme::Arithmetic
    } else if c == '-' && !(next.is_some() && next_numeric) {
        Lexeme::Arithmetic
    } else if operator_char(c) {
        Lexeme::OperatorRun
    } else if c == '_' {
        Lexeme::Charset
    } else if class.alphabetic {
        Lexeme::Word
    } else if c == '-' || class.numeric {
        Lexeme::Number
    } else {
        Lexeme::Unknown
    }
}

/// Whether a run that is scanned with `stop` ends before the character `c` of class
/// `class`; `after_close` says whether the two characters before it are `*/`.
pub fn stops_before(stop: Stop, c: char, class: CharClass, after_close: bool) -> (r: bool)
    ensures
        r == stops_on(stop, c, class, after_close),
{
    match stop {
        Stop::LineBreak => c == '\n' || c == '\r',
        Stop::CommentClose => after_close,
        Stop::NotNumeric => !class.numeric,
        Stop::NotOperator => !operator_char(c),
        Stop::NotAlphanumeric => !(class.alphabetic || class.numeric),
        Stop::NotWord => !(c == '_' || c == '-' || class.alphabetic || class.numeric),
        Stop::NotNumber => !(c == '.' || c == 'x' || c == 'X' || c == 'b' || c == 'B'
            || class.numeric),
    }
}

fn operator_char(c: char) -> (r: bool)
    ensures
        r == is_operator_char(c),
{
    c == '=' || c == '!' || c == '>' || c == '<' || c == '&' || c == '|' || c == '#'
}

fn punctuation_token(c: char) -> (r: Option<Token>)
    ensures
        r == punctuation(c),
{
    match c {
        ' ' => Some(Token::Space),
        '\n' | '\r' => Some(Token::Newline),
        '.' => Some(Token::Dot),
        ',' => Some(Token::Comma),
        '(' => Some(Token::ParentheseOpen),
        ')' => Some(Token::ParentheseClose),
        '[' => Some(Token::SquareBracketOpen),
        ']' => Some(Token::SquareBracketClose),
        ':' => Some(Token::Colon),
        ';' => Some(Token::Semicolon),
        '?' => Some(Token::Placeholder),
        _ => None,
    }
}

impl SqlLexer {
    /// The characters of the text.
    pub closed spec fn text(&self) -> Seq<char> {
        self.buf@
    }

    /// The index of the character at which the next token starts.
    pub closed spec fn position(&self) -> int {
        self.pos as int
    }

    /// Whether a `*` at the current position is a wildcard.
    pub closed spec fn wildcard(&self) -> bool {
        self.past_select
    }

    /// The characters are those of the text, each with its byte offset, and the
    /// position lies within the text.
    pub closed spec fn wf(&self) -> bool {
        &&& self.len == self.char_indices@.len()
        &&& self.len == self.buf@.len()
        &&& self.pos <= self.len
        &&& addressable(self.buf@)
        &&& forall|i: int|
            0 <= i < self.len ==> #[trigger] self.char_indices@[i] == (
                byte_offset(self.buf@, i) as usize,
                self.buf@[i],
            )
    }

    /// A lexer at the start of the text.
    pub fn new(buf: String) -> (lexer: SqlLexer)
        ensures
            lexer.wf(),
            lexer.text() == buf@,
            lexer.position() == 0,
            !lexer.wildcard(),
            addressable(buf@),
    {
        broadcast use vstd::string::group_string_axioms;

        let mut char_indices: Vec<(usize, char)> = Vec::new();
        let text = buf.as_str();
        // No offset is greater than the length of the text in bytes.
        let total = text.as_bytes().len();
        let mut offset: usize = 0;
        proof {
            assert(buf@.subrange(0, buf@.len() as int) =~= buf@);
            lemma_byte_offset_is_encoded_len(buf@, buf@.len() as int);
        }
        for c in it: text.chars()
            invariant
                it.seq() == buf@,
                char_indices@.len() == it.index(),
                offset == byte_offset(buf@, it.index() as int),
                total == byte_offset(buf@, buf@.len() as int),
                forall|i: int|
                    0 <= i < it.index() ==> #[trigger] char_indices@[i] == (
                        byte_offset(buf@, i) as usize,
                        buf@[i],
                    ),
        {
            proof {
                lemma_byte_offset_step(buf@, it.index() as int);
                lemma_byte_offset_monotonic(buf@, it.index() + 1, buf@.len() as int);
            }
            char_indices.push((offset, c));
            offset += c.len_utf8();
        }
        let len = char_indices.len();
        SqlLexer { past_select: false, buf: buf, char_indices: char_indices, len: len, pos: 0 }
    }

    /// Every byte offset into the text is a `usize`.
    proof fn lemma_offset_fits(&self, i: int)
        requires
            self.wf(),
            0 <= i <= self.len,
        ensures
            byte_offset(self.buf@, i) <= usize::MAX,
            i < self.len ==> self.char_indices@[i].0 == byte_offset(self.buf@, i),
            i < self.len ==> self.char_indices@[i].1 == self.buf@[i],
    {
        lemma_byte_offset_monotonic(self.buf@, i, self.len as int);
    }

    fn char_at(&self, pos: usize) -> (c: char)
        requires
            self.wf(),
            pos < self.len,
        ensures
            c == self.text()[pos as int],
    {
        self.char_indices[pos].1
    }

    fn stops_at(&self, stop: Stop, pos: usize) -> (r: bool)
        requires
            self.wf(),
            pos < self.len,
        ensures
            r == stops(stop, self.text(), pos as int),
    {
        let c = self.char_at(pos);
        let after_close = pos > 1 && self.char_at(pos - 2) == '*' && self.char_at(pos - 1) == '/';
        stops_before(stop, c, class(c), after_close)
    }

    /// Moves on from the current character to where the run stops, and gives the
    /// byte offset of that position.
    fn scan_until(&mut self, current_byte_offset: usize, stop: Stop) -> (end: usize)
        requires
            old(self).wf(),
            old(self).pos < old(self).len,
            current_byte_offset == byte_offset(old(self).text(), old(self).pos as int),
        ensures
            final(self).wf(),
            final(self).text() == old(self).text(),
            final(self).wildcard() == old(self).wildcard(),
            final(self).position() == scan_end(old(self).text(), old(self).pos + 1, stop),
            end == byte_offset(final(self).text(), final(self).position()),
    {
        let ghost text = self.buf@;
        let ghost start = self.pos as int;
        let mut current_byte_offset = current_byte_offset;
        self.pos += 1;
        loop
            invariant_except_break
                self.wf(),
                self.buf@ == text,
                self.past_select == old(self).past_select,
                0 <= start < self.pos <= self.len,
                current_byte_offset == byte_offset(text, self.pos - 1),
                scan_end(text, self.pos as int, stop) == scan_end(text, start + 1, stop),
            ensures
                self.wf(),
                self.buf@ == text,
                self.past_select == old(self).past_select,
                self.pos == scan_end(text, start + 1, stop),
                current_byte_offset == byte_offset(text, self.pos as int),
            decreases self.len - self.pos,
        {
            proof {
                self.lemma_offset_fits(self.pos as int);
                self.lemma_offset_fits(self.pos - 1);
            }
            if self.pos >= self.len {
                proof {
                    lemma_byte_offset_step(text, self.pos - 1);
                }
                current_byte_offset += self.char_indices[self.pos - 1].1.len_utf8();
                break ;
            }
            let indice = self.char_indices[self.pos];
            current_byte_offset = indice.0;
            if self.stops_at(stop, self.pos) {
                break ;
            }
            self.pos += 1;
        }
        current_byte_offset
    }

    /// Moves on from the opening delimiter past the closing one, or to the end
    /// of the text where the quote is not closed, and gives the byte offset at which
    /// the content ends.
    fn scan_for_delimiter_with_possible_escaping(
        &mut self,
        current_byte_offset: usize,
        delimiter: char,
    ) -> (end: usize)
        requires
            old(self).wf(),
            old(self).pos < old(self).len,
            current_byte_offset == byte_offset(old(self).text(), old(self).pos as int),
            delimiter != '\\',
        ensures
            final(self).wf(),
            final(self).text() == old(self).text(),
            final(self).wildcard() == old(self).wildcard(),
            ({
                let close = quote_end(
                    old(self).text(),
                    old(self).pos + 1,
                    old(self).pos + 1,
                    delimiter,
                );
                &&& end == byte_offset(old(self).text(), close)
                &&& final(self).position() == if close < old(self).text().len() {
                    close + 1
                } else {
                    close
                }
            }),
    {
        let ghost text = self.buf@;
        let ghost from = self.pos + 1;
        let mut current_byte_offset = current_byte_offset;
        let mut escape_char_count: usize = 0;
        self.pos += 1;
        loop
            invariant_except_break
                self.wf(),
                self.buf@ == text,
                self.past_select == old(self).past_select,
                0 < from <= self.pos <= self.len,
                current_byte_offset == byte_offset(text, self.pos - 1),
                escape_char_count == backslashes_before(text, from, self.pos as int),
                escape_char_count <= self.pos - from,
                quote_end(text, from, self.pos as int, delimiter) == quote_end(
                    text,
                    from,
                    from,
                    delimiter,
                ),
            ensures
                self.wf(),
                self.buf@ == text,
                self.past_select == old(self).past_select,
                ({
                    let close = quote_end(text, from, from, delimiter);
                    &&& current_byte_offset == byte_offset(text, close)
                    &&& self.pos == if close < text.len() {
                        close + 1
                    } else {
                        close
                    }
                }),
            decreases self.len - self.pos,
        {
            proof {
                self.lemma_offset_fits(self.pos as int);
                self.lemma_offset_fits(self.pos - 1);
            }
            if self.pos >= self.len {
                proof {
                    lemma_byte_offset_step(text, self.pos - 1);
                }
                current_byte_offset += self.char_indices[self.pos - 1].1.len_utf8();
                break ;
            }
            let indice = self.char_indices[self.pos];
            current_byte_offset = indice.0;
            if indice.1 == delimiter && escape_char_count % 2 == 0 {
                self.pos += 1;
                break ;
            } else if indice.1 == '\\' {
                escape_char_count += 1;
            } else {
                escape_char_count = 0;
            }
            self.pos += 1;
        }
        current_byte_offset
    }

    /// Whether the characters from `from` up to `to` spell the literal, to the letter
    /// or but for the case of ASCII letters.
    fn text_is(&self, from: usize, to: usize, literal: &str, ignore_case: bool) -> (r: bool)
        requires
            self.wf(),
            from <= to <= self.len,
        ensures
            r == if ignore_case {
                same_ignoring_case(self.text().subrange(from as int, to as int), literal@)
            } else {
                self.text().subrange(from as int, to as int) == literal@
            },
    {
        broadcast use vstd::string::group_string_axioms;

        let ghost word = self.buf@.subrange(from as int, to as int);
        let mut same = true;
        let mut at: usize = from;
        let ghost mut differs: int = 0;
        for c in it: literal.chars()
            invariant
                self.wf(),
                from <= to <= self.len,
                word == self.buf@.subrange(from as int, to as int),
                it.seq() == literal@,
                same ==> at == from + it.index() && at <= to,
                same ==> forall|i: int|
                    0 <= i < it.index() ==> if ignore_case {
                        lower(#[trigger] word[i]) == lower(literal@[i])
                    } else {
                        word[i] == literal@[i]
                    },
                !same ==> 0 <= differs < literal@.len() && (differs >= word.len()
                    || if ignore_case {
                    lower(word[differs]) != lower(literal@[differs])
                } else {
                    word[differs] != literal@[differs]
                }),
        {
            if same {
                if at >= to {
                    same = false;
                    proof {
                        differs = it.index() as int;
                    }
                } else {
                    let found = self.char_at(at);
                    let matches = if ignore_case {
                        to_lower(found) == to_lower(c)
                    } else {
                        found == c
                    };
                    if matches {
                        at += 1;
                    } else {
                        same = false;
                        proof {
                            differs = it.index() as int;
                        }
                    }
                }
            }
        }
        proof {
            if same && at == to && !ignore_case {
                assert(word =~= literal@);
            }
        }
        same && at == to
    }

    /// The kind of token that starts at the current position.
    fn lexeme(&self) -> (kind: Lexeme)
        requires
            self.wf(),
            self.pos < self.len,
        ensures
            kind == lexeme_at(self.text(), self.position()),
    {
        let c = self.char_at(self.pos);
        if self.pos + 1 < self.len {
            let next = self.char_at(self.pos + 1);
            lexeme(c, class(c), Some(next), next.is_numeric())
        } else {
            lexeme(c, class(c), None, false)
        }
    }

    /// The token of the word from `from` up to `to`, where it has a meaning of its own.
    fn fixed_word_token(&self, from: usize, to: usize) -> (token: Option<Token>)
        requires
            self.wf(),
            from <= to <= self.len,
        ensures
            token == fixed_word(self.text().subrange(from as int, to as int)),
    {
        if self.text_is(from, to, "SELECT", true) {
            Some(Token::Keyword(Keyword::Select))
        } else if self.text_is(from, to, "FROM", true) {
            Some(Token::Keyword(Keyword::From))
        } else if self.text_is(from, to, "WHERE", true) {
            Some(Token::Keyword(Keyword::Where))
        } else if self.text_is(from, to, "AND", true) {
            Some(Token::Keyword(Keyword::And))
        } else if self.text_is(from, to, "OR", true) {
            Some(Token::Keyword(Keyword::Or))
        } else if self.text_is(from, to, "UPDATE", true) {
            Some(Token::Keyword(Keyword::Update))
        } else if self.text_is(from, to, "SET", true) {
            Some(Token::Keyword(Keyword::SetClause))
        } else if self.text_is(from, to, "INSERT", true) {
            Some(Token::Keyword(Keyword::Insert))
        } else if self.text_is(from, to, "INTO", true) {
            Some(Token::Keyword(Keyword::Into))
        } else if self.text_is(from, to, "VALUES", true) {
            Some(Token::Keyword(Keyword::Values))
        } else if self.text_is(from, to, "INNER", true) {
            Some(Token::Keyword(Keyword::Inner))
        } else if self.text_is(from, to, "JOIN", true) {
            Some(Token::Keyword(Keyword::Join))
        } else if self.text_is(from, to, "ON", true) {
            Some(Token::Keyword(Keyword::On))
        } else if self.text_is(from, to, "LIMIT", true) {
            Some(Token::Keyword(Keyword::Limit))
        } else if self.text_is(from, to, "OFFSET", true) {
            Some(Token::Keyword(Keyword::Offset))
        } else if self.text_is(from, to, "BETWEEN", true) {
            Some(Token::Keyword(Keyword::Between))
        } else if self.text_is(from, to, "ARRAY", true) {
            Some(Token::Keyword(Keyword::Array))
        } else if self.text_is(from, to, "IN", true) {
            Some(Token::Operator(Operator::Logical(LogicalOperator::In)))
        } else if self.text_is(from, to, "NOT", true) {
            Some(Token::Operator(Operator::Logical(LogicalOperator::Not)))
        } else if self.text_is(from, to, "THEN", true) {
            Some(Token::Operator(Operator::Logical(LogicalOperator::Then)))
        } else if self.text_is(from, to, "ELSE", true) {
            Some(Token::Operator(Operator::Logical(LogicalOperator::Else)))
        } else if self.text_is(from, to, "LIKE", true) {
            Some(Token::Operator(Operator::Logical(LogicalOperator::Like)))
        } else if self.text_is(from, to, "ILIKE", true) {
            Some(Token::Operator(Operator::Logical(LogicalOperator::Ilike)))
        } else if self.text_is(from, to, "RLIKE", true) {
            Some(Token::Operator(Operator::Logical(LogicalOperator::Rlike)))
        } else if self.text_is(from, to, "GLOB", true) {
            Some(Token::Operator(Operator::Logical(LogicalOperator::Glob)))
        } else if self.text_is(from, to, "MATCH", true) {
            Some(Token::Operator(Operator::Logical(LogicalOperator::Match)))
        } else if self.text_is(from, to, "REGEXP", true) {
            Some(Token::Operator(Operator::Logical(LogicalOperator::Regexp)))
        } else if self.text_is(from, to, "BINARY", true) {
            Some(Token::LiteralValueTypeIndicator(LiteralValueTypeIndicator::Binary))
        } else if self.text_is(from, to, "DATE", true) {
            Some(Token::LiteralValueTypeIndicator(LiteralValueTypeIndicator::Date))
        } else if self.text_is(from, to, "TIME", true) {
            Some(Token::LiteralValueTypeIndicator(LiteralValueTypeIndicator::Time))
        } else if self.text_is(from, to, "TIMESTAMP", true) {
            Some(Token::LiteralValueTypeIndicator(LiteralValueTypeIndicator::Timestamp))
        } else if self.text_is(from, to, "x", true) {
            Some(Token::LiteralValueTypeIndicator(LiteralValueTypeIndicator::X))
        } else if self.text_is(from, to, "b", true) {
            Some(Token::LiteralValueTypeIndicator(LiteralValueTypeIndicator::B))
        } else if self.text_is(from, to, "n", true) {
            Some(Token::LiteralValueTypeIndicator(LiteralValueTypeIndicator::N))
        } else if self.text_is(from, to, "NULL", true) {
            Some(Token::Null)
        } else if self.text_is(from, to, "TRUE", true) {
            Some(Token::True)
        } else if self.text_is(from, to, "FALSE", true) {
            Some(Token::False)
        } else {
            None
        }
    }

    /// The operator that the characters from `from` up to `to` spell, if they spell one.
    fn operator_run_token(&self, from: usize, to: usize) -> (token: Option<Token>)
        requires
            self.wf(),
            from <= to <= self.len,
        ensures
            token == operator_token(self.text().subrange(from as int, to as int)),
    {
        if self.text_is(from, to, "<=>", false) {
            Some(Token::Operator(Operator::Comparison(ComparisonOperator::NullSafeEqual)))
        } else if self.text_is(from, to, ">=", false) {
            Some(Token::Operator(Operator::Comparison(ComparisonOperator::GreaterThanOrEqual)))
        } else if self.text_is(from, to, "<=", false) {
            Some(Token::Operator(Operator::Comparison(ComparisonOperator::LessThanOrEqual)))
        } else if self.text_is(from, to, "=>", false) {
            Some(Token::Operator(Operator::Comparison(ComparisonOperator::EqualOrGreaterThan)))
        } else if self.text_is(from, to, "=<", false) {
            Some(Token::Operator(Operator::Comparison(ComparisonOperator::EqualOrLessThan)))
        } else if self.text_is(from, to, "<>", false) {
            Some(Token::Operator(Operator::Comparison(ComparisonOperator::EqualWithArrows)))
        } else if self.text_is(from, to, "!=", false) {
            Some(Token::Operator(Operator::Comparison(ComparisonOperator::NotEqual)))
        } else if self.text_is(from, to, "==", false) {
            Some(Token::Operator(Operator::Comparison(ComparisonOperator::Equal2)))
        } else if self.text_is(from, to, "=", false) {
            Some(Token::Operator(Operator::Comparison(ComparisonOperator::Equal)))
        } else if self.text_is(from, to, ">", false) {
            Some(Token::Operator(Operator::Comparison(ComparisonOperator::GreaterThan)))
        } else if self.text_is(from, to, "<", false) {
            Some(Token::Operator(Operator::Comparison(ComparisonOperator::LessThan)))
        } else if self.text_is(from, to, "<<", false) {
            Some(Token::Operator(Operator::Bitwise(BitwiseOperator::LeftShift)))
        } else if self.text_is(from, to, ">>", false) {
            Some(Token::Operator(Operator::Bitwise(BitwiseOperator::RightShift)))
        } else if self.text_is(from, to, "&", false) {
            Some(Token::Operator(Operator::Bitwise(BitwiseOperator::And)))
        } else if self.text_is(from, to, "|", false) {
            Some(Token::Operator(Operator::Bitwise(BitwiseOperator::Or)))
        } else if self.text_is(from, to, "#>", false) {
            Some(Token::Operator(Operator::Json(JsonOperator::SpecifiedPath)))
        } else if self.text_is(from, to, "#>>", false) {
            Some(Token::Operator(Operator::Json(JsonOperator::SpecifiedPathAsText)))
        } else {
            None
        }
    }

    /// The token of the run from `from` up to `to` that starts like a number.
    fn number_run_token(&self, from: usize, to: usize, slice: BufferSlice) -> (token: Token)
        requires
            self.wf(),
            from <= to <= self.len,
        ensures
            token == number_token(self.text().subrange(from as int, to as int), slice),
    {
        if self.text_is(from, to, "0X", false) || self.text_is(from, to, "0x", false) {
            Token::LiteralValueTypeIndicator(LiteralValueTypeIndicator::ZeroX)
        } else if self.text_is(from, to, "0B", false) || self.text_is(from, to, "0b", false) {
            Token::LiteralValueTypeIndicator(LiteralValueTypeIndicator::ZeroB)
        } else {
            Token::Numeric(slice)
        }
    }

    /// Cuts the rest of the text into tokens.
    pub fn lex(self) -> (sql: Sql)
        requires
            self.wf(),
        ensures
            sql@ == (SqlView {
                text: self.text(),
                tokens: lex_from(self.text(), self.position(), self.wildcard()),
            }),
            addressable(sql@.text),
            forall|i: int|
                0 <= i < sql@.tokens.len() ==> is_token_of(sql@.text, #[trigger] sql@.tokens[i]),
    {
        proof {
            lemma_lex_tokens_of_text(self.buf@, self.pos as int, self.past_select);
        }
        let mut lexer = self;
        let mut tokens: Vec<Token> = Vec::new();
        let ghost text = self.buf@;
        let ghost whole = lex_from(text, self.pos as int, self.past_select);

        loop
            invariant
                lexer.wf(),
                lexer.buf@ == text,
                tokens@ + lex_from(text, lexer.pos as int, lexer.past_select) == whole,
            ensures
                lexer.buf@ == text,
                tokens@ == whole,
            decreases lexer.len - lexer.pos,
        {
            if lexer.pos >= lexer.len {
                break ;
            }
            let ghost at = lexer.pos as int;
            let ghost before = tokens@;
            let ghost wildcard = lexer.past_select;
            let start = lexer.pos;
            let (current_byte_offset, current_char) = lexer.char_indices[lexer.pos];
            proof {
                lexer.lemma_offset_fits(at);
                lexer.lemma_offset_fits(at + 1);
                lemma_byte_offset_step(text, at);
                lemma_utf8_width_bounds(current_char);
                lemma_scan_next_bounds(text, at);
                lemma_char_range(text[at]);
            }

            match lexer.lexeme() {
                Lexeme::Quoted => {
                    let end_byte_offset = lexer.scan_for_delimiter_with_possible_escaping(
                        current_byte_offset,
                        current_char,
                    );
                    proof {
                        let close = quote_end(text, at + 1, at + 1, current_char);
                        lemma_quote_end_bounds(text, at + 1, at + 1, current_char);
                        lexer.lemma_offset_fits(close);
                    }
                    let slice = BufferSlice::new(current_byte_offset + 1, end_byte_offset);
                    let token = if current_char == '`' {
                        Token::Backticked(slice)
                    } else if current_char == '\'' {
                        Token::SingleQuoted(slice)
                    } else {
                        Token::DoubleQuoted(slice)
                    };
                    tokens.push(token);
                },
                Lexeme::LineComment => {
                    let end_byte_offset = lexer.scan_until(current_byte_offset, Stop::LineBreak);
                    tokens.push(
                        Token::Comment(BufferSlice::new(current_byte_offset, end_byte_offset)),
                    );
                },
                Lexeme::BlockComment => {
                    let end_byte_offset = lexer.scan_until(current_byte_offset, Stop::CommentClose);
                    tokens.push(
                        Token::Comment(BufferSlice::new(current_byte_offset, end_byte_offset)),
                    );
                },
                Lexeme::Punctuation => {
                    lexer.pos += 1;
                    match punctuation_token(current_char) {
                        Some(token) => tokens.push(token),
                        None => {},
                    }
                },
                Lexeme::NumberedPlaceholder => {
                    let end_byte_offset = lexer.scan_until(current_byte_offset, Stop::NotNumeric);
                    tokens.push(
                        Token::NumberedPlaceholder(
                            BufferSlice::new(current_byte_offset, end_byte_offset),
                        ),
                    );
                },
                Lexeme::Star => {
                    lexer.pos += 1;
                    if lexer.past_select {
                        tokens.push(Token::Wildcard);
                    } else {
                        tokens.push(
                            Token::Operator(Operator::Arithmetic(ArithmeticOperator::Multiply)),
                        );
                    }
                },
                Lexeme::Arithmetic => {
                    lexer.pos += 1;
                    let operator = if current_char == '/' {
                        ArithmeticOperator::Divide
                    } else if current_char == '%' {
                        ArithmeticOperator::Modulo
                    } else if current_char == '+' {
                        ArithmeticOperator::Plus
                    } else {
                        ArithmeticOperator::Minus
                    };
                    tokens.push(Token::Operator(Operator::Arithmetic(operator)));
                },
                Lexeme::OperatorRun => {
                    let _ = lexer.scan_until(current_byte_offset, Stop::NotOperator);
                    match lexer.operator_run_token(start, lexer.pos) {
                        Some(token) => tokens.push(token),
                        None => {
                            let mut i = start;
                            while i < lexer.pos
                                invariant
                                    lexer.wf(),
                                    lexer.buf@ == text,
                                    at == start,
                                    start <= i <= lexer.pos,
                                    tokens@ == before + unknown_tokens(text.subrange(at, i as int)),
                                decreases lexer.pos - i,
                            {
                                let ghost seen = text.subrange(at, i as int);
                                let ghost more = text.subrange(at, i + 1);
                                assert(more.drop_last() =~= seen);
                                tokens.push(Token::Unknown(lexer.char_at(i)));
                                i += 1;
                            }
                        },
                    }
                },
                Lexeme::Charset => {
                    let end_byte_offset = lexer.scan_until(
                        current_byte_offset,
                        Stop::NotAlphanumeric,
                    );
                    tokens.push(
                        Token::LiteralValueTypeIndicator(
                            LiteralValueTypeIndicator::Charset(
                                BufferSlice::new(current_byte_offset + 1, end_byte_offset),
                            ),
                        ),
                    );
                },
                Lexeme::Word => {
                    let end_byte_offset = lexer.scan_until(current_byte_offset, Stop::NotWord);
                    match lexer.fixed_word_token(start, lexer.pos) {
                        Some(token) => {
                            match token {
                                Token::Keyword(Keyword::Select) => {
                                    lexer.past_select = true;
                                },
                                Token::Keyword(Keyword::From) => {
                                    lexer.past_select = false;
                                },
                                _ => {},
                            }
                            tokens.push(token);
                        },
                        None => {
                            tokens.push(
                                Token::Keyword(
                                    Keyword::Other(
                                        BufferSlice::new(current_byte_offset, end_byte_offset),
                                    ),
                                ),
                            );
                        },
                    }
                },
                Lexeme::Number => {
                    let end_byte_offset = lexer.scan_until(current_byte_offset, Stop::NotNumber);
                    let slice = BufferSlice::new(current_byte_offset, end_byte_offset);
                    let token = lexer.number_run_token(start, lexer.pos, slice);
                    tokens.push(token);
                },
                Lexeme::Unknown => {
                    lexer.pos += 1;
                    tokens.push(Token::Unknown(current_char));
                },
            }
            proof {
                // The tokens from `at` on are those just read and those of the rest.
                let rest = lex_from(text, lexer.pos as int, lexer.past_select);
                assert(tokens@ =~= before + scan_tokens(text, at, wildcard));
                assert(lex_from(text, at, wildcard) == scan_tokens(text, at, wildcard) + rest);
                assert(tokens@ + rest =~= before + (scan_tokens(text, at, wildcard) + rest));
            }
        }
        Sql { buf: lexer.buf, tokens: tokens }
    }
}

} // verus!
