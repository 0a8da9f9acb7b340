//! The sanitizer: takes the values out of the tokens of a statement.

use crate::pass::{is_substitute, lemma_sanitized_shape};
use crate::sanitizing::{
    blank, is_sticky, lemma_blank, lemma_list_end_bounds, lemma_rows_end_bounds, lemma_step_bounds,
    list_end, next_state, rewrite_at, rows_end, sanitize_from, sanitized, step_next, step_tokens,
    Rewrite, State,
};
use crate::sql::{Sql, SqlView};
use crate::token::{Keyword, Token};
use vstd::prelude::*;

verus! {

/// The tokens of a statement, to be sanitized.
pub struct SqlSanitizer {
    pub sql: Sql,
}

/// Whether the token may hold a value.
fn literal(token: &Token) -> (r: bool)
    ensures
        r == token.is_literal(),
{
    match token {
        Token::SingleQuoted(_)
        | Token::DoubleQuoted(_)
        | Token::Numeric(_)
        | Token::Null
        | Token::True
        | Token::False => true,
        _ => false,
    }
}

/// Whether the state is a scope that lasts until it is closed.
fn sticky(state: State) -> (r: bool)
    ensures
        r == is_sticky(state),
{
    state == State::InsertValues || state == State::GenericKeywordScopeOpened
}

/// The state after a token, from the state before it.
pub fn transition(state: State, token: &Token) -> (next: State)
    ensures
        next == next_state(state, *token),
{
    match token {
        Token::Operator(_) if state != State::JoinOnClause => State::AfterOperator,
        Token::Keyword(Keyword::Values) => State::InsertValues,
        Token::Keyword(Keyword::On) => State::JoinOnClause,
        Token::Keyword(Keyword::Offset) => State::OffsetClause,
        Token::Keyword(Keyword::Between) => State::BetweenClause,
        Token::Keyword(Keyword::Array) => State::ArrayClause,
        Token::Keyword(Keyword::And) if state == State::BetweenClause => state,
        Token::Keyword(Keyword::And) if state == State::GenericKeywordScope => {
            State::GenericKeywordScopeOpened
        },
        Token::Keyword(Keyword::Or) if state == State::GenericKeywordScope => {
            State::GenericKeywordScopeOpened
        },
        Token::Keyword(Keyword::Insert) | Token::Keyword(Keyword::Into) => state,
        Token::Keyword(_) if state == State::GenericKeywordScopeOpened => state,
        Token::Keyword(_) => State::GenericKeywordScope,
        Token::LiteralValueTypeIndicator(_) if sticky(state) => state,
        Token::LiteralValueTypeIndicator(_) => State::LiteralTypeIndicator,
        Token::ParentheseOpen if state == State::AfterOperator => State::ScopeOpened,
        Token::ParentheseOpen if state == State::GenericKeywordScope => {
            State::GenericKeywordScopeOpened
        },
        Token::ParentheseOpen if state == State::InsertValues => state,
        Token::ParentheseOpen if state == State::InsertRowClosed => state,
        Token::SquareBracketOpen if state == State::ArrayClause => State::ArrayScopeOpened,
        Token::ParentheseClose if state == State::InsertValues => State::InsertRowClosed,
        Token::Comma if state == State::InsertRowClosed => state,
        Token::ParentheseClose | Token::SquareBracketClose => State::Default,
        Token::Dot if state == State::JoinOnClause => state,
        Token::SingleQuoted(_)
        | Token::DoubleQuoted(_)
        | Token::Numeric(_)
        | Token::Null
        | Token::True
        | Token::False => state,
        Token::Comment(_) => state,
        Token::Space => state,
        Token::Tombstone => state,
        _ if sticky(state) => state,
        _ => State::Default,
    }
}

/// What the pass does at position `pos`, which it reaches in `state`.
pub fn rewrite(tokens: &Vec<Token>, pos: usize, state: State) -> (r: Rewrite)
    requires
        pos < tokens.len(),
    ensures
        r == rewrite_at(tokens@, pos as int, state),
{
    let token = &tokens[pos];
    if matches!(token, Token::ParentheseOpen) && state == State::InsertRowClosed {
        Rewrite::CollapseRows
    } else if literal(token) && (state == State::AfterOperator || state == State::InsertValues
        || state == State::OffsetClause || state == State::GenericKeywordScopeOpened || state
        == State::BetweenClause || state == State::LiteralTypeIndicator) {
        // A double-quoted name beside a dot is a part of a qualified name.
        let qualified = matches!(token, Token::DoubleQuoted(_)) && ((pos > 0 && matches!(
            tokens[pos - 1],
            Token::Dot
        )) || (pos + 1 < tokens.len() && matches!(tokens[pos + 1], Token::Dot)));
        if qualified {
            Rewrite::Keep
        } else {
            Rewrite::Replace
        }
    } else if literal(token) && (state == State::ScopeOpened || state == State::ArrayScopeOpened) {
        Rewrite::CollapseList
    } else if matches!(token, Token::Comment(_)) {
        Rewrite::DropComment
    } else {
        Rewrite::Keep
    }
}

impl SqlSanitizer {
    /// A sanitizer of the tokens of `sql`.
    pub fn new(sql: Sql) -> (sanitizer: SqlSanitizer)
        ensures
            sanitizer.sql@ == sql@,
    {
        SqlSanitizer { sql: sql }
    }

    /// Takes the values out of the tokens, in one pass; the text stays as it is.
    pub fn sanitize(self) -> (sql: Sql)
        ensures
            sql@ == (SqlView { text: self.sql@.text, tokens: sanitized(self.sql@.tokens) }),
            sql@.tokens.len() == self.sql@.tokens.len(),
            forall|i: int|
                0 <= i < sql@.tokens.len() ==> #[trigger] sql@.tokens[i] == self.sql@.tokens[i]
                    || is_substitute(sql@.tokens[i]),
            forall|i: int| 0 <= i < sql@.tokens.len() ==> !(#[trigger] sql@.tokens[i] is Comment),
    {
        proof {
            lemma_sanitized_shape(self.sql@.tokens);
        }
        let mut sanitizer = self;
        let mut state = State::Default;
        let mut pos: usize = 0;
        let ghost text = self.sql@.text;
        let ghost result = sanitized(self.sql@.tokens);

        loop
            invariant
                sanitizer.sql@.text == text,
                pos <= sanitizer.sql@.tokens.len(),
                sanitize_from(sanitizer.sql@.tokens, pos as int, state) == result,
            ensures
                sanitizer.sql@.text == text,
                sanitizer.sql@.tokens == result,
            decreases sanitizer.sql@.tokens.len() - pos,
        {
            if pos >= sanitizer.sql.tokens.len() {
                break ;
            }
            let token = sanitizer.sql.tokens[pos];
            let ghost tokens = sanitizer.sql@.tokens;
            let ghost at = pos as int;
            let len = sanitizer.sql.tokens.len();
            proof {
                lemma_step_bounds(tokens, at, state);
            }

            match rewrite(&sanitizer.sql.tokens, pos, state) {
                Rewrite::Keep => {
                    pos += 1;
                },
                Rewrite::Replace => {
                    sanitizer.placeholder(pos);
                    pos += 1;
                },
                Rewrite::DropComment => {
                    sanitizer.remove(pos);
                    if pos > 0 && matches!(sanitizer.sql.tokens[pos - 1], Token::Space) {
                        sanitizer.remove(pos - 1);
                    }
                    pos += 1;
                },
                Rewrite::CollapseRows => {
                    // This row and those after it go, with the commas and spaces
                    // between them, and one ellipsis stands for them.
                    let start = pos;
                    let mut in_row = true;
                    let mut cursor = pos;
                    loop
                        invariant_except_break
                            sanitizer.sql@.text == text,
                            start == at,
                            0 <= start <= pos <= cursor <= len,
                            len == tokens.len(),
                            sanitizer.sql@.tokens == blank(tokens, start as int, pos as int),
                            rows_end(tokens, cursor as int, in_row, pos as int) == rows_end(
                                tokens,
                                start as int,
                                true,
                                start as int,
                            ),
                        ensures
                            sanitizer.sql@.text == text,
                            start <= pos <= len,
                            len == tokens.len(),
                            sanitizer.sql@.tokens == blank(tokens, start as int, pos as int),
                            pos == rows_end(tokens, start as int, true, start as int),
                        decreases len - cursor,
                    {
                        if cursor >= len {
                            break ;
                        }
                        proof {
                            lemma_blank(tokens, start as int, pos as int);
                        }
                        let current = sanitizer.sql.tokens[cursor];
                        if matches!(current, Token::ParentheseClose) {
                            in_row = false;
                        } else if matches!(current, Token::ParentheseOpen) || in_row {
                            in_row = true;
                        } else if matches!(current, Token::Comma | Token::Space) {
                            cursor += 1;
                            continue ;
                        } else {
                            break ;
                        }
                        while pos <= cursor
                            invariant
                                sanitizer.sql@.text == text,
                                start <= pos <= cursor + 1,
                                cursor < len,
                                len == tokens.len(),
                                sanitizer.sql@.tokens == blank(tokens, start as int, pos as int),
                            decreases cursor + 1 - pos,
                        {
                            proof {
                                lemma_blank(tokens, start as int, pos as int);
                            }
                            sanitizer.remove(pos);
                            pos += 1;
                        }
                        cursor += 1;
                    }
                    proof {
                        lemma_blank(tokens, start as int, pos as int);
                        lemma_rows_end_bounds(tokens, start as int, true, start as int);
                    }
                    sanitizer.ellipsis(start);
                },
                Rewrite::CollapseList => {
                    // A list of values: all of it goes, up to the closing parenthesis or
                    // bracket, and one placeholder stands for it.
                    let start = pos;
                    proof {
                        lemma_list_end_bounds(tokens, at);
                    }
                    loop
                        invariant_except_break
                            sanitizer.sql@.text == text,
                            start == at,
                            start <= pos <= len,
                            len == tokens.len(),
                            sanitizer.sql@.tokens == blank(tokens, start as int, pos as int),
                            list_end(tokens, pos as int) == list_end(tokens, start as int),
                        ensures
                            sanitizer.sql@.text == text,
                            start <= pos <= len,
                            len == tokens.len(),
                            sanitizer.sql@.tokens == blank(tokens, start as int, pos as int),
                            pos == list_end(tokens, start as int),
                        decreases len - pos,
                    {
                        if pos >= len {
                            break ;
                        }
                        proof {
                            lemma_blank(tokens, start as int, pos as int);
                        }
                        let current = sanitizer.sql.tokens[pos];
                        if matches!(current, Token::ParentheseClose | Token::SquareBracketClose) {
                            break ;
                        }
                        sanitizer.remove(pos);
                        pos += 1;
                    }
                    proof {
                        lemma_blank(tokens, start as int, pos as int);
                    }
                    sanitizer.placeholder(start);
                },
            }
            state = transition(state, &token);
        }
        sanitizer.sql
    }

    /// Deletes the token at `position`.
    fn remove(&mut self, position: usize)
        requires
            position < old(self).sql@.tokens.len(),
        ensures
            final(self).sql@ == (SqlView {
                text: old(self).sql@.text,
                tokens: old(self).sql@.tokens.update(position as int, Token::Tombstone),
            }),
    {
        self.sql.tokens[position] = Token::Tombstone;
    }

    /// Replaces the token at `position` by a placeholder.
    fn placeholder(&mut self, position: usize)
        requires
            position < old(self).sql@.tokens.len(),
        ensures
            final(self).sql@ == (SqlView {
                text: old(self).sql@.text,
                tokens: old(self).sql@.tokens.update(position as int, Token::Placeholder),
            }),
    {
        self.sql.tokens[position] = Token::Placeholder;
    }

    /// Replaces the token at `position` by an ellipsis.
    fn ellipsis(&mut self, position: usize)
        requires
            position < old(self).sql@.tokens.len(),
        ensures
            final(self).sql@ == (SqlView {
                text: old(self).sql@.text,
                tokens: old(self).sql@.tokens.update(position as int, Token::Ellipsis),
            }),
    {
        self.sql.tokens[position] = Token::Ellipsis;
    }
}

} // verus!
