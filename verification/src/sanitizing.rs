//! What the sanitizer does: one pass over the tokens, from the first to the last,
//! with one state that says in what kind of place the pass is.
//!
//! A token is never moved. Where a value is taken out, its token is replaced by a
//! placeholder; where tokens are deleted, each leaves a tombstone behind, so that
//! every token keeps its position.

use crate::token::{Keyword, Token};
use vstd::prelude::*;

verus! {

/// The kind of place that the pass is in.
#[derive(Debug, PartialEq, Eq, Clone, Copy, Structural)]
pub enum State {
    /// Nothing that stands here is taken for a value.
    Default,
    /// After an operator: a literal is a value.
    AfterOperator,
    /// After an operator and an opening parenthesis: a literal starts a list of values.
    ScopeOpened,
    /// After `VALUES`: the first row, in which each literal is a value.
    InsertValues,
    /// After the closing parenthesis of a row of `VALUES`.
    InsertRowClosed,
    /// After `ON`.
    JoinOnClause,
    /// After `OFFSET`: a literal is a value.
    OffsetClause,
    /// After `BETWEEN`: a literal is a value, also after the `AND` that follows.
    BetweenClause,
    /// After a keyword or an identifier.
    GenericKeywordScope,
    /// After a keyword or an identifier and an opening parenthesis, `AND` or `OR`:
    /// each literal is a value.
    GenericKeywordScopeOpened,
    /// After `ARRAY`.
    ArrayClause,
    /// After `ARRAY` and an opening bracket: a literal starts a list of values.
    ArrayScopeOpened,
    /// After a prefix that announces a literal: a literal is a value.
    LiteralTypeIndicator,
}

/// What the pass does to the tokens at a position.
#[derive(Debug, PartialEq, Eq, Clone, Copy, Structural)]
pub enum Rewrite {
    /// Nothing.
    Keep,
    /// The token is replaced by a placeholder.
    Replace,
    /// The token and all that follows it up to the next closing parenthesis or
    /// bracket are replaced by one placeholder.
    CollapseList,
    /// The row that starts here and the rows that follow it are replaced by one ellipsis.
    CollapseRows,
    /// The comment is deleted, and the space before it.
    DropComment,
}

/// A scope that lasts until it is closed, whatever stands in it.
pub open spec fn is_sticky(state: State) -> bool {
    state is InsertValues || state is GenericKeywordScopeOpened
}

/// In these states every literal is replaced by a placeholder of its own.
pub open spec fn replaces_literals(state: State) -> bool {
    state is AfterOperator || state is InsertValues || state is OffsetClause
        || state is GenericKeywordScopeOpened || state is BetweenClause
        || state is LiteralTypeIndicator
}

/// In these states a literal starts a list that is replaced by one placeholder.
pub open spec fn collapses_lists(state: State) -> bool {
    state is ScopeOpened || state is ArrayScopeOpened
}

pub open spec fn is_closer(token: Token) -> bool {
    token is ParentheseClose || token is SquareBracketClose
}

/// The state after a token, from the state before it.
pub open spec fn next_state(state: State, token: Token) -> State {
    if token is Operator && !(state is JoinOnClause) {
        State::AfterOperator
    } else if token == Token::Keyword(Keyword::Values) {
        State::InsertValues
    } else if token == Token::Keyword(Keyword::On) {
        State::JoinOnClause
    } else if token == Token::Keyword(Keyword::Offset) {
        State::OffsetClause
    } else if token == Token::Keyword(Keyword::Between) {
        State::BetweenClause
    } else if token == Token::Keyword(Keyword::Array) {
        State::ArrayClause
    } else if token == Token::Keyword(Keyword::And) && state is BetweenClause {
        state
    } else if (token == Token::Keyword(Keyword::And) || token == Token::Keyword(Keyword::Or))
        && state is GenericKeywordScope {
        State::GenericKeywordScopeOpened
    } else if token == Token::Keyword(Keyword::Insert) || token == Token::Keyword(Keyword::Into) {
        state
    } else if token is Keyword {
        if state is GenericKeywordScopeOpened {
            state
        } else {
            State::GenericKeywordScope
        }
    } else if token is LiteralValueTypeIndicator {
        if is_sticky(state) {
            state
        } else {
            State::LiteralTypeIndicator
        }
    } else if token is ParentheseOpen && state is AfterOperator {
        State::ScopeOpened
    } else if token is ParentheseOpen && state is GenericKeywordScope {
        State::GenericKeywordScopeOpened
    } else if token is ParentheseOpen && (state is InsertValues || state is InsertRowClosed) {
        state
    } else if token is SquareBracketOpen && state is ArrayClause {
        State::ArrayScopeOpened
    } else if token is ParentheseClose && state is InsertValues {
        State::InsertRowClosed
    } else if token is Comma && state is InsertRowClosed {
        state
    } else if is_closer(token) {
        State::Default
    } else if token is Dot && state is JoinOnClause {
        state
    } else if token.is_literal() || token is Comment || token is Space || token is Tombstone {
        state
    } else if is_sticky(state) {
        state
    } else {
        State::Default
    }
}

pub open spec fn is_dot(tokens: Seq<Token>, i: int) -> bool {
    0 <= i < tokens.len() && tokens[i] is Dot
}

pub open spec fn is_space(tokens: Seq<Token>, i: int) -> bool {
    0 <= i < tokens.len() && tokens[i] is Space
}

/// What the pass does at position `pos`, which it reaches in `state`.
pub open spec fn rewrite_at(tokens: Seq<Token>, pos: int, state: State) -> Rewrite {
    let token = tokens[pos];
    if token is ParentheseOpen && state is InsertRowClosed {
        Rewrite::CollapseRows
    } else if token.is_literal() && replaces_literals(state) {
        if token is DoubleQuoted && (is_dot(tokens, pos - 1) || is_dot(tokens, pos + 1)) {
            Rewrite::Keep
        } else {
            Rewrite::Replace
        }
    } else if token.is_literal() && collapses_lists(state) {
        Rewrite::CollapseList
    } else if token is Comment {
        Rewrite::DropComment
    } else {
        Rewrite::Keep
    }
}

/// The tokens with a tombstone at each position from `from` up to `to`.
pub open spec fn blank(tokens: Seq<Token>, from: int, to: int) -> Seq<Token>
    decreases to - from,
{
    if to <= from {
        tokens
    } else {
        blank(tokens, from, to - 1).update(to - 1, Token::Tombstone)
    }
}

/// The first position from `i` on that holds a closing parenthesis or bracket; the
/// number of tokens if none does.
pub open spec fn list_end(tokens: Seq<Token>, i: int) -> int
    decreases tokens.len() - i,
{
    if i >= tokens.len() || is_closer(tokens[i]) {
        i
    } else {
        list_end(tokens, i + 1)
    }
}

/// Where the rows that are collapsed end. The walk is at position `i`, within a row
/// or between two rows, and `end` is the position after the last token that belongs
/// to a row so far. Commas and spaces between two rows belong to the rows; those
/// after the last row do not.
pub open spec fn rows_end(tokens: Seq<Token>, i: int, in_row: bool, end: int) -> int
    decreases tokens.len() - i,
{
    if i >= tokens.len() {
        end
    } else if tokens[i] is ParentheseClose {
        rows_end(tokens, i + 1, false, i + 1)
    } else if tokens[i] is ParentheseOpen || in_row {
        rows_end(tokens, i + 1, true, i + 1)
    } else if tokens[i] is Comma || tokens[i] is Space {
        rows_end(tokens, i + 1, false, end)
    } else {
        end
    }
}

/// The position at which the pass goes on after position `pos`.
pub open spec fn step_next(tokens: Seq<Token>, pos: int, state: State) -> int {
    match rewrite_at(tokens, pos, state) {
        Rewrite::CollapseList => list_end(tokens, pos),
        Rewrite::CollapseRows => rows_end(tokens, pos, true, pos),
        _ => pos + 1,
    }
}

/// The tokens after the step that the pass takes at position `pos`.
pub open spec fn step_tokens(tokens: Seq<Token>, pos: int, state: State) -> Seq<Token> {
    match rewrite_at(tokens, pos, state) {
        Rewrite::Keep => tokens,
        Rewrite::Replace => tokens.update(pos, Token::Placeholder),
        Rewrite::CollapseList => blank(tokens, pos, list_end(tokens, pos)).update(
            pos,
            Token::Placeholder,
        ),
        Rewrite::CollapseRows => blank(tokens, pos, rows_end(tokens, pos, true, pos)).update(
            pos,
            Token::Ellipsis,
        ),
        Rewrite::DropComment => if is_space(tokens, pos - 1) {
            tokens.update(pos, Token::Tombstone).update(pos - 1, Token::Tombstone)
        } else {
            tokens.update(pos, Token::Tombstone)
        },
    }
}

/// The tokens after the pass, which is at position `pos` in `state`.
pub open spec fn sanitize_from(tokens: Seq<Token>, pos: int, state: State) -> Seq<Token>
    decreases tokens.len() - pos,
    via sanitize_from_decreases
{
    if pos < 0 || pos >= tokens.len() {
        tokens
    } else {
        sanitize_from(
            step_tokens(tokens, pos, state),
            step_next(tokens, pos, state),
            next_state(state, tokens[pos]),
        )
    }
}

/// The tokens after a whole pass.
pub open spec fn sanitized(tokens: Seq<Token>) -> Seq<Token> {
    sanitize_from(tokens, 0, State::Default)
}

#[via_fn]
proof fn sanitize_from_decreases(tokens: Seq<Token>, pos: int, state: State) {
    if 0 <= pos < tokens.len() {
        lemma_step_bounds(tokens, pos, state);
    }
}

/// Blanking keeps the number of tokens and changes those from `from` up to `to` only.
pub proof fn lemma_blank(tokens: Seq<Token>, from: int, to: int)
    requires
        0 <= from <= to <= tokens.len(),
    ensures
        blank(tokens, from, to).len() == tokens.len(),
        forall|i: int|
            0 <= i < tokens.len() ==> #[trigger] blank(tokens, from, to)[i] == if from <= i < to {
                Token::Tombstone
            } else {
                tokens[i]
            },
    decreases to - from,
{
    if from < to {
        lemma_blank(tokens, from, to - 1);
    }
}

/// A list ends within the tokens, at the first closing parenthesis or bracket.
pub proof fn lemma_list_end_bounds(tokens: Seq<Token>, i: int)
    requires
        0 <= i <= tokens.len(),
    ensures
        i <= list_end(tokens, i) <= tokens.len(),
        list_end(tokens, i) < tokens.len() ==> is_closer(tokens[list_end(tokens, i)]),
        forall|j: int| i <= j < list_end(tokens, i) ==> !is_closer(#[trigger] tokens[j]),
    decreases tokens.len() - i,
{
    if i < tokens.len() && !is_closer(tokens[i]) {
        lemma_list_end_bounds(tokens, i + 1);
    }
}

/// Rows end within the tokens, and after the token under the walk where that token
/// belongs to a row.
pub proof fn lemma_rows_end_bounds(tokens: Seq<Token>, i: int, in_row: bool, end: int)
    requires
        0 <= end <= i <= tokens.len(),
    ensures
        end <= rows_end(tokens, i, in_row, end) <= tokens.len(),
        i < tokens.len() && (in_row || tokens[i] is ParentheseOpen || tokens[i] is ParentheseClose)
            ==> i < rows_end(tokens, i, in_row, end),
    decreases tokens.len() - i,
{
    if i < tokens.len() {
        if tokens[i] is ParentheseClose {
            lemma_rows_end_bounds(tokens, i + 1, false, i + 1);
        } else if tokens[i] is ParentheseOpen || in_row {
            lemma_rows_end_bounds(tokens, i + 1, true, i + 1);
        } else if tokens[i] is Comma || tokens[i] is Space {
            lemma_rows_end_bounds(tokens, i + 1, false, end);
        }
    }
}

/// A step keeps the number of tokens and moves on by at least one position.
pub proof fn lemma_step_bounds(tokens: Seq<Token>, pos: int, state: State)
    requires
        0 <= pos < tokens.len(),
    ensures
        step_tokens(tokens, pos, state).len() == tokens.len(),
        pos < step_next(tokens, pos, state) <= tokens.len(),
{
    lemma_list_end_bounds(tokens, pos);
    lemma_rows_end_bounds(tokens, pos, true, pos);
    lemma_blank(tokens, pos, list_end(tokens, pos));
    lemma_blank(tokens, pos, rows_end(tokens, pos, true, pos));
}

} // verus!
