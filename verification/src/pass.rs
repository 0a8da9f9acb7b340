//! What holds of every pass of the sanitizer, and which statements a pass leaves as
//! they are.

use crate::round_trip::{lemma_round_trip, written_as_read};
use crate::sanitizing::{
    lemma_blank, lemma_list_end_bounds, lemma_rows_end_bounds, lemma_step_bounds, list_end,
    next_state, rewrite_at, rows_end, sanitize_from, sanitized, step_next, step_tokens, State,
};
use crate::scanning::lex_text;
use crate::text::addressable;
use crate::token::{Keyword, Token};
use crate::writer::render;
use vstd::prelude::*;

verus! {

/// A token that only the sanitizer makes: a placeholder that stands for a value, an
/// ellipsis that stands for rows, or what is left of a deleted token.
pub open spec fn is_substitute(token: Token) -> bool {
    token is Placeholder || token is Ellipsis || token is Tombstone
}

/// A step changes a token only into a placeholder, an ellipsis or a tombstone, and
/// no token before the position of the step but a space directly before it.
pub proof fn lemma_step_shape(tokens: Seq<Token>, pos: int, state: State)
    requires
        0 <= pos < tokens.len(),
    ensures
        step_tokens(tokens, pos, state).len() == tokens.len(),
        pos < step_next(tokens, pos, state) <= tokens.len(),
        forall|j: int|
            0 <= j < tokens.len() ==> #[trigger] step_tokens(tokens, pos, state)[j] == tokens[j]
                || is_substitute(step_tokens(tokens, pos, state)[j]),
        forall|j: int|
            0 <= j < pos - 1 ==> #[trigger] step_tokens(tokens, pos, state)[j] == tokens[j],
        pos >= 1 && !(tokens[pos - 1] is Space) ==> step_tokens(tokens, pos, state)[pos - 1]
            == tokens[pos - 1],
        forall|j: int|
            pos <= j < step_next(tokens, pos, state) ==> !(#[trigger] step_tokens(
                tokens,
                pos,
                state,
            )[j] is Comment),
        !(rewrite_at(tokens, pos, state) is Keep) ==> step_tokens(tokens, pos, state)[pos]
            != tokens[pos] && is_substitute(step_tokens(tokens, pos, state)[pos]),
        rewrite_at(tokens, pos, state) is Keep ==> step_tokens(tokens, pos, state) == tokens
            && step_next(tokens, pos, state) == pos + 1,
{
    lemma_step_bounds(tokens, pos, state);
    lemma_list_end_bounds(tokens, pos);
    lemma_rows_end_bounds(tokens, pos, true, pos);
    lemma_blank(tokens, pos, list_end(tokens, pos));
    lemma_blank(tokens, pos, rows_end(tokens, pos, true, pos));
}

/// What holds of the tokens after a pass that was at position `pos`: they are as
/// many as before; each is the token that stood there or a placeholder, an
/// ellipsis or a tombstone; no comment is left from `pos` on; and what stands
/// before `pos` stays, but for a space directly before it.
pub proof fn lemma_pass_shape(tokens: Seq<Token>, pos: int, state: State)
    requires
        0 <= pos <= tokens.len(),
    ensures
        sanitize_from(tokens, pos, state).len() == tokens.len(),
        forall|j: int|
            0 <= j < tokens.len() ==> #[trigger] sanitize_from(tokens, pos, state)[j] == tokens[j]
                || is_substitute(sanitize_from(tokens, pos, state)[j]),
        forall|j: int|
            pos <= j < tokens.len() ==> !(#[trigger] sanitize_from(tokens, pos, state)[j]
                is Comment),
        forall|j: int|
            0 <= j < pos - 1 ==> #[trigger] sanitize_from(tokens, pos, state)[j] == tokens[j],
        pos >= 1 && !(tokens[pos - 1] is Space) ==> sanitize_from(tokens, pos, state)[pos - 1]
            == tokens[pos - 1],
    decreases tokens.len() - pos,
{
    if pos < tokens.len() {
        let stepped = step_tokens(tokens, pos, state);
        let next = step_next(tokens, pos, state);
        lemma_step_shape(tokens, pos, state);
        lemma_pass_shape(stepped, next, next_state(state, tokens[pos]));
    }
}

/// The state in which a pass reaches position `pos`, as long as it has changed nothing.
pub open spec fn state_at(tokens: Seq<Token>, pos: int) -> State
    decreases pos,
{
    if pos <= 0 {
        State::Default
    } else {
        next_state(state_at(tokens, pos - 1), tokens[pos - 1])
    }
}

/// A pass finds nothing to change: no literal stands where a value is taken out, no
/// comment stands anywhere, and no `VALUES` has a second row.
pub open spec fn untouched(tokens: Seq<Token>) -> bool {
    forall|i: int|
        0 <= i < tokens.len() ==> #[trigger] rewrite_at(tokens, i, state_at(tokens, i)) is Keep
}

proof fn lemma_untouched_from(tokens: Seq<Token>, pos: int)
    requires
        0 <= pos <= tokens.len(),
        untouched(tokens),
    ensures
        sanitize_from(tokens, pos, state_at(tokens, pos)) == tokens,
    decreases tokens.len() - pos,
{
    if pos < tokens.len() {
        lemma_untouched_from(tokens, pos + 1);
    }
}

proof fn lemma_changed_from(tokens: Seq<Token>, pos: int)
    requires
        0 <= pos <= tokens.len(),
        sanitize_from(tokens, pos, state_at(tokens, pos)) == tokens,
    ensures
        forall|i: int|
            pos <= i < tokens.len() ==> #[trigger] rewrite_at(tokens, i, state_at(tokens, i))
                is Keep,
    decreases tokens.len() - pos,
{
    if pos < tokens.len() {
        let state = state_at(tokens, pos);
        let stepped = step_tokens(tokens, pos, state);
        let next = step_next(tokens, pos, state);
        lemma_step_shape(tokens, pos, state);
        if rewrite_at(tokens, pos, state) is Keep {
            lemma_changed_from(tokens, pos + 1);
        } else {
            // The step changes the token at `pos`, and no later step changes it back.
            lemma_pass_shape(stepped, next, next_state(state, tokens[pos]));
            assert(sanitize_from(tokens, pos, state)[pos] == stepped[pos]);
            assert(false);
        }
    }
}

/// Without `VALUES`, a pass never stands in or after a row.
proof fn lemma_no_rows_without_values(tokens: Seq<Token>, pos: int)
    requires
        0 <= pos <= tokens.len(),
        forall|i: int| 0 <= i < tokens.len() ==> tokens[i] != Token::Keyword(Keyword::Values),
    ensures
        !(state_at(tokens, pos) is InsertValues),
        !(state_at(tokens, pos) is InsertRowClosed),
    decreases pos,
{
    if pos > 0 {
        lemma_no_rows_without_values(tokens, pos - 1);
    }
}

/// A pass finds nothing to change in tokens that hold no literal, no comment and no
/// `VALUES`.
pub proof fn lemma_untouched_without_values(tokens: Seq<Token>)
    requires
        forall|i: int|
            0 <= i < tokens.len() ==> !(#[trigger] tokens[i]).is_literal() && !(tokens[i]
                is Comment) && tokens[i] != Token::Keyword(Keyword::Values),
    ensures
        untouched(tokens),
{
    assert forall|i: int| 0 <= i < tokens.len() implies #[trigger] rewrite_at(
        tokens,
        i,
        state_at(tokens, i),
    ) is Keep by {
        lemma_no_rows_without_values(tokens, i);
    }
}

/// A pass keeps the number of tokens. Each token after it is the one that stood
/// there, or a placeholder, an ellipsis or a tombstone; and no comment is left.
pub proof fn lemma_sanitized_shape(tokens: Seq<Token>)
    ensures
        sanitized(tokens).len() == tokens.len(),
        forall|i: int|
            0 <= i < tokens.len() ==> #[trigger] sanitized(tokens)[i] == tokens[i]
                || is_substitute(sanitized(tokens)[i]),
        forall|i: int| 0 <= i < tokens.len() ==> !(#[trigger] sanitized(tokens)[i] is Comment),
{
    lemma_pass_shape(tokens, 0, State::Default);
}

/// A pass leaves the tokens as they are if, and only if, it finds nothing to change.
pub proof fn lemma_sanitized_unchanged(tokens: Seq<Token>)
    ensures
        sanitized(tokens) == tokens <==> untouched(tokens),
{
    if untouched(tokens) {
        lemma_untouched_from(tokens, 0);
    }
    if sanitized(tokens) == tokens {
        lemma_changed_from(tokens, 0);
    }
}

/// A statement whose values are placeholders already comes back as it is: where
/// every token stands in the text the way the writer writes it, and a pass over the
/// tokens finds nothing to change, the sanitized text is the text.
pub proof fn lemma_sanitized_text_unchanged(text: Seq<char>)
    requires
        addressable(text),
        written_as_read(text),
        untouched(lex_text(text)),
    ensures
        render(text, sanitized(lex_text(text))) == text,
{
    lemma_sanitized_unchanged(lex_text(text));
    lemma_round_trip(text);
}

/// A statement without literals, comments and `VALUES`, in the writer's spelling,
/// comes back as it is.
pub proof fn lemma_text_without_values_unchanged(text: Seq<char>)
    requires
        addressable(text),
        written_as_read(text),
        forall|i: int|
            0 <= i < lex_text(text).len() ==> !(#[trigger] lex_text(text)[i]).is_literal() && !(
            lex_text(text)[i] is Comment) && lex_text(text)[i] != Token::Keyword(Keyword::Values),
    ensures
        render(text, sanitized(lex_text(text))) == text,
{
    lemma_untouched_without_values(lex_text(text));
    lemma_sanitized_text_unchanged(text);
}

} // verus!
