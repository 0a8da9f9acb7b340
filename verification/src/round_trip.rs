//! Writing what was read: on which texts the writer gives back the text that the
//! tokenizer was given.
//!
//! A token is written the way the writer spells it, which need not be the way it
//! stood in the text: a keyword is written in capitals, a carriage return as a
//! line feed, and a quote is always closed.

use crate::scanning::{
    fixed_word, lemma_quote_end_bounds, lemma_scan_next_bounds, lex_from, lex_text, lexeme_at,
    operator_token, quote_end, same_ignoring_case, scan_next, scan_tokens, scan_wildcard,
    unknown_tokens, Lexeme,
};
use crate::text::{addressable, lemma_char_range, lemma_span_text};
use crate::token::Token;
use crate::writer::{fixed_text, fragment, lemma_render_concat, lemma_render_one, render};
use vstd::prelude::*;

verus! {

/// The token that starts at `at` stands in the text the way the writer writes it:
/// a quote is closed, a line break is a line feed, a word with a meaning of its own
/// is spelled as the writer spells it, and the prefix of a hexadecimal or bit-field
/// literal is in lower case.
pub open spec fn reads_back(text: Seq<char>, at: int) -> bool {
    let run = text.subrange(at, scan_next(text, at));
    match lexeme_at(text, at) {
        Lexeme::Quoted => quote_end(text, at + 1, at + 1, text[at]) < text.len(),
        Lexeme::Punctuation => text[at] != '\r',
        Lexeme::Word => match fixed_word(run) {
            Some(token) => fixed_text(token) == Some(run),
            None => true,
        },
        Lexeme::Number => run != "0X"@ && run != "0B"@,
        _ => true,
    }
}

/// Every token from position `at` on stands in the text the way the writer writes it.
pub open spec fn written_as_read_from(text: Seq<char>, at: int) -> bool
    decreases text.len() - at,
    via written_as_read_from_decreases
{
    if at < 0 || at >= text.len() {
        true
    } else {
        reads_back(text, at) && written_as_read_from(text, scan_next(text, at))
    }
}

#[via_fn]
proof fn written_as_read_from_decreases(text: Seq<char>, at: int) {
    if 0 <= at < text.len() {
        lemma_scan_next_bounds(text, at);
    }
}

/// Every token of the text stands in it the way the writer writes it.
pub open spec fn written_as_read(text: Seq<char>) -> bool {
    written_as_read_from(text, 0)
}

/// The `Unknown` tokens of a run of characters are written as the run.
pub proof fn lemma_render_unknown(text: Seq<char>, run: Seq<char>)
    ensures
        render(text, unknown_tokens(run)) == run,
    decreases run.len(),
{
    if run.len() > 0 {
        let head = run.drop_last();
        lemma_render_unknown(text, head);
        lemma_char_range(run.last());
        let tokens = unknown_tokens(run);
        assert(tokens.drop_last() =~= unknown_tokens(head));
    }
}

/// What one character is written as, where it is a token by itself.
proof fn lemma_single_characters()
    ensures
        " "@ == seq![' '],
        "\n"@ == seq!['\n'],
        "."@ == seq!['.'],
        ","@ == seq![','],
        "("@ == seq!['('],
        ")"@ == seq![')'],
        "["@ == seq!['['],
        "]"@ == seq![']'],
        ":"@ == seq![':'],
        ";"@ == seq![';'],
        "?"@ == seq!['?'],
        "*"@ == seq!['*'],
        "/"@ == seq!['/'],
        "%"@ == seq!['%'],
        "+"@ == seq!['+'],
        "-"@ == seq!['-'],
{
    reveal_strlit(" ");
    reveal_strlit("\n");
    reveal_strlit(".");
    reveal_strlit(",");
    reveal_strlit("(");
    reveal_strlit(")");
    reveal_strlit("[");
    reveal_strlit("]");
    reveal_strlit(":");
    reveal_strlit(";");
    reveal_strlit("?");
    reveal_strlit("*");
    reveal_strlit("/");
    reveal_strlit("%");
    reveal_strlit("+");
    reveal_strlit("-");
}

/// A token that stands in the text the way the writer writes it is written as the
/// characters that it was read from.
pub proof fn lemma_token_reads_back(text: Seq<char>, at: int, wildcard: bool)
    requires
        addressable(text),
        0 <= at < text.len(),
        reads_back(text, at),
    ensures
        render(text, scan_tokens(text, at, wildcard)) == text.subrange(at, scan_next(text, at)),
{
    let c = text[at];
    let next = scan_next(text, at);
    let run = text.subrange(at, next);
    let tokens = scan_tokens(text, at, wildcard);
    lemma_scan_next_bounds(text, at);
    lemma_char_range(c);
    lemma_single_characters();
    lemma_span_text(text, at, next);
    match lexeme_at(text, at) {
        Lexeme::Quoted => {
            let close = quote_end(text, at + 1, at + 1, c);
            lemma_quote_end_bounds(text, at + 1, at + 1, c);
            lemma_span_text(text, at + 1, close);
            lemma_render_one(text, tokens[0]);
        },
        Lexeme::OperatorRun => {
            match operator_token(run) {
                Some(token) => {
                    lemma_render_one(text, token);
                },
                None => {
                    lemma_render_unknown(text, run);
                },
            }
        },
        Lexeme::Charset => {
            lemma_span_text(text, at + 1, next);
            lemma_render_one(text, tokens[0]);
        },
        _ => {
            lemma_render_one(text, tokens[0]);
        },
    }
}

/// The tokens of a text in which every token stands the way the writer writes it
/// are written as the text, from any position at which a token starts.
pub proof fn lemma_round_trip_from(text: Seq<char>, at: int, wildcard: bool)
    requires
        addressable(text),
        0 <= at <= text.len(),
        written_as_read_from(text, at),
    ensures
        render(text, lex_from(text, at, wildcard)) == text.subrange(at, text.len() as int),
    decreases text.len() - at,
{
    if at < text.len() {
        let next = scan_next(text, at);
        let first = scan_tokens(text, at, wildcard);
        let rest = lex_from(text, next, scan_wildcard(text, at, wildcard));
        lemma_scan_next_bounds(text, at);
        lemma_token_reads_back(text, at, wildcard);
        lemma_round_trip_from(text, next, scan_wildcard(text, at, wildcard));
        lemma_render_concat(text, first, rest);
    }
}

/// A word with a meaning of its own has the letters of the writer's spelling of it,
/// but for their case.
proof fn lemma_fixed_word_spelling(word: Seq<char>)
    ensures
        match fixed_word(word) {
            Some(token) => fixed_text(token) is Some && same_ignoring_case(
                word,
                fixed_text(token)->0,
            ),
            None => true,
        },
{
}

/// A token that does not stand in the text the way the writer writes it is written
/// as something else: as a text of the same length, or, for a quote that is not
/// closed, as a text that is longer by the closing delimiter.
pub proof fn lemma_token_differs(text: Seq<char>, at: int, wildcard: bool)
    requires
        addressable(text),
        0 <= at < text.len(),
        !reads_back(text, at),
    ensures
        render(text, scan_tokens(text, at, wildcard)) != text.subrange(at, scan_next(text, at)),
        lexeme_at(text, at) is Quoted ==> scan_next(text, at) == text.len() && render(
            text,
            scan_tokens(text, at, wildcard),
        ).len() == text.len() - at + 1,
        !(lexeme_at(text, at) is Quoted) ==> render(text, scan_tokens(text, at, wildcard)).len()
            == scan_next(text, at) - at,
{
    let c = text[at];
    let next = scan_next(text, at);
    let run = text.subrange(at, next);
    let tokens = scan_tokens(text, at, wildcard);
    let token = tokens[0];
    lemma_scan_next_bounds(text, at);
    lemma_char_range(c);
    lemma_single_characters();
    lemma_span_text(text, at, next);
    lemma_render_one(text, token);
    match lexeme_at(text, at) {
        Lexeme::Quoted => {
            let close = quote_end(text, at + 1, at + 1, c);
            lemma_quote_end_bounds(text, at + 1, at + 1, c);
            lemma_span_text(text, at + 1, close);
        },
        Lexeme::Punctuation => {
            assert(fragment(text, token)[0] == '\n');
        },
        Lexeme::Word => {
            lemma_fixed_word_spelling(run);
        },
        Lexeme::Number => {
            reveal_strlit("0X");
            reveal_strlit("0x");
            reveal_strlit("0B");
            reveal_strlit("0b");
            if run == "0X"@ {
                assert("0x"@[1] != "0X"@[1]);
            } else {
                assert("0b"@[1] != "0B"@[1]);
            }
        },
        _ => {},
    }
}

/// Where the tokens from a position on are written as the rest of the text, each
/// of them stands in the text the way the writer writes it.
pub proof fn lemma_round_trip_only_from(text: Seq<char>, at: int, wildcard: bool)
    requires
        addressable(text),
        0 <= at <= text.len(),
        render(text, lex_from(text, at, wildcard)) == text.subrange(at, text.len() as int),
    ensures
        written_as_read_from(text, at),
    decreases text.len() - at,
{
    if at < text.len() {
        let next = scan_next(text, at);
        let first = scan_tokens(text, at, wildcard);
        let rest = lex_from(text, next, scan_wildcard(text, at, wildcard));
        let written = render(text, first);
        let written_rest = render(text, rest);
        let read = text.subrange(at, next);
        let read_rest = text.subrange(next, text.len() as int);
        lemma_scan_next_bounds(text, at);
        lemma_render_concat(text, first, rest);
        assert(read + read_rest =~= text.subrange(at, text.len() as int));
        if !reads_back(text, at) {
            // What is written differs from the text within this token, or is longer.
            lemma_token_differs(text, at, wildcard);
            if lexeme_at(text, at) is Quoted {
                assert(rest =~= Seq::<Token>::empty());
                assert((written + written_rest).len() == (read + read_rest).len());
            } else {
                assert(written =~= (written + written_rest).subrange(0, written.len() as int));
                assert(read =~= (read + read_rest).subrange(0, read.len() as int));
            }
            assert(false);
        }
        lemma_token_reads_back(text, at, wildcard);
        assert(written_rest =~= (written + written_rest).subrange(
            written.len() as int,
            (written + written_rest).len() as int,
        ));
        assert(read_rest =~= (read + read_rest).subrange(
            read.len() as int,
            (read + read_rest).len() as int,
        ));
        lemma_round_trip_only_from(text, next, scan_wildcard(text, at, wildcard));
    }
}

/// Reading a text and writing its tokens gives the text back if, and only if, every
/// token stands in the text the way the writer writes it.
pub proof fn lemma_round_trip(text: Seq<char>)
    requires
        addressable(text),
    ensures
        render(text, lex_text(text)) == text <==> written_as_read(text),
{
    assert(text.subrange(0, text.len() as int) =~= text);
    if written_as_read(text) {
        lemma_round_trip_from(text, 0, false);
    }
    if render(text, lex_text(text)) == text {
        lemma_round_trip_only_from(text, 0, false);
    }
}

} // verus!
