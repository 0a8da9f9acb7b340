use sql_lexer::lexer::{class, lexeme, stops_before, SqlLexer};
use sql_lexer::scanning::{CharClass, Lexeme, Stop};
use sql_lexer::sanitizer::{rewrite, transition, SqlSanitizer};
use sql_lexer::sanitizing::{Rewrite, State};
use sql_lexer::writer::SqlWriter;
use sql_lexer::{
    lex, sanitize, sanitize_string, ArithmeticOperator, BufferSlice, ComparisonOperator,
    Keyword, LiteralValueTypeIndicator, LogicalOperator, Operator, Sql, Token,
};

fn tokens_of(text: &str) -> Vec<Token> {
    lex(text.to_string()).tokens
}

fn round_trip(text: &str) -> String {
    sql_lexer::write(lex(text.to_string()))
}

fn sanitized(text: &str) -> String {
    sanitize_string(text.to_string())
}

// Reading and writing back

#[test]
fn round_trip_gives_back_canonical_text() {
    for text in [
        "",
        " ",
        "   \n \n",
        "\t",
        "SELECT `a`.*, \"b\", 'c' FROM t WHERE x >= -1.5 AND y <> $12 OR z IN (?, ?);",
        "INSERT INTO t (a, b) VALUES (1, 'x'), (2, 'y')",
        "x'ff' 0x'ff' b'01' 0b'01' n'str' _utf8'str' DATE '2020-01-01'",
        "a || b && c !== d",
        "= == <=> >= <= => =< <> != > < << >> & | #> #>>",
        "* / % + - ~ ^ @ { }",
        "-- comment\n# comment\n/* comment */",
        "'it\\'s' \"a\\\\\" `b`",
        "héllo 'wörld' \"日本語\" `😀`",
        "NULL TRUE FALSE IN NOT LIKE ILIKE RLIKE GLOB MATCH REGEXP THEN ELSE",
    ] {
        assert_eq!(round_trip(text), text);
    }
}

#[test]
fn keywords_are_written_in_capitals() {
    assert_eq!(round_trip("select * from t"), "SELECT * FROM t");
    assert_eq!(round_trip("Null True False"), "NULL TRUE FALSE");
    assert_eq!(round_trip("binary date time timestamp"), "BINARY DATE TIME TIMESTAMP");
}

#[test]
fn literal_prefixes_are_written_in_lower_case() {
    assert_eq!(round_trip("X'ff' B'01' N'str' 0X'ff' 0B'01'"), "x'ff' b'01' n'str' 0x'ff' 0b'01'");
}

#[test]
fn carriage_return_is_written_as_line_feed() {
    assert_eq!(tokens_of("\r\n"), vec![Token::Newline, Token::Newline]);
    assert_eq!(round_trip("a\r\nb"), "a\n\nb");
}

#[test]
fn unclosed_quote_is_written_closed() {
    assert_eq!(tokens_of("'abc"), vec![Token::SingleQuoted(BufferSlice::new(1, 4))]);
    assert_eq!(round_trip("'abc"), "'abc'");
    assert_eq!(tokens_of("'"), vec![Token::SingleQuoted(BufferSlice::new(1, 1))]);
    assert_eq!(round_trip("`"), "``");
    assert_eq!(round_trip("\"a\\\""), "\"a\\\"\"");
}

#[test]
fn multibyte_content_has_more_bytes_than_characters() {
    let sql = lex("\"hæld\"".to_string());
    assert_eq!(sql.tokens, vec![Token::DoubleQuoted(BufferSlice::new(1, 6))]);
    let content = sql.buffer_content(&BufferSlice::new(1, 6));
    assert_eq!(content, "hæld");
    assert_eq!(content.len(), content.chars().count() + 1);
    assert_eq!(sql_lexer::write(sql), "\"hæld\"");
}

#[test]
fn offsets_count_bytes_of_every_width() {
    // One, two, three and four bytes.
    assert_eq!(
        tokens_of("a é 日 😀 'x'"),
        vec![
            Token::Keyword(Keyword::Other(BufferSlice::new(0, 1))),
            Token::Space,
            Token::Keyword(Keyword::Other(BufferSlice::new(2, 4))),
            Token::Space,
            Token::Keyword(Keyword::Other(BufferSlice::new(5, 8))),
            Token::Space,
            Token::Unknown('😀'),
            Token::Space,
            Token::SingleQuoted(BufferSlice::new(15, 16)),
        ]
    );
}

// Characters

const LETTER: CharClass = CharClass { alphabetic: true, numeric: false };
const DIGIT: CharClass = CharClass { alphabetic: false, numeric: true };
const OTHER: CharClass = CharClass { alphabetic: false, numeric: false };

#[test]
fn class_of_a_character() {
    assert_eq!(class('a'), LETTER);
    assert_eq!(class('Z'), LETTER);
    assert_eq!(class('é'), LETTER);
    assert_eq!(class('日'), LETTER);
    assert_eq!(class('0'), DIGIT);
    assert_eq!(class('٣'), DIGIT);
    assert_eq!(class('²'), DIGIT);
    assert_eq!(class('_'), OTHER);
    assert_eq!(class('-'), OTHER);
    assert_eq!(class(' '), OTHER);
    assert_eq!(class('😀'), OTHER);
}

#[test]
fn lexeme_is_decided_by_the_character_and_the_next() {
    assert_eq!(lexeme('\'', OTHER, None, false), Lexeme::Quoted);
    assert_eq!(lexeme('"', OTHER, Some('a'), false), Lexeme::Quoted);
    assert_eq!(lexeme('`', OTHER, Some('1'), true), Lexeme::Quoted);
    assert_eq!(lexeme('#', OTHER, None, false), Lexeme::LineComment);
    assert_eq!(lexeme('#', OTHER, Some('a'), false), Lexeme::LineComment);
    assert_eq!(lexeme('#', OTHER, Some('>'), false), Lexeme::OperatorRun);
    assert_eq!(lexeme('-', OTHER, Some('-'), false), Lexeme::LineComment);
    assert_eq!(lexeme('-', OTHER, Some('1'), true), Lexeme::Number);
    assert_eq!(lexeme('-', OTHER, Some('a'), false), Lexeme::Arithmetic);
    assert_eq!(lexeme('-', OTHER, None, false), Lexeme::Arithmetic);
    assert_eq!(lexeme('-', OTHER, None, true), Lexeme::Arithmetic);
    assert_eq!(lexeme('/', OTHER, Some('*'), false), Lexeme::BlockComment);
    assert_eq!(lexeme('/', OTHER, Some('/'), false), Lexeme::Arithmetic);
    assert_eq!(lexeme('/', OTHER, None, false), Lexeme::Arithmetic);
    assert_eq!(lexeme('%', OTHER, None, false), Lexeme::Arithmetic);
    assert_eq!(lexeme('+', OTHER, None, false), Lexeme::Arithmetic);
    assert_eq!(lexeme('*', OTHER, None, false), Lexeme::Star);
    assert_eq!(lexeme('$', OTHER, Some('1'), true), Lexeme::NumberedPlaceholder);
    assert_eq!(lexeme('_', OTHER, None, false), Lexeme::Charset);
    for c in [' ', '\n', '\r', '.', ',', '(', ')', '[', ']', ':', ';', '?'] {
        assert_eq!(lexeme(c, OTHER, None, false), Lexeme::Punctuation);
    }
    for c in ['=', '!', '>', '<', '&', '|'] {
        assert_eq!(lexeme(c, OTHER, None, false), Lexeme::OperatorRun);
    }
    assert_eq!(lexeme('a', LETTER, None, false), Lexeme::Word);
    assert_eq!(lexeme('1', DIGIT, None, false), Lexeme::Number);
    assert_eq!(lexeme('~', OTHER, None, false), Lexeme::Unknown);
    // What is said of the class counts, not the character.
    assert_eq!(lexeme('~', LETTER, None, false), Lexeme::Word);
    assert_eq!(lexeme('a', OTHER, None, false), Lexeme::Unknown);
    assert_eq!(lexeme('1', CharClass { alphabetic: true, numeric: true }, None, false), Lexeme::Word);
}

#[test]
fn run_stops_by_its_kind() {
    assert!(stops_before(Stop::LineBreak, '\n', OTHER, false));
    assert!(stops_before(Stop::LineBreak, '\r', OTHER, false));
    assert!(!stops_before(Stop::LineBreak, 'a', LETTER, true));
    assert!(stops_before(Stop::CommentClose, 'a', LETTER, true));
    assert!(!stops_before(Stop::CommentClose, '/', OTHER, false));
    assert!(stops_before(Stop::NotNumeric, 'a', LETTER, false));
    assert!(!stops_before(Stop::NotNumeric, '1', DIGIT, false));
    assert!(stops_before(Stop::NotOperator, 'a', LETTER, false));
    for c in ['=', '!', '>', '<', '&', '|', '#'] {
        assert!(!stops_before(Stop::NotOperator, c, OTHER, false));
    }
    assert!(stops_before(Stop::NotAlphanumeric, '_', OTHER, false));
    assert!(!stops_before(Stop::NotAlphanumeric, 'a', LETTER, false));
    assert!(!stops_before(Stop::NotAlphanumeric, '1', DIGIT, false));
    assert!(stops_before(Stop::NotWord, '.', OTHER, false));
    for c in ['_', '-'] {
        assert!(!stops_before(Stop::NotWord, c, OTHER, false));
    }
    assert!(!stops_before(Stop::NotWord, 'a', LETTER, false));
    assert!(!stops_before(Stop::NotWord, '1', DIGIT, false));
    assert!(stops_before(Stop::NotNumber, 'a', LETTER, false));
    assert!(stops_before(Stop::NotNumber, '-', OTHER, false));
    for c in ['.', 'x', 'X', 'b', 'B'] {
        assert!(!stops_before(Stop::NotNumber, c, OTHER, false));
    }
    assert!(!stops_before(Stop::NotNumber, '1', DIGIT, false));
}

// Tokens

#[test]
fn empty_quotes_have_empty_slices() {
    assert_eq!(
        tokens_of("'' \"\" ``"),
        vec![
            Token::SingleQuoted(BufferSlice::new(1, 1)),
            Token::Space,
            Token::DoubleQuoted(BufferSlice::new(4, 4)),
            Token::Space,
            Token::Backticked(BufferSlice::new(7, 7)),
        ]
    );
}

#[test]
fn escaped_delimiter_does_not_close() {
    // One backslash escapes, two do not.
    assert_eq!(tokens_of("'a\\'b'"), vec![Token::SingleQuoted(BufferSlice::new(1, 5))]);
    assert_eq!(
        tokens_of("'a\\\\'b"),
        vec![
            Token::SingleQuoted(BufferSlice::new(1, 4)),
            Token::LiteralValueTypeIndicator(LiteralValueTypeIndicator::B),
        ]
    );
    // Another delimiter needs no escape.
    assert_eq!(tokens_of("'a\"b'"), vec![Token::SingleQuoted(BufferSlice::new(1, 4))]);
}

#[test]
fn minus_before_digit_starts_a_number() {
    assert_eq!(
        tokens_of("1-1"),
        vec![Token::Numeric(BufferSlice::new(0, 1)), Token::Numeric(BufferSlice::new(1, 3))]
    );
    assert_eq!(
        tokens_of("- 5"),
        vec![
            Token::Operator(Operator::Arithmetic(ArithmeticOperator::Minus)),
            Token::Space,
            Token::Numeric(BufferSlice::new(2, 3)),
        ]
    );
    assert_eq!(tokens_of("-"), vec![Token::Operator(Operator::Arithmetic(ArithmeticOperator::Minus))]);
}

#[test]
fn minus_within_a_word_belongs_to_the_word() {
    assert_eq!(tokens_of("a-1"), vec![Token::Keyword(Keyword::Other(BufferSlice::new(0, 3)))]);
    assert_eq!(tokens_of("a_b-c9"), vec![Token::Keyword(Keyword::Other(BufferSlice::new(0, 6)))]);
}

#[test]
fn star_is_a_wildcard_between_select_and_from() {
    assert_eq!(
        tokens_of("* SELECT * FROM *"),
        vec![
            Token::Operator(Operator::Arithmetic(ArithmeticOperator::Multiply)),
            Token::Space,
            Token::Keyword(Keyword::Select),
            Token::Space,
            Token::Wildcard,
            Token::Space,
            Token::Keyword(Keyword::From),
            Token::Space,
            Token::Operator(Operator::Arithmetic(ArithmeticOperator::Multiply)),
        ]
    );
}

#[test]
fn operator_run_that_spells_no_operator_is_unknown() {
    assert_eq!(tokens_of("||"), vec![Token::Unknown('|'), Token::Unknown('|')]);
    assert_eq!(
        tokens_of("a<==>b"),
        vec![
            Token::Keyword(Keyword::Other(BufferSlice::new(0, 1))),
            Token::Unknown('<'),
            Token::Unknown('='),
            Token::Unknown('='),
            Token::Unknown('>'),
            Token::LiteralValueTypeIndicator(LiteralValueTypeIndicator::B),
        ]
    );
    assert_eq!(tokens_of("!"), vec![Token::Unknown('!')]);
    assert_eq!(
        tokens_of("=#c"),
        vec![
            Token::Unknown('='),
            Token::Unknown('#'),
            Token::Keyword(Keyword::Other(BufferSlice::new(2, 3))),
        ]
    );
}

#[test]
fn pound_starts_a_comment_unless_an_arrow_follows() {
    assert_eq!(tokens_of("#"), vec![Token::Comment(BufferSlice::new(0, 1))]);
    assert_eq!(tokens_of("# a"), vec![Token::Comment(BufferSlice::new(0, 3))]);
    assert_eq!(
        tokens_of("#\n"),
        vec![Token::Comment(BufferSlice::new(0, 1)), Token::Newline]
    );
    assert_eq!(
        tokens_of("#>>"),
        vec![Token::Operator(Operator::Json(sql_lexer::JsonOperator::SpecifiedPathAsText))]
    );
}

#[test]
fn block_comment_ends_after_star_slash() {
    assert_eq!(
        tokens_of("/* a */b"),
        vec![
            Token::Comment(BufferSlice::new(0, 7)),
            Token::LiteralValueTypeIndicator(LiteralValueTypeIndicator::B),
        ]
    );
    assert_eq!(tokens_of("/* a"), vec![Token::Comment(BufferSlice::new(0, 4))]);
    assert_eq!(tokens_of("/*"), vec![Token::Comment(BufferSlice::new(0, 2))]);
    // The star of the opening counts for the closing too.
    assert_eq!(
        tokens_of("/*/x"),
        vec![
            Token::Comment(BufferSlice::new(0, 3)),
            Token::LiteralValueTypeIndicator(LiteralValueTypeIndicator::X),
        ]
    );
    assert_eq!(
        tokens_of("/ *"),
        vec![
            Token::Operator(Operator::Arithmetic(ArithmeticOperator::Divide)),
            Token::Space,
            Token::Operator(Operator::Arithmetic(ArithmeticOperator::Multiply)),
        ]
    );
}

#[test]
fn dollar_takes_the_digits_that_follow() {
    assert_eq!(tokens_of("$"), vec![Token::NumberedPlaceholder(BufferSlice::new(0, 1))]);
    assert_eq!(
        tokens_of("$12abc"),
        vec![
            Token::NumberedPlaceholder(BufferSlice::new(0, 3)),
            Token::Keyword(Keyword::Other(BufferSlice::new(3, 6))),
        ]
    );
}

#[test]
fn underscore_starts_a_character_set() {
    assert_eq!(
        tokens_of("_"),
        vec![Token::LiteralValueTypeIndicator(LiteralValueTypeIndicator::Charset(
            BufferSlice::new(1, 1)
        ))]
    );
    assert_eq!(
        tokens_of("_utf8mb4'x'"),
        vec![
            Token::LiteralValueTypeIndicator(LiteralValueTypeIndicator::Charset(
                BufferSlice::new(1, 8)
            )),
            Token::SingleQuoted(BufferSlice::new(9, 10)),
        ]
    );
    assert_eq!(round_trip("_utf8mb4'x'"), "_utf8mb4'x'");
}

#[test]
fn number_takes_dots_and_radix_letters() {
    assert_eq!(tokens_of("1.5"), vec![Token::Numeric(BufferSlice::new(0, 3))]);
    assert_eq!(tokens_of("1x2B"), vec![Token::Numeric(BufferSlice::new(0, 4))]);
    assert_eq!(
        tokens_of("0x"),
        vec![Token::LiteralValueTypeIndicator(LiteralValueTypeIndicator::ZeroX)]
    );
    assert_eq!(
        tokens_of("0B"),
        vec![Token::LiteralValueTypeIndicator(LiteralValueTypeIndicator::ZeroB)]
    );
    assert_eq!(tokens_of("0x1"), vec![Token::Numeric(BufferSlice::new(0, 3))]);
    assert_eq!(tokens_of("00x"), vec![Token::Numeric(BufferSlice::new(0, 3))]);
}

#[test]
fn words_are_matched_whole() {
    assert_eq!(tokens_of("SELECTED"), vec![Token::Keyword(Keyword::Other(BufferSlice::new(0, 8)))]);
    assert_eq!(tokens_of("SET"), vec![Token::Keyword(Keyword::SetClause)]);
    assert_eq!(tokens_of("iLiKe"), vec![Token::Operator(Operator::Logical(LogicalOperator::Ilike))]);
    assert_eq!(tokens_of("ſelect"), vec![Token::Keyword(Keyword::Other(BufferSlice::new(0, 7)))]);
}

#[test]
fn lexer_and_entry_point_agree() {
    let text = "SELECT * FROM t WHERE a = 'b' -- c";
    assert_eq!(SqlLexer::new(text.to_string()).lex(), lex(text.to_string()));
    assert_eq!(lex(text.to_string()).buffer(), text);
}

// The buffer

#[test]
fn buffer_content_of_a_slice_within_a_character_is_empty() {
    let sql = Sql::new("hæld".to_string(), Vec::new());
    assert_eq!(sql.buffer_content(&BufferSlice::new(0, 2)), "");
    assert_eq!(sql.buffer_content(&BufferSlice::new(2, 5)), "");
    assert_eq!(sql.buffer_content(&BufferSlice::new(1, 3)), "æ");
    assert_eq!(sql.buffer_content(&BufferSlice::new(0, 5)), "hæld");
    assert_eq!(sql.buffer_content(&BufferSlice::new(5, 5)), "");
    assert_eq!(sql.buffer_content(&BufferSlice::new(5, 6)), "");
}

#[test]
fn writer_writes_every_kind_of_token() {
    let tokens = vec![
        Token::Keyword(Keyword::Select),
        Token::Space,
        Token::Backticked(BufferSlice::new(0, 1)),
        Token::Comma,
        Token::DoubleQuoted(BufferSlice::new(1, 2)),
        Token::Comma,
        Token::SingleQuoted(BufferSlice::new(2, 3)),
        Token::Tombstone,
        Token::Ellipsis,
        Token::Placeholder,
        Token::Unknown('~'),
        Token::Numeric(BufferSlice::new(3, 4)),
        Token::LiteralValueTypeIndicator(LiteralValueTypeIndicator::Charset(BufferSlice::new(0, 2))),
        Token::Operator(Operator::Comparison(ComparisonOperator::EqualOrLessThan)),
        Token::Numeric(BufferSlice::new(3, 1)),
        Token::Numeric(BufferSlice::new(3, 9)),
    ];
    let writer = SqlWriter::new(Sql::new("abc1".to_string(), tokens));
    assert_eq!(writer.write(), "SELECT `a`,\"b\",'c'...?~1_ab=<");
}

// The states of the sanitizer

const STATES: [State; 13] = [
    State::Default,
    State::AfterOperator,
    State::ScopeOpened,
    State::InsertValues,
    State::InsertRowClosed,
    State::JoinOnClause,
    State::OffsetClause,
    State::BetweenClause,
    State::GenericKeywordScope,
    State::GenericKeywordScopeOpened,
    State::ArrayClause,
    State::ArrayScopeOpened,
    State::LiteralTypeIndicator,
];

fn is_sticky(state: State) -> bool {
    state == State::InsertValues || state == State::GenericKeywordScopeOpened
}

fn slice() -> BufferSlice {
    BufferSlice::new(0, 1)
}

#[test]
fn operator_opens_a_place_for_a_value_unless_after_on() {
    for operator in [
        Operator::Arithmetic(ArithmeticOperator::Plus),
        Operator::Logical(LogicalOperator::In),
        Operator::Comparison(ComparisonOperator::Equal),
        Operator::Bitwise(sql_lexer::BitwiseOperator::And),
        Operator::Json(sql_lexer::JsonOperator::SpecifiedPath),
    ] {
        for state in STATES {
            let next = transition(state, &Token::Operator(operator));
            if state == State::JoinOnClause {
                assert_eq!(next, State::Default);
            } else {
                assert_eq!(next, State::AfterOperator);
            }
        }
    }
}

#[test]
fn keywords_that_open_a_clause() {
    for state in STATES {
        assert_eq!(transition(state, &Token::Keyword(Keyword::Values)), State::InsertValues);
        assert_eq!(transition(state, &Token::Keyword(Keyword::On)), State::JoinOnClause);
        assert_eq!(transition(state, &Token::Keyword(Keyword::Offset)), State::OffsetClause);
        assert_eq!(transition(state, &Token::Keyword(Keyword::Between)), State::BetweenClause);
        assert_eq!(transition(state, &Token::Keyword(Keyword::Array)), State::ArrayClause);
        assert_eq!(transition(state, &Token::Keyword(Keyword::Insert)), state);
        assert_eq!(transition(state, &Token::Keyword(Keyword::Into)), state);
    }
}

#[test]
fn and_and_or_by_state() {
    let and = Token::Keyword(Keyword::And);
    let or = Token::Keyword(Keyword::Or);
    assert_eq!(transition(State::BetweenClause, &and), State::BetweenClause);
    assert_eq!(transition(State::BetweenClause, &or), State::GenericKeywordScope);
    assert_eq!(transition(State::GenericKeywordScope, &and), State::GenericKeywordScopeOpened);
    assert_eq!(transition(State::GenericKeywordScope, &or), State::GenericKeywordScopeOpened);
    assert_eq!(
        transition(State::GenericKeywordScopeOpened, &and),
        State::GenericKeywordScopeOpened
    );
    assert_eq!(transition(State::Default, &and), State::GenericKeywordScope);
    assert_eq!(transition(State::AfterOperator, &or), State::GenericKeywordScope);
}

#[test]
fn other_keywords_open_a_keyword_scope() {
    for keyword in [
        Keyword::Select,
        Keyword::From,
        Keyword::Where,
        Keyword::Update,
        Keyword::SetClause,
        Keyword::Inner,
        Keyword::Join,
        Keyword::Limit,
        Keyword::Other(slice()),
    ] {
        for state in STATES {
            let next = transition(state, &Token::Keyword(keyword));
            if state == State::GenericKeywordScopeOpened {
                assert_eq!(next, State::GenericKeywordScopeOpened);
            } else {
                assert_eq!(next, State::GenericKeywordScope);
            }
        }
    }
}

#[test]
fn literal_prefix_by_state() {
    for indicator in [
        LiteralValueTypeIndicator::Binary,
        LiteralValueTypeIndicator::X,
        LiteralValueTypeIndicator::ZeroB,
        LiteralValueTypeIndicator::Charset(slice()),
    ] {
        for state in STATES {
            let next = transition(state, &Token::LiteralValueTypeIndicator(indicator));
            if is_sticky(state) {
                assert_eq!(next, state);
            } else {
                assert_eq!(next, State::LiteralTypeIndicator);
            }
        }
    }
}

#[test]
fn brackets_by_state() {
    for state in STATES {
        let open = transition(state, &Token::ParentheseOpen);
        match state {
            State::AfterOperator => assert_eq!(open, State::ScopeOpened),
            State::GenericKeywordScope => assert_eq!(open, State::GenericKeywordScopeOpened),
            State::InsertValues => assert_eq!(open, State::InsertValues),
            State::InsertRowClosed => assert_eq!(open, State::InsertRowClosed),
            State::GenericKeywordScopeOpened => assert_eq!(open, State::GenericKeywordScopeOpened),
            _ => assert_eq!(open, State::Default),
        }
        let close = transition(state, &Token::ParentheseClose);
        if state == State::InsertValues {
            assert_eq!(close, State::InsertRowClosed);
        } else {
            assert_eq!(close, State::Default);
        }
        let square_open = transition(state, &Token::SquareBracketOpen);
        match state {
            State::ArrayClause => assert_eq!(square_open, State::ArrayScopeOpened),
            State::InsertValues | State::GenericKeywordScopeOpened => {
                assert_eq!(square_open, state)
            }
            _ => assert_eq!(square_open, State::Default),
        }
        assert_eq!(transition(state, &Token::SquareBracketClose), State::Default);
    }
}

#[test]
fn tokens_that_keep_the_state() {
    for state in STATES {
        for token in [
            Token::Space,
            Token::Tombstone,
            Token::Comment(slice()),
            Token::SingleQuoted(slice()),
            Token::DoubleQuoted(slice()),
            Token::Numeric(slice()),
            Token::Null,
            Token::True,
            Token::False,
        ] {
            assert_eq!(transition(state, &token), state);
        }
    }
    assert_eq!(transition(State::InsertRowClosed, &Token::Comma), State::InsertRowClosed);
    assert_eq!(transition(State::JoinOnClause, &Token::Dot), State::JoinOnClause);
}

#[test]
fn any_other_token_ends_a_state_that_is_not_sticky() {
    for state in STATES {
        for token in [
            Token::Backticked(slice()),
            Token::Newline,
            Token::Wildcard,
            Token::Colon,
            Token::Semicolon,
            Token::Placeholder,
            Token::Ellipsis,
            Token::NumberedPlaceholder(slice()),
            Token::Unknown('~'),
        ] {
            let next = transition(state, &token);
            if is_sticky(state) {
                assert_eq!(next, state);
            } else {
                assert_eq!(next, State::Default);
            }
        }
        let comma = transition(state, &Token::Comma);
        if is_sticky(state) || state == State::InsertRowClosed {
            assert_eq!(comma, state);
        } else {
            assert_eq!(comma, State::Default);
        }
        let dot = transition(state, &Token::Dot);
        if is_sticky(state) || state == State::JoinOnClause {
            assert_eq!(dot, state);
        } else {
            assert_eq!(dot, State::Default);
        }
    }
}

#[test]
fn what_is_done_to_a_literal_by_state() {
    let tokens = vec![Token::Space, Token::Numeric(slice()), Token::Space];
    for state in STATES {
        let expected = match state {
            State::AfterOperator
            | State::InsertValues
            | State::OffsetClause
            | State::GenericKeywordScopeOpened
            | State::BetweenClause
            | State::LiteralTypeIndicator => Rewrite::Replace,
            State::ScopeOpened | State::ArrayScopeOpened => Rewrite::CollapseList,
            _ => Rewrite::Keep,
        };
        assert_eq!(rewrite(&tokens, 1, state), expected);
        assert_eq!(rewrite(&tokens, 0, state), Rewrite::Keep);
    }
}

#[test]
fn what_is_done_to_a_double_quoted_name_beside_a_dot() {
    let name = Token::DoubleQuoted(slice());
    let after = vec![Token::Dot, name];
    let before = vec![name, Token::Dot];
    let alone = vec![Token::Space, name, Token::Space];
    let single = vec![Token::Dot, Token::SingleQuoted(slice()), Token::Dot];
    assert_eq!(rewrite(&after, 1, State::AfterOperator), Rewrite::Keep);
    assert_eq!(rewrite(&before, 0, State::AfterOperator), Rewrite::Keep);
    assert_eq!(rewrite(&alone, 1, State::AfterOperator), Rewrite::Replace);
    assert_eq!(rewrite(&single, 1, State::AfterOperator), Rewrite::Replace);
    // In a list, the whole list goes.
    assert_eq!(rewrite(&after, 1, State::ScopeOpened), Rewrite::CollapseList);
}

#[test]
fn what_is_done_to_comments_and_rows() {
    let tokens = vec![Token::Comment(slice()), Token::ParentheseOpen];
    for state in STATES {
        assert_eq!(rewrite(&tokens, 0, state), Rewrite::DropComment);
        if state == State::InsertRowClosed {
            assert_eq!(rewrite(&tokens, 1, state), Rewrite::CollapseRows);
        } else {
            assert_eq!(rewrite(&tokens, 1, state), Rewrite::Keep);
        }
    }
}

// Taking values out

#[test]
fn list_is_replaced_by_one_placeholder() {
    assert_eq!(
        sanitized("SELECT * FROM t WHERE id IN (1,2,3);"),
        "SELECT * FROM t WHERE id IN (?);"
    );
    assert_eq!(
        sanitized("SELECT * FROM t WHERE id IN (1, 2) AND x = 'y'"),
        "SELECT * FROM t WHERE id IN (?) AND x = ?"
    );
    assert_eq!(sanitized("SELECT ARRAY[1, 2] , 3"), "SELECT ARRAY[?] , 3");
    assert_eq!(
        sanitized("SELECT * FROM t WHERE id IN (1, 2"),
        "SELECT * FROM t WHERE id IN (?"
    );
}

#[test]
fn rows_after_the_first_are_replaced_by_one_ellipsis() {
    assert_eq!(
        sanitized("INSERT INTO t (a,b) VALUES (1,2),(3,4),(5,6);"),
        "INSERT INTO t (a,b) VALUES (?,?),...;"
    );
    assert_eq!(
        sanitized("INSERT INTO t (a, b) VALUES (1, 2), (3, 4), (5, 6);"),
        "INSERT INTO t (a, b) VALUES (?, ?), ...;"
    );
    assert_eq!(sanitized("INSERT INTO t VALUES (1), (2) , (3)  "), "INSERT INTO t VALUES (?), ...  ");
    assert_eq!(sanitized("INSERT INTO t VALUES (1), (2"), "INSERT INTO t VALUES (?), ...");
    assert_eq!(sanitized("INSERT INTO t VALUES (1),(2);(3)"), "INSERT INTO t VALUES (?),...;(3)");
    assert_eq!(sanitized("INSERT INTO t VALUES (?),(?)"), "INSERT INTO t VALUES (?),...");
}

#[test]
fn rows_keep_their_positions() {
    let sql = sanitize(lex("VALUES (1),(2)".to_string()));
    assert_eq!(
        sql.tokens,
        vec![
            Token::Keyword(Keyword::Values),
            Token::Space,
            Token::ParentheseOpen,
            Token::Placeholder,
            Token::ParentheseClose,
            Token::Comma,
            Token::Ellipsis,
            Token::Tombstone,
            Token::Tombstone,
        ]
    );
    assert_eq!(sql.buffer(), "VALUES (1),(2)");
}

#[test]
fn qualified_names_in_double_quotes_stay() {
    assert_eq!(
        sanitized("SELECT \"t\".\"c\" FROM \"t\" WHERE (\"t\".\"d\" = 'x');"),
        "SELECT \"t\".\"c\" FROM \"t\" WHERE (\"t\".\"d\" = ?);"
    );
    assert_eq!(
        sanitized("SELECT * FROM a INNER JOIN b ON a.\"x\" = b.\"y\" WHERE b.z = 'v'"),
        "SELECT * FROM a INNER JOIN b ON a.\"x\" = b.\"y\" WHERE b.z = ?"
    );
    assert_eq!(sanitized("a = \"b\".c"), "a = \"b\".c");
    assert_eq!(sanitized("a = \"b\""), "a = ?");
}

#[test]
fn comments_are_deleted_with_the_space_before_them() {
    assert_eq!(sanitized("SELECT * FROM t -- secret\n SELECT"), "SELECT * FROM t\n SELECT");
    assert_eq!(sanitized("-- only a comment"), "");
    assert_eq!(sanitized("# c"), "");
    assert_eq!(sanitized("SELECT 1 /* a */ /* b */"), "SELECT 1");
    assert_eq!(sanitized("a\n-- c"), "a\n");
    assert_eq!(sanitized("INSERT INTO t VALUES (1),(2)-- c"), "INSERT INTO t VALUES (?),...");
}

#[test]
fn function_arguments_are_replaced_one_by_one() {
    assert_eq!(
        sanitized("SELECT * FROM t WHERE name = UPPERCASE('x');"),
        "SELECT * FROM t WHERE name = UPPERCASE(?);"
    );
    assert_eq!(
        sanitized(
            "SELECT `table`.* FROM `table` WHERE `table`.`id` = 1 ORDER BY field(id, 111030,1933535)"
        ),
        "SELECT `table`.* FROM `table` WHERE `table`.`id` = ? ORDER BY field(id, ?,?)"
    );
}

#[test]
fn literal_prefix_announces_a_value() {
    assert_eq!(sanitized("SELECT DATE '2020-01-01'"), "SELECT DATE ?");
    assert_eq!(sanitized("SELECT COMMAND(DATE 'x', 'y')"), "SELECT COMMAND(DATE ?, ?)");
    assert_eq!(sanitized("INSERT INTO t VALUES (x'41', 'secret')"), "INSERT INTO t VALUES (x?, ?)");
    assert_eq!(
        sanitized("UPDATE t SET a = NULL, b = TRUE, c = FALSE WHERE d = 0x'ff'"),
        "UPDATE t SET a = ?, b = ?, c = ? WHERE d = 0x?"
    );
}

#[test]
fn clauses_that_take_values() {
    assert_eq!(
        sanitized("SELECT * FROM t WHERE a BETWEEN 1 AND 2 AND b = 3"),
        "SELECT * FROM t WHERE a BETWEEN ? AND ? AND b = ?"
    );
    assert_eq!(sanitized("SELECT * FROM t LIMIT 5 OFFSET 10"), "SELECT * FROM t LIMIT 5 OFFSET ?");
    assert_eq!(
        sanitized("SELECT CASE WHEN a = 1 THEN 'x' ELSE 'y' END"),
        "SELECT CASE WHEN a = ? THEN ? ELSE ? END"
    );
}

#[test]
fn literal_where_no_value_is_expected_stays() {
    assert_eq!(sanitized("'secret'"), "'secret'");
    assert_eq!(sanitized("SELECT 1"), "SELECT 1");
    assert_eq!(sanitized("SELECT 'a' || 'b'"), "SELECT 'a' || 'b'");
}

#[test]
fn sanitized_statement_is_left_as_it_is() {
    for text in [
        "",
        "SELECT * FROM t WHERE a = ? AND b = $1",
        "SELECT \"users\".* FROM \"users\" WHERE \"users\".\"type\" IN (?) AND \"users\".\"active\" = $1",
        "INSERT INTO t (a, b) VALUES (?, ?)",
        "UPDATE t SET a = ? WHERE b BETWEEN ? AND ? LIMIT 1 OFFSET ?",
        "INSERT INTO t (a, b) VALUES (?, ?), ...;",
    ] {
        assert_eq!(sanitized(text), text);
        assert_eq!(sanitized(&sanitized(text)), text);
    }
}

#[test]
fn sanitizing_what_is_not_canonical() {
    assert_eq!(sanitized("select * from t where x = 'y'\r\n"), "SELECT * FROM t WHERE x = ?\n\n");
    assert_eq!(
        sanitized("SELECT * FROM t WHERE x = 'unterminated"),
        "SELECT * FROM t WHERE x = ?"
    );
}

#[test]
fn sanitizer_takes_tokens_made_by_hand() {
    let tokens = vec![
        Token::Comment(BufferSlice::new(0, 1)),
        Token::Tombstone,
        Token::Operator(Operator::Comparison(ComparisonOperator::Equal)),
        Token::Tombstone,
        Token::Numeric(BufferSlice::new(0, 1)),
        Token::Ellipsis,
        Token::Numeric(BufferSlice::new(0, 1)),
    ];
    let sql = SqlSanitizer::new(Sql::new("1".to_string(), tokens)).sanitize();
    assert_eq!(
        sql.tokens,
        vec![
            Token::Tombstone,
            Token::Tombstone,
            Token::Operator(Operator::Comparison(ComparisonOperator::Equal)),
            Token::Tombstone,
            Token::Placeholder,
            Token::Ellipsis,
            Token::Numeric(BufferSlice::new(0, 1)),
        ]
    );
    assert_eq!(sql_lexer::write(sql), "=?...1");
}

#[test]
fn long_insert_is_collapsed_to_its_first_row() {
    let mut query = "INSERT INTO \"table_name\" (\"one\",\"two\",\"three\") VALUES ".to_string();
    for i in 0..20000 {
        query.push_str(&format!("({}, {}, {}),", i, i + 1, i + 2));
    }
    query.push_str("(0, 0, 0);");
    assert_eq!(
        sanitized(&query),
        "INSERT INTO \"table_name\" (\"one\",\"two\",\"three\") VALUES (?, ?, ?),...;"
    );
}

#[test]
fn sanitizing_keeps_the_number_of_tokens_and_drops_every_comment() {
    for text in [
        "SELECT * FROM t WHERE id IN (1, /* a */ 2) -- b",
        "INSERT INTO t VALUES (1, 'a'), (2, 'b') /* c */, (3, 'c')",
        "/* a */ SELECT # b\n 1",
    ] {
        let before = lex(text.to_string()).tokens;
        let after = sanitize(lex(text.to_string())).tokens;
        assert_eq!(before.len(), after.len());
        for (old, new) in before.iter().zip(after.iter()) {
            assert!(!matches!(new, Token::Comment(_)));
            assert!(
                old == new
                    || matches!(new, Token::Placeholder | Token::Ellipsis | Token::Tombstone)
            );
        }
    }
}

// Many texts

struct Rng(u64);

impl Rng {
    fn next(&mut self, bound: usize) -> usize {
        self.0 = self.0.wrapping_mul(6364136223846793005).wrapping_add(1442695040888963407);
        ((self.0 >> 33) as usize) % bound
    }
}

fn text_of(pieces: &[&str], rng: &mut Rng) -> String {
    let mut text = String::new();
    for _ in 0..rng.next(24) {
        text.push_str(pieces[rng.next(pieces.len())]);
    }
    text
}

#[test]
fn any_text_is_read_and_sanitized() {
    let pieces = [
        "'", "\"", "`", "\\", "#", "-", "/", "*", " ", "\n", "\r", ".", ",", "(", ")", "[", "]",
        ":", ";", "?", "$", "%", "+", "=", "!", ">", "<", "&", "|", "_", "a", "Z", "0", "9", "x",
        "B", "é", "日", "😀", "²", "SELECT", "from", "VALUES", "IN", "on", "ARRAY", "between",
        "and", "OFFSET", "null", "date", "--", "/*", "*/", "~",
    ];
    let mut rng = Rng(1);
    for _ in 0..3000 {
        let text = text_of(&pieces, &mut rng);
        let read = lex(text.clone());
        assert_eq!(read.buffer(), text);
        for token in read.tokens.iter() {
            assert!(!matches!(token, Token::Ellipsis | Token::Tombstone));
        }
        let count = read.tokens.len();
        let clean = sanitize(read);
        assert_eq!(clean.buffer(), text);
        assert_eq!(clean.tokens.len(), count);
        for token in clean.tokens.iter() {
            assert!(!matches!(token, Token::Comment(_)));
        }
        assert_eq!(sql_lexer::write(clean), sanitized(&text));
    }
}

#[test]
fn text_in_the_writers_spelling_is_given_back() {
    let pieces = [
        "'a'", "\"b\"", "`c`", "'it\\'s'", "''", "# c\n", "-- c\n", "/* c */", " ", "\n", ".",
        ",", "(", ")", "[", "]", ":", ";", "?", "$1", "$", "%", "+", "- ", "/ ", "*", "=", "==",
        "<=>", ">=", "<=", "=>", "=<", "<>", "!=", ">", "<", "<<", ">>", "& ", "| ", "#>", "#>>",
        "||", "!", "_utf8", "_", "abc", "a-b_1", "é", "日本", "😀", "1", "-1.5", "0x", "0b", "1x",
        "SELECT", "FROM", "WHERE", "AND", "OR", "UPDATE", "SET", "INSERT", "INTO", "VALUES",
        "INNER", "JOIN", "ON", "LIMIT", "OFFSET", "BETWEEN", "ARRAY", "IN", "NOT", "LIKE",
        "ILIKE", "RLIKE", "GLOB", "MATCH", "REGEXP", "THEN", "ELSE", "BINARY", "DATE", "TIME",
        "TIMESTAMP", "x", "b", "n", "NULL", "TRUE", "FALSE", "~", "\t",
    ];
    let mut rng = Rng(2);
    for _ in 0..3000 {
        let mut text = String::new();
        for _ in 0..rng.next(16) {
            // A space keeps two pieces from growing into one word or one run.
            text.push_str(pieces[rng.next(pieces.len())]);
            text.push(' ');
        }
        assert_eq!(round_trip(&text), text);
    }
}

#[test]
fn text_without_values_is_left_as_it_is() {
    let pieces = [
        "SELECT", "FROM", "WHERE", "AND", "OR", "UPDATE", "SET", "INSERT", "INTO", "INNER",
        "JOIN", "ON", "LIMIT", "OFFSET", "BETWEEN", "ARRAY", "IN", "NOT", "LIKE", "THEN", "ELSE",
        "DATE", "x", "_utf8", "abc", "`c`", "?", "$1", "=", "<>", "+", "*", "(", ")", "[", "]",
        ".", ",", ";", ":", "\n", "~", "||",
    ];
    let mut rng = Rng(3);
    for _ in 0..3000 {
        let mut text = String::new();
        for _ in 0..rng.next(16) {
            text.push_str(pieces[rng.next(pieces.len())]);
            text.push(' ');
        }
        assert_eq!(sanitized(&text), text);
    }
}
