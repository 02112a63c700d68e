use shigure_parser::ast::{Token, TokenContent, TokenLiteral, TokenLoc};
use shigure_parser::tokenizer::{Tokenizer, TokenizerErr};

/// Checks that the lexer yields at least the expected tokens, in order,
/// from the start of the stream.
fn run_tok_test(expected: Vec<Token>, query: &str) -> bool {
    let mut tokenizer = Tokenizer::new(query);
    for expected_tok in expected {
        match tokenizer.next() {
            Some(Ok(token)) => {
                if token != expected_tok {
                    println!(
                        "unexpected token\n- expected:\n{:?}\n- got:\n{:?}",
                        expected_tok, token
                    );
                    return false;
                }
            }
            Some(Err(err)) => {
                println!("tokenizer error: {:?}", err);
                return false;
            }
            None => {
                println!("tokenizer returned fewer tokens than expected");
                return false;
            }
        }
    }
    true
}

#[test]
fn decimal_digits() {
    assert!(run_tok_test(
        vec![Token {
            loc: TokenLoc {
                starts_at: 0,
                len: 2,
            },
            con: TokenContent::Literal(TokenLiteral::NumberLiteral("91".to_string())),
        }],
        "91",
    ));
}

#[test]
fn multiple_tokens() {
    assert!(run_tok_test(
        vec![
            Token {
                loc: TokenLoc {
                    starts_at: 0,
                    len: 1,
                },
                con: TokenContent::Identifier("x".to_string()),
            },
            Token {
                loc: TokenLoc {
                    starts_at: 2,
                    len: 2,
                },
                con: TokenContent::Literal(TokenLiteral::NumberLiteral("91".to_string())),
            }
        ],
        "x 91",
    ));
}

#[test]
fn lex_identifier() {
    assert!(run_tok_test(
        vec![Token {
            loc: TokenLoc {
                starts_at: 0,
                len: 10,
            },
            con: TokenContent::Identifier("identifier".into()),
        }],
        "identifier",
    ));
}

#[test]
fn lex_identifier_with_dollar_and_underscore() {
    assert!(run_tok_test(
        vec![Token {
            loc: TokenLoc {
                starts_at: 0,
                len: 12,
            },
            con: TokenContent::Identifier("$Identifi_er".into()),
        }],
        "$Identifi_er",
    ));
}

#[test]
fn string_literal() {
    assert!(run_tok_test(
        vec![Token {
            loc: TokenLoc {
                starts_at: 0,
                len: 14,
            },
            con: TokenContent::Literal(TokenLiteral::StringLiteral(
                "\"hello, world\"".to_string()
            )),
        }],
        "\"hello, world\"",
    ));
}

#[test]
fn lex_viewtag() {
    assert!(run_tok_test(
        vec![
            Token {
                loc: TokenLoc {
                    starts_at: 0,
                    len: 1,
                },
                con: TokenContent::TagAngleBracketLeft,
            },
            Token {
                loc: TokenLoc {
                    starts_at: 1,
                    len: 7,
                },
                con: TokenContent::Identifier("Element".into()),
            },
            Token {
                loc: TokenLoc {
                    starts_at: 8,
                    len: 7,
                },
                con: TokenContent::Anchor("#anchor".into()),
            },
            Token {
                loc: TokenLoc {
                    starts_at: 16,
                    len: 2,
                },
                con: TokenContent::TagAngleSelfClosingRight,
            },
        ],
        "<Element#anchor />",
    ));

    assert!(run_tok_test(
        vec![
            Token {
                loc: TokenLoc {
                    starts_at: 0,
                    len: 1,
                },
                con: TokenContent::TagAngleBracketLeft,
            },
            Token {
                loc: TokenLoc {
                    starts_at: 1,
                    len: 7,
                },
                con: TokenContent::Identifier("Element".into()),
            },
            Token {
                loc: TokenLoc {
                    starts_at: 8,
                    len: 7,
                },
                con: TokenContent::Anchor("#anchor".into()),
            },
            Token {
                loc: TokenLoc {
                    starts_at: 16,
                    len: 16,
                },
                con: TokenContent::Identifier("x-attribute-name".into()),
            },
            Token {
                loc: TokenLoc {
                    starts_at: 32,
                    len: 1,
                },
                con: TokenContent::AssignmentOp,
            },
            Token {
                loc: TokenLoc {
                    starts_at: 33,
                    len: 7,
                },
                con: TokenContent::Literal(TokenLiteral::StringLiteral("\"value\"".into())),
            },
            Token {
                loc: TokenLoc {
                    starts_at: 41,
                    len: 2,
                },
                con: TokenContent::TagAngleSelfClosingRight,
            },
        ],
        "<Element#anchor x-attribute-name=\"value\" />",
    ));

    assert!(run_tok_test(
        vec![
            Token {
                loc: TokenLoc {
                    starts_at: 0,
                    len: 1,
                },
                con: TokenContent::TagAngleBracketLeft,
            },
            Token {
                loc: TokenLoc {
                    starts_at: 1,
                    len: 7,
                },
                con: TokenContent::Identifier("Element".into()),
            },
            Token {
                loc: TokenLoc {
                    starts_at: 8,
                    len: 7,
                },
                con: TokenContent::Anchor("#anchor".into()),
            },
            Token {
                loc: TokenLoc {
                    starts_at: 16,
                    len: 9,
                },
                con: TokenContent::Identifier("$sName_A2".into()),
            },
            Token {
                loc: TokenLoc {
                    starts_at: 25,
                    len: 1,
                },
                con: TokenContent::AssignmentOp,
            },
            Token {
                loc: TokenLoc {
                    starts_at: 26,
                    len: 6,
                },
                con: TokenContent::Literal(TokenLiteral::StringLiteral("\"$doc\"".into())),
            },
            Token {
                loc: TokenLoc {
                    starts_at: 32,
                    len: 1,
                },
                con: TokenContent::TagAngleBracketRight,
            },
            Token {
                loc: TokenLoc {
                    starts_at: 33,
                    len: 2,
                },
                con: TokenContent::TagAngleClosingLeft,
            },
            Token {
                loc: TokenLoc {
                    starts_at: 35,
                    len: 7,
                },
                con: TokenContent::Identifier("Element".into()),
            },
            Token {
                loc: TokenLoc {
                    starts_at: 42,
                    len: 1,
                },
                con: TokenContent::TagAngleBracketRight,
            },
        ],
        "<Element#anchor $sName_A2=\"$doc\"></Element>",
    ));
}

#[test]
fn keyword_tokens() {
    assert!(run_tok_test(
        vec![
            Token {
                loc: TokenLoc {
                    starts_at: 0,
                    len: 3,
                },
                con: TokenContent::Let,
            },
            Token {
                loc: TokenLoc {
                    starts_at: 4,
                    len: 6,
                },
                con: TokenContent::Import,
            },
            Token {
                loc: TokenLoc {
                    starts_at: 11,
                    len: 3,
                },
                con: TokenContent::For,
            },
            Token {
                loc: TokenLoc {
                    starts_at: 15,
                    len: 5,
                },
                con: TokenContent::Const,
            },
        ],
        "let import for const",
    ));
}

#[test]
fn keyword_prefix_is_one_identifier() {
    // Maximal munch: the word opens with the reserved word `for`, but
    // only the whole run is classified, so it stays one identifier.
    assert!(run_tok_test(
        vec![Token {
            loc: TokenLoc {
                starts_at: 0,
                len: 4,
            },
            con: TokenContent::Identifier("fort".into()),
        }],
        "fort",
    ));
    assert!(run_tok_test(
        vec![Token {
            loc: TokenLoc {
                starts_at: 0,
                len: 7,
            },
            con: TokenContent::Identifier("integer".into()),
        }],
        "integer",
    ));
}

#[test]
fn digit_run_spans_whole_input() {
    assert!(run_tok_test(
        vec![Token {
            loc: TokenLoc {
                starts_at: 0,
                len: 3,
            },
            con: TokenContent::Literal(TokenLiteral::NumberLiteral("007".to_string())),
        }],
        "007",
    ));
    let mut t = Tokenizer::new("12345");
    let first = t.next();
    assert!(matches!(first, Some(Ok(_))));
    assert!(t.next().is_none());
}

#[test]
fn unterminated_string_literal_faults() {
    let mut t = Tokenizer::new("\"no closing quote");
    assert_eq!(t.next(), Some(Err(TokenizerErr::UnterminatedStringLiteral)));
}

#[test]
fn unexpected_token_faults() {
    let mut t = Tokenizer::new("?");
    assert_eq!(t.next(), Some(Err(TokenizerErr::UnexpectedToken)));

    // `/` not followed by `>` has no production.
    let mut t2 = Tokenizer::new("/x");
    assert_eq!(t2.next(), Some(Err(TokenizerErr::UnexpectedToken)));

    // An identifier may not end in `-`.
    let mut t3 = Tokenizer::new("x- ");
    assert_eq!(t3.next(), Some(Err(TokenizerErr::UnexpectedToken)));
}

#[test]
fn empty_anchor_faults() {
    let mut t = Tokenizer::new("#9");
    assert_eq!(t.next(), Some(Err(TokenizerErr::EmptyElementIdentifier)));

    let mut t2 = Tokenizer::new("#");
    assert_eq!(t2.next(), Some(Err(TokenizerErr::EmptyElementIdentifier)));
}

#[test]
fn punctuation_tokens() {
    assert!(run_tok_test(
        vec![
            Token {
                loc: TokenLoc {
                    starts_at: 0,
                    len: 1,
                },
                con: TokenContent::ParenthesisLeft,
            },
            Token {
                loc: TokenLoc {
                    starts_at: 1,
                    len: 1,
                },
                con: TokenContent::ParenthesisRight,
            },
            Token {
                loc: TokenLoc {
                    starts_at: 2,
                    len: 1,
                },
                con: TokenContent::BraceLeft,
            },
            Token {
                loc: TokenLoc {
                    starts_at: 3,
                    len: 1,
                },
                con: TokenContent::BraceRight,
            },
            Token {
                loc: TokenLoc {
                    starts_at: 4,
                    len: 1,
                },
                con: TokenContent::SquareBracketLeft,
            },
            Token {
                loc: TokenLoc {
                    starts_at: 5,
                    len: 1,
                },
                con: TokenContent::SquareBracketRight,
            },
            Token {
                loc: TokenLoc {
                    starts_at: 6,
                    len: 1,
                },
                con: TokenContent::AssignmentOp,
            },
            Token {
                loc: TokenLoc {
                    starts_at: 7,
                    len: 1,
                },
                con: TokenContent::AddOp,
            },
            Token {
                loc: TokenLoc {
                    starts_at: 8,
                    len: 1,
                },
                con: TokenContent::BitwiseAndOp,
            },
        ],
        "(){}[]=+&",
    ));
}

#[test]
fn token_literal_content() {
    let lit = TokenLiteral::NumberLiteral("42".to_string());
    assert_eq!(lit.content().as_str(), "42");
    let lit2 = TokenLiteral::StringLiteral("\"a\"".to_string());
    assert_eq!(lit2.content().as_str(), "\"a\"");
}

#[test]
fn empty_input_yields_no_tokens() {
    let mut t = Tokenizer::new("");
    assert!(t.next().is_none());
    let mut t2 = Tokenizer::new("   \t\n");
    assert!(t2.next().is_none());
}
