use shigure_parser::ast::TokenLoc;
use shigure_parser::item::{
    HasLoc, Loc, NodeConst, NodeIdentifier, NodeScoped, NodeView,
};
use shigure_parser::module_parser::{ModuleParser, ModuleParserState};
use shigure_parser::parser::{parse, ParseError, Parser};
use shigure_parser::tokenizer::{Tokenizer, TokenizerErr};
use shigure_parser::view_parser::ViewParser;

fn parse_str(name: &str, src: &str) -> Result<shigure_parser::item::NodeFile, ParseError> {
    parse(&name.to_string(), &src.to_string())
}

#[test]
fn let_binding_with_structured_value() {
    // A well-formed `let x = { }` at module scope: one binding node
    // named `x`, spanning from the keyword to the closing brace.
    let file = parse_str("f", "let x = { }").unwrap();
    assert_eq!(file.loc, Loc { start: 0, end: 11 });
    assert_eq!(file.name, "f");
    assert_eq!(file.modules.len(), 1);
    let module = &file.modules[0];
    assert_eq!(module.name, "<file>");
    assert_eq!(module.loc, Loc { start: 0, end: 11 });
    assert_eq!(module.nodes.len(), 1);
    assert_eq!(
        module.nodes[0],
        NodeScoped::Const(NodeConst {
            name: NodeIdentifier {
                value: "x".to_string(),
                loc: Loc { start: 4, end: 5 },
            },
            loc: Loc { start: 0, end: 11 },
        })
    );
}

#[test]
fn let_binding_with_identifier_value() {
    let file = parse_str("f", "let a = b").unwrap();
    let module = &file.modules[0];
    assert_eq!(module.nodes.len(), 1);
    assert_eq!(
        module.nodes[0],
        NodeScoped::Const(NodeConst {
            name: NodeIdentifier {
                value: "a".to_string(),
                loc: Loc { start: 4, end: 5 },
            },
            loc: Loc { start: 0, end: 9 },
        })
    );
}

#[test]
fn let_binding_with_params() {
    let file = parse_str("f", "let f (a b) = { }").unwrap();
    assert_eq!(file.modules[0].nodes.len(), 1);
}

#[test]
fn nested_structured_value() {
    let file = parse_str("f", "let x = { { } 1 + 2 }").unwrap();
    let module = &file.modules[0];
    assert_eq!(
        module.nodes[0],
        NodeScoped::Const(NodeConst {
            name: NodeIdentifier {
                value: "x".to_string(),
                loc: Loc { start: 4, end: 5 },
            },
            loc: Loc { start: 0, end: 21 },
        })
    );
}

#[test]
fn unclosed_structured_value_fails_at_open_brace() {
    let err = parse_str("f", "let x = { ").unwrap_err();
    assert_eq!(
        err,
        ParseError::SyntaxError {
            loc: Loc { start: 8, end: 9 }
        }
    );
}

#[test]
fn import_followed_by_bad_token_fails_at_import() {
    // `import` followed by neither a string literal nor an identifier:
    // a syntax error at the `import` token's own position.
    let err = parse_str("f", "import =").unwrap_err();
    assert_eq!(
        err,
        ParseError::SyntaxError {
            loc: Loc { start: 0, end: 6 }
        }
    );

    let err2 = parse_str("f", "import").unwrap_err();
    assert_eq!(
        err2,
        ParseError::SyntaxError {
            loc: Loc { start: 0, end: 6 }
        }
    );
}

#[test]
fn import_with_string_or_namespace() {
    let file = parse_str("f", "import \"lib/a\"").unwrap();
    assert_eq!(file.modules[0].nodes.len(), 0);
    let file2 = parse_str("f", "import core").unwrap();
    assert_eq!(file2.modules[0].nodes.len(), 0);
}

#[test]
fn bare_identifier_statement() {
    let file = parse_str("f", "someref").unwrap();
    assert_eq!(file.modules[0].nodes.len(), 0);
}

#[test]
fn parse_is_idempotent() {
    // Parsing the same source twice yields structurally equal trees:
    // no hidden state survives a parse.
    let src = "let x = { }\nimport \"a\"\n<El#a k=\"v\"></El>\nlet y = z";
    let r1 = parse_str("f", src);
    let r2 = parse_str("f", src);
    assert_eq!(r1, r2);

    let bad = "let x = ";
    let e1 = parse_str("f", bad);
    let e2 = parse_str("f", bad);
    assert_eq!(e1, e2);
}

#[test]
fn self_closing_view_element() {
    let file = parse_str("f", "<Element#anchor />").unwrap();
    let module = &file.modules[0];
    assert_eq!(module.nodes.len(), 1);
    assert_eq!(
        module.nodes[0],
        NodeScoped::View(NodeView {
            loc: Loc { start: 0, end: 18 }
        })
    );
}

#[test]
fn view_element_with_children() {
    let file = parse_str("f", "<A><B /></A>").unwrap();
    assert_eq!(
        file.modules[0].nodes[0],
        NodeScoped::View(NodeView {
            loc: Loc { start: 0, end: 12 }
        })
    );
}

#[test]
fn view_element_with_attributes() {
    let file = parse_str("f", "<El a=\"v\" b-c=\"w\"></El>").unwrap();
    assert_eq!(
        file.modules[0].nodes[0],
        NodeScoped::View(NodeView {
            loc: Loc { start: 0, end: 23 }
        })
    );
}

#[test]
fn mismatched_closing_tag_fails_at_closing_name() {
    let err = parse_str("f", "<A></B>").unwrap_err();
    assert_eq!(
        err,
        ParseError::SyntaxError {
            loc: Loc { start: 5, end: 6 }
        }
    );
}

#[test]
fn lexical_fault_becomes_parse_error() {
    // An unterminated string literal surfaces as a tokenize error at
    // the opening quote.
    let err = parse_str("f", "let x = \"oops").unwrap_err();
    assert_eq!(
        err,
        ParseError::TokenizeError {
            loc: Loc { start: 8, end: 8 },
            error: TokenizerErr::UnterminatedStringLiteral,
        }
    );
    assert_eq!(err.loc(), Loc { start: 8, end: 8 });
}

#[test]
fn statement_with_no_production_fails_at_its_token() {
    let err = parse_str("f", "else").unwrap_err();
    assert_eq!(
        err,
        ParseError::SyntaxError {
            loc: Loc { start: 0, end: 4 }
        }
    );
}

#[test]
fn empty_source_parses_to_empty_module() {
    let file = parse_str("f", "").unwrap();
    assert_eq!(file.loc, Loc { start: 0, end: 0 });
    assert_eq!(file.modules[0].nodes.len(), 0);
}

#[test]
fn parser_records_a_rendered_diagnostic() {
    let name = "src/a.shi".to_string();
    let input = "let x = ?".to_string();
    let mut p = Parser::new(&name, &input);
    let res = p.parse_all();
    assert!(res.is_err());
    assert_eq!(p.reports().len(), 1);
    let report = &p.reports()[0];
    assert!(report.contains("error"));
    assert!(report.contains("src/a.shi:1:9"));
    assert!(report.contains("let x = ?"));
}

#[test]
fn module_parser_from_str() {
    let mut mp = ModuleParser::from_str("let x = { }");
    let module = mp.parse_all().unwrap();
    assert_eq!(module.name, "<file>");
    assert_eq!(module.nodes.len(), 1);
}

#[test]
fn module_parser_state_queries() {
    let ready = ModuleParserState::Ready;
    assert!(ready.is_ready());
    assert!(ready.has_pending_token().is_none());
    assert!(!ModuleParserState::EOF.is_ready());
    let pending = ModuleParserState::PendingToken(Err(TokenizerErr::UnexpectedToken));
    assert!(!pending.is_ready());
    assert_eq!(
        pending.has_pending_token(),
        Some(&Err(TokenizerErr::UnexpectedToken))
    );
}

#[test]
fn view_parser_parses_one_element() {
    let mut t = Tokenizer::new("<El#a x=\"1\" />");
    let lt = match t.next() {
        Some(Ok(tok)) => tok.loc,
        other => panic!("expected the opening token, got {:?}", other),
    };
    let mut vp = ViewParser::new(lt);
    let node = vp.parse_all(&mut t).unwrap();
    assert_eq!(node.loc, Loc { start: 0, end: 14 });
}

#[test]
fn node_loc_queries() {
    let view = NodeView {
        loc: Loc { start: 2, end: 7 },
    };
    assert_eq!(view.loc(), Loc { start: 2, end: 7 });
    let scoped = NodeScoped::View(view);
    assert_eq!(scoped.loc(), Loc { start: 2, end: 7 });
    let from_tok = Loc::from_token(TokenLoc {
        starts_at: 3,
        len: 4,
    });
    assert_eq!(from_tok, Loc { start: 3, end: 7 });
}
