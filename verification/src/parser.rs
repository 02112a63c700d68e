//! The parser: error types, the mathematical description of the
//! grammar, and the [`Parser`] entry point that turns a named source
//! text into a [`NodeFile`].
//!
//! The grammar is pinned by a family of spec functions over the source
//! characters and a cursor position, each mirroring one production:
//! [`spec_parse_stmts`] for the module-level statement list,
//! [`spec_parse_value`] for binding values, and
//! [`spec_parse_element`] for view elements. Parsing is fail-fast: the
//! first lexical or syntactic fault ends the parse and is the result.

use crate::ast::{SpecTokenContent, SpecTokenLiteral, SpecTokenLoc};
use crate::item::{
    Loc, NodeFile, NodeModule, SpecLoc, SpecNodeConst, SpecNodeFile, SpecNodeIdentifier,
    SpecNodeModule, SpecNodeScoped, SpecNodeStructured, SpecNodeValue, SpecNodeView,
    spec_loc_of_token,
};
use crate::log::{Logger, Message, MessageLevel, SpecMessage, spec_render};
use crate::module_parser::ModuleParser;
use crate::tokenizer::{LexStep, Tokenizer, TokenizerErr, lemma_lex_step_advances, lex_step};
use vstd::prelude::*;

verus! {

/// A failed parse: either the lexer faulted, or a token had no
/// production at its position. Both carry the offending range.
#[derive(Eq, PartialEq, Clone, Copy, Debug)]
pub enum ParseError {
    TokenizeError { loc: Loc, error: TokenizerErr },
    SyntaxError { loc: Loc },
}

/// Model of a [`ParseError`].
pub ghost enum SpecParseError {
    TokenizeError { loc: SpecLoc, error: TokenizerErr },
    SyntaxError { loc: SpecLoc },
}

impl View for ParseError {
    type V = SpecParseError;

    open spec fn view(&self) -> SpecParseError {
        match self {
            ParseError::TokenizeError { loc, error } => SpecParseError::TokenizeError {
                loc: loc@,
                error: *error,
            },
            ParseError::SyntaxError { loc } => SpecParseError::SyntaxError { loc: loc@ },
        }
    }
}

/// The range a [`SpecParseError`] points at.
pub open spec fn spec_err_loc(e: SpecParseError) -> SpecLoc {
    match e {
        SpecParseError::TokenizeError { loc, error } => loc,
        SpecParseError::SyntaxError { loc } => loc,
    }
}

impl ParseError {
    /// The range this error points at.
    pub fn loc(&self) -> (l: Loc)
        ensures
            l@ == spec_err_loc(self@),
    {
        match self {
            ParseError::SyntaxError { loc } => *loc,
            ParseError::TokenizeError { loc, .. } => *loc,
        }
    }
}

pub type ParseResult<T> = Result<T, ParseError>;

/// A structured hint attached to a parse message.
#[derive(Debug)]
pub struct ParseMessageHint {}

/// The severity of a parse message.
#[derive(Debug)]
pub enum ParseMessageKind {
    Error,
    Warning,
    Info,
}

/// A structured message gathered while parsing.
pub struct ParseMessage {
    kind: ParseMessageKind,
    hints: Vec<ParseMessageHint>,
}

// ---------------------------------------------------------------------------
// Error constructors of the grammar description.
// ---------------------------------------------------------------------------

/// The parse failed because the text ended where a production still
/// expected a token: a syntax error at the empty range at the end.
pub open spec fn spec_eof_err(s: Seq<char>) -> SpecParseError {
    SpecParseError::SyntaxError { loc: SpecLoc { start: s.len() as int, end: s.len() as int } }
}

/// A lexical fault at position `p`, wrapped as a parse error.
pub open spec fn spec_tok_err(e: TokenizerErr, p: int) -> SpecParseError {
    SpecParseError::TokenizeError { loc: SpecLoc { start: p, end: p }, error: e }
}

/// A syntax error at the range of the given token.
pub open spec fn spec_syn_err(l: SpecTokenLoc) -> SpecParseError {
    SpecParseError::SyntaxError { loc: spec_loc_of_token(l) }
}

/// The error's range lies within the source.
pub open spec fn spec_err_loc_wf(s: Seq<char>, e: SpecParseError) -> bool {
    0 <= spec_err_loc(e).start <= spec_err_loc(e).end <= s.len()
}

/// A token range that lies within the source.
pub open spec fn spec_token_loc_wf(s: Seq<char>, l: SpecTokenLoc) -> bool {
    0 <= l.starts_at && 0 <= l.len && l.starts_at + l.len <= s.len()
}

// ---------------------------------------------------------------------------
// Structured values: `{` ... matching `}`.
// ---------------------------------------------------------------------------

/// Consumes tokens after an opening `{` until the matching `}`,
/// counting nested braces. Returns the end offset of the closing brace
/// and the cursor after it. Reaching the end of the text first is a
/// syntax error at the opening brace.
pub open spec fn spec_parse_structured(s: Seq<char>, i: int, depth: int, open: SpecLoc) -> Result<
    (int, int),
    SpecParseError,
>
    decreases s.len() - i,
    when 0 <= i <= s.len() && depth >= 1
{
    match lex_step(s, i) {
        LexStep::End => Err(SpecParseError::SyntaxError { loc: open }),
        LexStep::Fail(e, p) => Err(spec_tok_err(e, p)),
        LexStep::Tok(t, j) => {
            proof {
                lemma_lex_step_advances(s, i);
            }
            if t.con is BraceRight {
                if depth == 1 {
                    Ok((t.loc.starts_at + t.loc.len, j))
                } else {
                    spec_parse_structured(s, j, depth - 1, open)
                }
            } else if t.con is BraceLeft {
                spec_parse_structured(s, j, depth + 1, open)
            } else {
                spec_parse_structured(s, j, depth, open)
            }
        },
    }
}

pub proof fn lemma_structured_advances(s: Seq<char>, i: int, depth: int, open: SpecLoc)
    requires
        0 <= i <= s.len(),
        depth >= 1,
        0 <= open.start <= open.end <= s.len(),
    ensures
        match spec_parse_structured(s, i, depth, open) {
            Ok((e, j)) => i < j <= s.len() && i < e <= j,
            Err(er) => spec_err_loc_wf(s, er),
        },
    decreases s.len() - i,
{
    lemma_lex_step_advances(s, i);
    match lex_step(s, i) {
        LexStep::Tok(t, j) => {
            if t.con is BraceRight {
                if depth != 1 {
                    lemma_structured_advances(s, j, depth - 1, open);
                }
            } else if t.con is BraceLeft {
                lemma_structured_advances(s, j, depth + 1, open);
            } else {
                lemma_structured_advances(s, j, depth, open);
            }
        },
        _ => {},
    }
}

// ---------------------------------------------------------------------------
// Binding values.
// ---------------------------------------------------------------------------

/// The value grammar of a binding: `{` opens a structured value, a bare
/// identifier is an identifier value, anything else is a syntax error
/// at that token. Returns the value, its end offset, and the cursor
/// after it.
pub open spec fn spec_parse_value(s: Seq<char>, i: int) -> Result<
    (SpecNodeValue, int, int),
    SpecParseError,
> {
    match lex_step(s, i) {
        LexStep::End => Err(spec_eof_err(s)),
        LexStep::Fail(e, p) => Err(spec_tok_err(e, p)),
        LexStep::Tok(t, j) => match t.con {
            SpecTokenContent::BraceLeft => {
                match spec_parse_structured(s, j, 1, spec_loc_of_token(t.loc)) {
                    Ok((e, j2)) => Ok(
                        (
                            SpecNodeValue::Structured(
                                SpecNodeStructured {
                                    loc: SpecLoc { start: t.loc.starts_at, end: e },
                                },
                            ),
                            e,
                            j2,
                        ),
                    ),
                    Err(er) => Err(er),
                }
            },
            SpecTokenContent::Identifier(w) => Ok(
                (
                    SpecNodeValue::Identifier(
                        SpecNodeIdentifier { value: w, loc: spec_loc_of_token(t.loc) },
                    ),
                    t.loc.starts_at + t.loc.len,
                    j,
                ),
            ),
            _ => Err(spec_syn_err(t.loc)),
        },
    }
}

pub proof fn lemma_value_advances(s: Seq<char>, i: int)
    requires
        0 <= i <= s.len(),
    ensures
        match spec_parse_value(s, i) {
            Ok((v, e, j)) => i < j <= s.len() && i < e <= j,
            Err(er) => spec_err_loc_wf(s, er),
        },
{
    lemma_lex_step_advances(s, i);
    match lex_step(s, i) {
        LexStep::Tok(t, j) => {
            if t.con is BraceLeft {
                lemma_structured_advances(s, j, 1, spec_loc_of_token(t.loc));
            }
        },
        _ => {},
    }
}

// ---------------------------------------------------------------------------
// Parameter lists.
// ---------------------------------------------------------------------------

/// After an opening `(`: zero or more identifiers, then `)`. Returns
/// the cursor after the closing parenthesis.
pub open spec fn spec_parse_params(s: Seq<char>, i: int) -> Result<int, SpecParseError>
    decreases s.len() - i,
    when 0 <= i <= s.len()
{
    match lex_step(s, i) {
        LexStep::End => Err(spec_eof_err(s)),
        LexStep::Fail(e, p) => Err(spec_tok_err(e, p)),
        LexStep::Tok(t, j) => {
            proof {
                lemma_lex_step_advances(s, i);
            }
            match t.con {
                SpecTokenContent::ParenthesisRight => Ok(j),
                SpecTokenContent::Identifier(_) => spec_parse_params(s, j),
                _ => Err(spec_syn_err(t.loc)),
            }
        },
    }
}

pub proof fn lemma_params_advances(s: Seq<char>, i: int)
    requires
        0 <= i <= s.len(),
    ensures
        match spec_parse_params(s, i) {
            Ok(j) => i < j <= s.len(),
            Err(er) => spec_err_loc_wf(s, er),
        },
    decreases s.len() - i,
{
    lemma_lex_step_advances(s, i);
    match lex_step(s, i) {
        LexStep::Tok(t, j) => {
            if t.con is Identifier {
                lemma_params_advances(s, j);
            }
        },
        _ => {},
    }
}

// ---------------------------------------------------------------------------
// `let` bindings.
// ---------------------------------------------------------------------------

/// After the `=` of a binding: the value. The binding node spans from
/// the `let` keyword to the end of the value.
pub open spec fn spec_parse_let_value(
    s: Seq<char>,
    i: int,
    let_start: int,
    name: SpecNodeIdentifier,
) -> Result<(SpecNodeConst, int), SpecParseError> {
    match spec_parse_value(s, i) {
        Ok((v, e, j)) => Ok(
            (SpecNodeConst { name, loc: SpecLoc { start: let_start, end: e } }, j),
        ),
        Err(er) => Err(er),
    }
}

/// After a `let` keyword: the binding name, an optional parenthesised
/// parameter list, `=`, and a value.
pub open spec fn spec_parse_let(s: Seq<char>, i: int, let_loc: SpecTokenLoc) -> Result<
    (SpecNodeConst, int),
    SpecParseError,
> {
    match lex_step(s, i) {
        LexStep::End => Err(spec_eof_err(s)),
        LexStep::Fail(e, p) => Err(spec_tok_err(e, p)),
        LexStep::Tok(t, j) => match t.con {
            SpecTokenContent::Identifier(w) => {
                let name = SpecNodeIdentifier { value: w, loc: spec_loc_of_token(t.loc) };
                match lex_step(s, j) {
                    LexStep::End => Err(spec_eof_err(s)),
                    LexStep::Fail(e, p) => Err(spec_tok_err(e, p)),
                    LexStep::Tok(t2, j2) => match t2.con {
                        SpecTokenContent::ParenthesisLeft => {
                            match spec_parse_params(s, j2) {
                                Ok(j3) => {
                                    match lex_step(s, j3) {
                                        LexStep::End => Err(spec_eof_err(s)),
                                        LexStep::Fail(e, p) => Err(spec_tok_err(e, p)),
                                        LexStep::Tok(t4, j4) => {
                                            if t4.con is AssignmentOp {
                                                spec_parse_let_value(
                                                    s,
                                                    j4,
                                                    let_loc.starts_at,
                                                    name,
                                                )
                                            } else {
                                                Err(spec_syn_err(t4.loc))
                                            }
                                        },
                                    }
                                },
                                Err(er) => Err(er),
                            }
                        },
                        SpecTokenContent::AssignmentOp => {
                            spec_parse_let_value(s, j2, let_loc.starts_at, name)
                        },
                        _ => Err(spec_syn_err(t2.loc)),
                    },
                }
            },
            _ => Err(spec_syn_err(t.loc)),
        },
    }
}

pub proof fn lemma_let_advances(s: Seq<char>, i: int, let_loc: SpecTokenLoc)
    requires
        0 <= i <= s.len(),
    ensures
        match spec_parse_let(s, i, let_loc) {
            Ok((c, j)) => i < j <= s.len() && c.loc.start == let_loc.starts_at && 0 <= c.loc.end
                <= s.len() && i <= c.name.loc.start <= c.name.loc.end <= c.loc.end,
            Err(er) => spec_err_loc_wf(s, er),
        },
{
    lemma_lex_step_advances(s, i);
    match lex_step(s, i) {
        LexStep::Tok(t, j) => {
            if t.con is Identifier {
                lemma_lex_step_advances(s, j);
                match lex_step(s, j) {
                    LexStep::Tok(t2, j2) => {
                        if t2.con is ParenthesisLeft {
                            lemma_params_advances(s, j2);
                            match spec_parse_params(s, j2) {
                                Ok(j3) => {
                                    lemma_lex_step_advances(s, j3);
                                    match lex_step(s, j3) {
                                        LexStep::Tok(t4, j4) => {
                                            lemma_value_advances(s, j4);
                                        },
                                        _ => {},
                                    }
                                },
                                _ => {},
                            }
                        } else if t2.con is AssignmentOp {
                            lemma_value_advances(s, j2);
                        }
                    },
                    _ => {},
                }
            }
        },
        _ => {},
    }
}

// ---------------------------------------------------------------------------
// `import` statements.
// ---------------------------------------------------------------------------

/// After an `import` keyword: either a string literal (a module path)
/// or an identifier (a namespace). Anything else, including the end of
/// the text, is a syntax error at the `import` token itself.
pub open spec fn spec_parse_import(s: Seq<char>, i: int, import_loc: SpecTokenLoc) -> Result<
    int,
    SpecParseError,
> {
    match lex_step(s, i) {
        LexStep::End => Err(spec_syn_err(import_loc)),
        LexStep::Fail(e, p) => Err(spec_tok_err(e, p)),
        LexStep::Tok(t, j) => match t.con {
            SpecTokenContent::Literal(SpecTokenLiteral::StringLiteral(_)) => Ok(j),
            SpecTokenContent::Identifier(_) => Ok(j),
            _ => Err(spec_syn_err(import_loc)),
        },
    }
}

pub proof fn lemma_import_advances(s: Seq<char>, i: int, import_loc: SpecTokenLoc)
    requires
        0 <= i <= s.len(),
        spec_token_loc_wf(s, import_loc),
    ensures
        match spec_parse_import(s, i, import_loc) {
            Ok(j) => i < j <= s.len(),
            Err(er) => spec_err_loc_wf(s, er),
        },
{
    lemma_lex_step_advances(s, i);
}

// ---------------------------------------------------------------------------
// View elements.
// ---------------------------------------------------------------------------

/// Keeps a continuation position inside the text and strictly past `i`.
/// Every parsed form consumes at least one token, so the guards never
/// fire on a real continuation (see the advance lemmas); they only give
/// the recursion an unconditional measure.
pub open spec fn next_pos(s: Seq<char>, i: int, j: int) -> int {
    if j <= i {
        i + 1
    } else if j > s.len() {
        s.len() as int
    } else {
        j
    }
}

/// After the `<` of a view element: the tag name, then the rest of the
/// element. `lt` is the range of the `<` token; the element node spans
/// from it to the end of its closing tag.
pub open spec fn spec_parse_element(s: Seq<char>, i: int, lt: SpecTokenLoc) -> Result<
    (SpecNodeView, int),
    SpecParseError,
>
    decreases s.len() - i,
    when 0 <= i <= s.len()
{
    match lex_step(s, i) {
        LexStep::End => Err(spec_eof_err(s)),
        LexStep::Fail(e, p) => Err(spec_tok_err(e, p)),
        LexStep::Tok(t, j) => {
            proof {
                lemma_lex_step_advances(s, i);
            }
            match t.con {
                SpecTokenContent::Identifier(name) => spec_parse_tag_body(s, j, lt, name, true),
                _ => Err(spec_syn_err(t.loc)),
            }
        },
    }
}

/// After the tag name: at most one `#anchor` (first), any number of
/// `name = "value"` attributes, then either `/>` (self-closing) or `>`
/// followed by children and a matching closing tag.
pub open spec fn spec_parse_tag_body(
    s: Seq<char>,
    i: int,
    lt: SpecTokenLoc,
    name: Seq<char>,
    anchor_ok: bool,
) -> Result<(SpecNodeView, int), SpecParseError>
    decreases s.len() - i,
    when 0 <= i <= s.len()
{
    match lex_step(s, i) {
        LexStep::End => Err(spec_eof_err(s)),
        LexStep::Fail(e, p) => Err(spec_tok_err(e, p)),
        LexStep::Tok(t, j) => {
            proof {
                lemma_lex_step_advances(s, i);
            }
            match t.con {
                SpecTokenContent::Anchor(_) => {
                    if anchor_ok {
                        spec_parse_tag_body(s, j, lt, name, false)
                    } else {
                        Err(spec_syn_err(t.loc))
                    }
                },
                SpecTokenContent::Identifier(_) => match lex_step(s, j) {
                    LexStep::End => Err(spec_eof_err(s)),
                    LexStep::Fail(e, p) => Err(spec_tok_err(e, p)),
                    LexStep::Tok(t2, j2) => {
                        proof {
                            lemma_lex_step_advances(s, j);
                        }
                        if t2.con is AssignmentOp {
                            match lex_step(s, j2) {
                                LexStep::End => Err(spec_eof_err(s)),
                                LexStep::Fail(e, p) => Err(spec_tok_err(e, p)),
                                LexStep::Tok(t3, j3) => {
                                    proof {
                                        lemma_lex_step_advances(s, j2);
                                    }
                                    match t3.con {
                                        SpecTokenContent::Literal(
                                            SpecTokenLiteral::StringLiteral(_),
                                        ) => spec_parse_tag_body(s, j3, lt, name, false),
                                        _ => Err(spec_syn_err(t3.loc)),
                                    }
                                },
                            }
                        } else {
                            Err(spec_syn_err(t2.loc))
                        }
                    },
                },
                SpecTokenContent::TagAngleSelfClosingRight => Ok(
                    (
                        SpecNodeView {
                            loc: SpecLoc {
                                start: lt.starts_at,
                                end: t.loc.starts_at + t.loc.len,
                            },
                        },
                        j,
                    ),
                ),
                SpecTokenContent::TagAngleBracketRight => spec_parse_children(s, j, lt, name),
                _ => Err(spec_syn_err(t.loc)),
            }
        },
    }
}

/// Between `>` and the closing tag: any number of nested view elements,
/// then `</` name `>`. The closing name must equal the opening name; a
/// mismatch is a syntax error at the closing name token.
pub open spec fn spec_parse_children(
    s: Seq<char>,
    i: int,
    lt: SpecTokenLoc,
    name: Seq<char>,
) -> Result<(SpecNodeView, int), SpecParseError>
    decreases s.len() - i,
    when 0 <= i <= s.len()
{
    match lex_step(s, i) {
        LexStep::End => Err(spec_eof_err(s)),
        LexStep::Fail(e, p) => Err(spec_tok_err(e, p)),
        LexStep::Tok(t, j) => {
            proof {
                lemma_lex_step_advances(s, i);
            }
            match t.con {
                SpecTokenContent::TagAngleBracketLeft => {
                    match spec_parse_element(s, j, t.loc) {
                        Ok((_, j2)) => spec_parse_children(s, next_pos(s, i, j2), lt, name),
                        Err(er) => Err(er),
                    }
                },
                SpecTokenContent::TagAngleClosingLeft => match lex_step(s, j) {
                    LexStep::End => Err(spec_eof_err(s)),
                    LexStep::Fail(e, p) => Err(spec_tok_err(e, p)),
                    LexStep::Tok(t2, j2) => match t2.con {
                        SpecTokenContent::Identifier(n2) => {
                            if n2 == name {
                                match lex_step(s, j2) {
                                    LexStep::End => Err(spec_eof_err(s)),
                                    LexStep::Fail(e, p) => Err(spec_tok_err(e, p)),
                                    LexStep::Tok(t3, j3) => {
                                        if t3.con is TagAngleBracketRight {
                                            Ok(
                                                (
                                                    SpecNodeView {
                                                        loc: SpecLoc {
                                                            start: lt.starts_at,
                                                            end: t3.loc.starts_at + t3.loc.len,
                                                        },
                                                    },
                                                    j3,
                                                ),
                                            )
                                        } else {
                                            Err(spec_syn_err(t3.loc))
                                        }
                                    },
                                }
                            } else {
                                Err(spec_syn_err(t2.loc))
                            }
                        },
                        _ => Err(spec_syn_err(t2.loc)),
                    },
                },
                _ => Err(spec_syn_err(t.loc)),
            }
        },
    }
}

pub proof fn lemma_element_advances(s: Seq<char>, i: int, lt: SpecTokenLoc)
    requires
        0 <= i <= s.len(),
        spec_token_loc_wf(s, lt),
        lt.starts_at <= i,
    ensures
        match spec_parse_element(s, i, lt) {
            Ok((v, j)) => i < j <= s.len() && v.loc.start == lt.starts_at && v.loc.start
                <= v.loc.end <= s.len(),
            Err(er) => spec_err_loc_wf(s, er),
        },
    decreases s.len() - i, 1int,
{
    lemma_lex_step_advances(s, i);
    match lex_step(s, i) {
        LexStep::Tok(t, j) => {
            match t.con {
                SpecTokenContent::Identifier(name) => {
                    lemma_tag_body_advances(s, j, lt, name, true);
                },
                _ => {},
            }
        },
        _ => {},
    }
}

pub proof fn lemma_tag_body_advances(
    s: Seq<char>,
    i: int,
    lt: SpecTokenLoc,
    name: Seq<char>,
    anchor_ok: bool,
)
    requires
        0 <= i <= s.len(),
        spec_token_loc_wf(s, lt),
        lt.starts_at <= i,
    ensures
        match spec_parse_tag_body(s, i, lt, name, anchor_ok) {
            Ok((v, j)) => i < j <= s.len() && v.loc.start == lt.starts_at && v.loc.start
                <= v.loc.end <= s.len(),
            Err(er) => spec_err_loc_wf(s, er),
        },
    decreases s.len() - i, 0int,
{
    lemma_lex_step_advances(s, i);
    match lex_step(s, i) {
        LexStep::Tok(t, j) => {
            match t.con {
                SpecTokenContent::Anchor(_) => {
                    if anchor_ok {
                        lemma_tag_body_advances(s, j, lt, name, false);
                    }
                },
                SpecTokenContent::Identifier(_) => {
                    lemma_lex_step_advances(s, j);
                    match lex_step(s, j) {
                        LexStep::Tok(t2, j2) => {
                            if t2.con is AssignmentOp {
                                lemma_lex_step_advances(s, j2);
                                match lex_step(s, j2) {
                                    LexStep::Tok(t3, j3) => {
                                        match t3.con {
                                            SpecTokenContent::Literal(
                                                SpecTokenLiteral::StringLiteral(_),
                                            ) => {
                                                lemma_tag_body_advances(s, j3, lt, name, false);
                                            },
                                            _ => {},
                                        }
                                    },
                                    _ => {},
                                }
                            }
                        },
                        _ => {},
                    }
                },
                SpecTokenContent::TagAngleBracketRight => {
                    lemma_children_advances(s, j, lt, name);
                },
                _ => {},
            }
        },
        _ => {},
    }
}

pub proof fn lemma_children_advances(s: Seq<char>, i: int, lt: SpecTokenLoc, name: Seq<char>)
    requires
        0 <= i <= s.len(),
        spec_token_loc_wf(s, lt),
        lt.starts_at <= i,
    ensures
        match spec_parse_children(s, i, lt, name) {
            Ok((v, j)) => i < j <= s.len() && v.loc.start == lt.starts_at && v.loc.start
                <= v.loc.end <= s.len(),
            Err(er) => spec_err_loc_wf(s, er),
        },
    decreases s.len() - i, 2int,
{
    lemma_lex_step_advances(s, i);
    match lex_step(s, i) {
        LexStep::Tok(t, j) => {
            match t.con {
                SpecTokenContent::TagAngleBracketLeft => {
                    lemma_element_advances(s, j, t.loc);
                    match spec_parse_element(s, j, t.loc) {
                        Ok((_, j2)) => {
                            assert(next_pos(s, i, j2) == j2);
                            lemma_children_advances(s, j2, lt, name);
                        },
                        _ => {},
                    }
                },
                SpecTokenContent::TagAngleClosingLeft => {
                    lemma_lex_step_advances(s, j);
                    match lex_step(s, j) {
                        LexStep::Tok(t2, j2) => {
                            lemma_lex_step_advances(s, j2);
                        },
                        _ => {},
                    }
                },
                _ => {},
            }
        },
        _ => {},
    }
}

// ---------------------------------------------------------------------------
// Module-level statements.
// ---------------------------------------------------------------------------

/// The module-level statement loop: dispatches on the next token until
/// the text ends. `let` adds a binding node, a view element adds a view
/// node, `import` and bare identifiers are consumed without a node, and
/// any other token is a syntax error at its own position. Returns the
/// declaration nodes and the end position.
pub open spec fn spec_parse_stmts(s: Seq<char>, i: int, acc: Seq<SpecNodeScoped>) -> Result<
    (Seq<SpecNodeScoped>, int),
    SpecParseError,
>
    decreases s.len() - i,
    when 0 <= i <= s.len()
{
    match lex_step(s, i) {
        LexStep::End => Ok((acc, s.len() as int)),
        LexStep::Fail(e, p) => Err(spec_tok_err(e, p)),
        LexStep::Tok(t, j) => {
            proof {
                lemma_lex_step_advances(s, i);
            }
            match t.con {
                SpecTokenContent::Let => match spec_parse_let(s, j, t.loc) {
                    Ok((c, j2)) => {
                        proof {
                            lemma_let_advances(s, j, t.loc);
                        }
                        spec_parse_stmts(s, j2, acc.push(SpecNodeScoped::Const(c)))
                    },
                    Err(er) => Err(er),
                },
                SpecTokenContent::Import => match spec_parse_import(s, j, t.loc) {
                    Ok(j2) => {
                        proof {
                            lemma_lex_step_advances(s, j);
                        }
                        spec_parse_stmts(s, j2, acc)
                    },
                    Err(er) => Err(er),
                },
                SpecTokenContent::Identifier(_) => spec_parse_stmts(s, j, acc),
                SpecTokenContent::TagAngleBracketLeft => match spec_parse_element(s, j, t.loc) {
                    Ok((v, j2)) => {
                        proof {
                            lemma_element_advances(s, j, t.loc);
                        }
                        spec_parse_stmts(s, j2, acc.push(SpecNodeScoped::View(v)))
                    },
                    Err(er) => Err(er),
                },
                _ => Err(spec_syn_err(t.loc)),
            }
        },
    }
}

/// Location sanity of one declaration node: its range runs forward
/// within the source, and the name of a binding lies within the
/// binding's own range.
pub open spec fn spec_scoped_wf(s: Seq<char>, n: SpecNodeScoped) -> bool {
    match n {
        SpecNodeScoped::Const(c) => 0 <= c.loc.start <= c.loc.end <= s.len() && c.loc.start
            <= c.name.loc.start <= c.name.loc.end <= c.loc.end,
        SpecNodeScoped::View(v) => 0 <= v.loc.start <= v.loc.end <= s.len(),
    }
}

pub proof fn lemma_stmts_wf(s: Seq<char>, i: int, acc: Seq<SpecNodeScoped>)
    requires
        0 <= i <= s.len(),
        forall|k: int| 0 <= k < acc.len() ==> spec_scoped_wf(s, #[trigger] acc[k]),
    ensures
        match spec_parse_stmts(s, i, acc) {
            Ok((ns, end)) => end == s.len() && forall|k: int|
                0 <= k < ns.len() ==> spec_scoped_wf(s, #[trigger] ns[k]),
            Err(er) => spec_err_loc_wf(s, er),
        },
    decreases s.len() - i,
{
    lemma_lex_step_advances(s, i);
    match lex_step(s, i) {
        LexStep::Tok(t, j) => {
            match t.con {
                SpecTokenContent::Let => {
                    lemma_let_advances(s, j, t.loc);
                    match spec_parse_let(s, j, t.loc) {
                        Ok((c, j2)) => {
                            let acc2 = acc.push(SpecNodeScoped::Const(c));
                            assert forall|k: int| 0 <= k < acc2.len() implies spec_scoped_wf(
                                s,
                                acc2[k],
                            ) by {
                                if k < acc.len() {
                                    assert(acc2[k] == acc[k]);
                                } else {
                                    assert(acc2[k] == SpecNodeScoped::Const(c));
                                }
                            }
                            lemma_stmts_wf(s, j2, acc2);
                        },
                        _ => {},
                    }
                },
                SpecTokenContent::Import => {
                    lemma_import_advances(s, j, t.loc);
                    match spec_parse_import(s, j, t.loc) {
                        Ok(j2) => {
                            lemma_stmts_wf(s, j2, acc);
                        },
                        _ => {},
                    }
                },
                SpecTokenContent::Identifier(_) => {
                    lemma_stmts_wf(s, j, acc);
                },
                SpecTokenContent::TagAngleBracketLeft => {
                    lemma_element_advances(s, j, t.loc);
                    match spec_parse_element(s, j, t.loc) {
                        Ok((v, j2)) => {
                            let acc2 = acc.push(SpecNodeScoped::View(v));
                            assert forall|k: int| 0 <= k < acc2.len() implies spec_scoped_wf(
                                s,
                                acc2[k],
                            ) by {
                                if k < acc.len() {
                                    assert(acc2[k] == acc[k]);
                                } else {
                                    assert(acc2[k] == SpecNodeScoped::View(v));
                                }
                            }
                            lemma_stmts_wf(s, j2, acc2);
                        },
                        _ => {},
                    }
                },
                _ => {},
            }
        },
        _ => {},
    }
}

// ---------------------------------------------------------------------------
// Whole modules and files.
// ---------------------------------------------------------------------------

/// A whole source unit as one module named `<file>`, spanning the whole
/// text.
pub open spec fn spec_parse_module(s: Seq<char>) -> Result<SpecNodeModule, SpecParseError> {
    match spec_parse_stmts(s, 0, Seq::empty()) {
        Ok((ns, end)) => Ok(
            SpecNodeModule {
                loc: SpecLoc { start: 0, end: s.len() as int },
                name: "<file>"@,
                nodes: ns,
            },
        ),
        Err(er) => Err(er),
    }
}

/// A whole parse: the file node holding the single module, under the
/// given file name.
pub open spec fn spec_parse_file(name: Seq<char>, s: Seq<char>) -> Result<
    SpecNodeFile,
    SpecParseError,
> {
    match spec_parse_module(s) {
        Ok(m) => Ok(
            SpecNodeFile {
                loc: SpecLoc { start: 0, end: s.len() as int },
                name,
                modules: seq![m],
            },
        ),
        Err(er) => Err(er),
    }
}

/// Parsing is a pure function of the file name and the source text:
/// two parses of the same input yield structurally equal results, with
/// no hidden state in between.
pub proof fn lemma_parse_deterministic(
    name: Seq<char>,
    s: Seq<char>,
    r1: Result<SpecNodeFile, SpecParseError>,
    r2: Result<SpecNodeFile, SpecParseError>,
)
    requires
        r1 == spec_parse_file(name, s),
        r2 == spec_parse_file(name, s),
    ensures
        r1 == r2,
{
}

// ---------------------------------------------------------------------------
// Error constructors shared by the parser components.
// ---------------------------------------------------------------------------

/// The syntax error for a text that ended too early.
pub(crate) fn eof_err(t: &crate::tokenizer::Tokenizer<'_>) -> (r: ParseError)
    requires
        t.wf(),
    ensures
        r@ == spec_eof_err(t.src()),
{
    let n = t.src_len();
    ParseError::SyntaxError { loc: Loc { start: n as u32, end: n as u32 } }
}

/// Wraps a lexical fault, whose lexeme starts where the cursor parked.
pub(crate) fn tok_err_at(t: &crate::tokenizer::Tokenizer<'_>, e: TokenizerErr) -> (r: ParseError)
    requires
        t.wf(),
    ensures
        r@ == spec_tok_err(e, t.cursor()),
{
    proof {
        t.lemma_wf();
    }
    let p = t.current_idx();
    ParseError::TokenizeError { loc: Loc { start: p as u32, end: p as u32 }, error: e }
}

/// The syntax error at a token's own range.
pub(crate) fn syn_err(l: crate::ast::TokenLoc) -> (r: ParseError)
    requires
        l@.starts_at + l@.len <= u32::MAX,
    ensures
        r@ == spec_syn_err(l@),
{
    ParseError::SyntaxError { loc: Loc::from_token(l) }
}

/// Every range in a parsed file runs forward and lies within the
/// source, and a child node's range is contained in its parent's: the
/// file spans the whole text, its single module does too, every
/// declaration lies within the module, and a binding's name lies
/// within the binding. A failed parse points within the source too.
pub proof fn lemma_parse_locs_contained(name: Seq<char>, s: Seq<char>)
    ensures
        match spec_parse_file(name, s) {
            Ok(f) => {
                &&& f.loc == (SpecLoc { start: 0, end: s.len() as int })
                &&& f.modules.len() == 1
                &&& f.modules[0].loc == f.loc
                &&& forall|k: int|
                    0 <= k < f.modules[0].nodes.len() ==> spec_scoped_wf(
                        s,
                        #[trigger] f.modules[0].nodes[k],
                    )
            },
            Err(e) => spec_err_loc_wf(s, e),
        },
{
    lemma_stmts_wf(s, 0, Seq::empty());
}

/// An `import` whose next token is neither a string literal nor an
/// identifier (or that ends the text) fails the whole statement list
/// with a syntax error at the `import` token's own position.
pub proof fn lemma_import_rejected(s: Seq<char>, i: int, acc: Seq<SpecNodeScoped>)
    requires
        0 <= i <= s.len(),
        lex_step(s, i) matches LexStep::Tok(t, j) && t.con is Import && match lex_step(s, j) {
            LexStep::End => true,
            LexStep::Tok(t2, _) => !(t2.con is Identifier) && !(t2.con matches
            SpecTokenContent::Literal(SpecTokenLiteral::StringLiteral(_))),
            LexStep::Fail(..) => false,
        },
    ensures
        lex_step(s, i) matches LexStep::Tok(t, j) ==> spec_parse_stmts(s, i, acc) == Err::<
            (Seq<SpecNodeScoped>, int),
            SpecParseError,
        >(spec_syn_err(t.loc)),
{
    lemma_lex_step_advances(s, i);
}

// ---------------------------------------------------------------------------
// The entry point.
// ---------------------------------------------------------------------------

/// The title under which an error is reported.
pub open spec fn spec_error_title(e: SpecParseError) -> Seq<char> {
    match e {
        SpecParseError::TokenizeError { loc, error } => match error {
            TokenizerErr::UnexpectedToken => "Unexpected token"@,
            TokenizerErr::UnterminatedStringLiteral => "Unterminated string"@,
            _ => "Tokenizer error"@,
        },
        SpecParseError::SyntaxError { loc } => "Syntax error"@,
    }
}

/// The diagnostic raised for a parse error: an error-level message at
/// the start of the offending range.
pub open spec fn spec_error_message(e: SpecParseError) -> SpecMessage {
    SpecMessage {
        level: MessageLevel::Error,
        pos: spec_err_loc(e).start,
        title: spec_error_title(e),
        hints: Seq::empty(),
    }
}

fn title_of(e: &ParseError) -> (t: String)
    ensures
        t@ == spec_error_title(e@),
{
    match e {
        ParseError::TokenizeError { error, .. } => match error {
            TokenizerErr::UnexpectedToken => "Unexpected token".to_owned(),
            TokenizerErr::UnterminatedStringLiteral => "Unterminated string".to_owned(),
            _ => "Tokenizer error".to_owned(),
        },
        ParseError::SyntaxError { .. } => "Syntax error".to_owned(),
    }
}

/// The parser of one named source text: drives the module parser to
/// completion, wraps the module into a [`NodeFile`], and renders a
/// diagnostic for the first fault. Errors are both rendered (see
/// [`Parser::reports`]) and returned as typed values; the rendered side
/// channel never influences the result.
pub struct Parser<'a> {
    filename: &'a String,
    logger: Logger<'a>,
    inner: ModuleParser<'a>,
    reports: Vec<String>,
}

impl<'a> Parser<'a> {
    /// The source text being parsed.
    pub closed spec fn src(&self) -> Seq<char> {
        self.inner.src()
    }

    /// The file name under which diagnostics are reported.
    pub closed spec fn file_name(&self) -> Seq<char> {
        self.filename@
    }

    /// The diagnostics rendered so far.
    pub closed spec fn reports_view(&self) -> Seq<Seq<char>> {
        Seq::new(self.reports@.len(), |i: int| self.reports@[i]@)
    }

    /// The components agree on the source and the path.
    pub closed spec fn wf(&self) -> bool {
        &&& self.inner.wf()
        &&& self.logger.wf()
        &&& self.logger.src() == self.inner.src()
        &&& self.logger.path_view() == self.filename@
    }

    /// No tokens have been consumed yet.
    pub closed spec fn fresh(&self) -> bool {
        self.inner.outcome() == spec_parse_stmts(self.src(), 0, Seq::<SpecNodeScoped>::empty())
    }

    pub fn new(filename: &'a String, input: &'a String) -> (p: Self)
        requires
            input@.len() < u32::MAX as int,
        ensures
            p.wf(),
            p.fresh(),
            p.src() == input@,
            p.file_name() == filename@,
            p.reports_view() == Seq::<Seq<char>>::empty(),
    {
        let tokenizer = Tokenizer::new(input.as_str());
        let logger = Logger::new(filename, input);
        let inner = ModuleParser::new(tokenizer);
        let p = Parser { filename, logger, inner, reports: Vec::new() };
        proof {
            assert(p.reports_view() =~= Seq::<Seq<char>>::empty());
        }
        p
    }

    /// The rendered diagnostics, in the order they were raised.
    pub fn reports(&self) -> (r: &Vec<String>)
        ensures
            Seq::new(r@.len(), |i: int| r@[i]@) == self.reports_view(),
    {
        proof {
            assert(Seq::new(self.reports@.len(), |i: int| self.reports@[i]@) =~= self.reports_view());
        }
        &self.reports
    }

    /// Parses the whole source: on success the file node holding the
    /// single module, on failure the first fault, which is also
    /// rendered as a diagnostic.
    pub fn parse_all(&mut self) -> (r: Result<NodeFile, ParseError>)
        requires
            old(self).wf(),
            old(self).fresh(),
        ensures
            final(self).wf(),
            final(self).src() == old(self).src(),
            final(self).file_name() == old(self).file_name(),
            match spec_parse_file(old(self).file_name(), old(self).src()) {
                Ok(f) => r matches Ok(nf) && nf@ == f && final(self).reports_view() == old(
                    self,
                ).reports_view(),
                Err(e) => r matches Err(pe) && pe@ == e && final(self).reports_view() == old(
                    self,
                ).reports_view().push(
                    spec_render(old(self).file_name(), old(self).src(), spec_error_message(e)),
                ),
            },
    {
        let ghost s = self.src();
        proof {
            self.inner.lemma_wf();
            lemma_stmts_wf(s, 0, Seq::<SpecNodeScoped>::empty());
        }
        match self.inner.parse_all() {
            Ok(m) => {
                let end = m.loc.end;
                let mut modules: Vec<NodeModule> = Vec::new();
                modules.push(m);
                let file = NodeFile {
                    loc: Loc { start: 0, end },
                    name: self.filename.clone(),
                    modules,
                };
                proof {
                    let f = spec_parse_file(self.file_name(), s)->Ok_0;
                    assert(file@.modules =~= f.modules);
                }
                Ok(file)
            },
            Err(e) => {
                let loc = e.loc();
                let msg = Message {
                    level: MessageLevel::Error,
                    pos: loc.start as usize,
                    title: title_of(&e),
                    hints: Vec::new(),
                };
                proof {
                    assert(msg@.hints =~= Seq::<crate::log::SpecHint>::empty());
                }
                let rendered = self.logger.render(&msg);
                let ghost before = self.reports@;
                self.reports.push(rendered);
                proof {
                    assert(Seq::new(self.reports@.len(), |i: int| self.reports@[i]@) =~= Seq::new(
                        before.len(),
                        |i: int| before[i]@,
                    ).push(rendered@));
                }
                Err(e)
            },
        }
    }
}

/// Parses a named source text in one call: the sole entry point for
/// callers that do not need the rendered diagnostics.
pub fn parse(file_name: &String, source: &String) -> (r: Result<NodeFile, ParseError>)
    requires
        source@.len() < u32::MAX as int,
    ensures
        match spec_parse_file(file_name@, source@) {
            Ok(f) => r matches Ok(nf) && nf@ == f,
            Err(e) => r matches Err(pe) && pe@ == e,
        },
{
    let mut p = Parser::new(file_name, source);
    p.parse_all()
}

} // verus!
