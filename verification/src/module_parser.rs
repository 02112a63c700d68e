//! The module-level parser: a pull-driven state machine that consumes
//! lexer output and assembles the declaration list of one module. It
//! owns the token cursor and lends it to the view sub-parser for the
//! span of one element at a time.

use crate::ast::{TokenContent, TokenLiteral, TokenLoc};
use crate::item::{
    Loc, NodeConst, NodeIdentifier, NodeModule, NodeScoped, NodeStructured, NodeValue, SpecLoc,
    SpecNodeModule, SpecNodeScoped,
};
use crate::parser::{
    ParseError, SpecParseError, eof_err, lemma_element_advances, lemma_import_advances,
    lemma_let_advances, spec_parse_import, spec_parse_let, spec_parse_params,
    spec_parse_structured, spec_parse_stmts, spec_parse_value, spec_token_loc_wf, syn_err,
    tok_err_at,
};
use crate::tokenizer::{
    LexStep, TokenResult, Tokenizer, lemma_lex_step_advances, lex_step,
};
use crate::view_parser::ViewParser;
use vstd::prelude::*;

verus! {

// ---------------------------------------------------------------------------
// Grammar steps over the shared cursor.
// ---------------------------------------------------------------------------

/// Consumes tokens after an opening `{` until the matching `}` and
/// returns the end offset of the closing brace. Reaching the end of
/// the text first is a syntax error at the opening brace.
pub(crate) fn parse_structured(t: &mut Tokenizer<'_>, open_loc: Loc) -> (r: Result<
    u32,
    ParseError,
>)
    requires
        old(t).wf(),
        0 <= open_loc@.start <= open_loc@.end <= old(t).src().len(),
    ensures
        final(t).wf(),
        final(t).src() == old(t).src(),
        old(t).cursor() <= final(t).cursor(),
        match spec_parse_structured(old(t).src(), old(t).cursor(), 1, open_loc@) {
            Ok((e, j)) => r matches Ok(en) && en as int == e && final(t).cursor() == j,
            Err(er) => r matches Err(pe) && pe@ == er,
        },
{
    proof {
        t.lemma_wf();
    }
    let ghost s = t.src();
    let ghost i0 = t.cursor();
    let mut depth: usize = 1;
    loop
        invariant
            t.wf(),
            s == old(t).src(),
            i0 == old(t).cursor(),
            t.src() == s,
            s.len() < u32::MAX as int,
            0 <= open_loc@.start <= open_loc@.end <= s.len(),
            i0 <= t.cursor() <= s.len(),
            1 <= depth,
            depth <= t.cursor() + 1,
            spec_parse_structured(s, i0, 1, open_loc@) == spec_parse_structured(
                s,
                t.cursor(),
                depth as int,
                open_loc@,
            ),
        decreases s.len() - t.cursor(),
    {
        let ghost pre = t.cursor();
        match t.next() {
            None => {
                return Err(ParseError::SyntaxError { loc: open_loc });
            },
            Some(Err(e)) => {
                return Err(tok_err_at(t, e));
            },
            Some(Ok(tok)) => {
                proof {
                    lemma_lex_step_advances(s, pre);
                }
                match tok.con {
                    TokenContent::BraceRight => {
                        if depth == 1 {
                            let end = tok.loc.starts_at + tok.loc.len;
                            return Ok(end);
                        } else {
                            depth -= 1;
                        }
                    },
                    TokenContent::BraceLeft => {
                        depth += 1;
                    },
                    _ => {},
                }
            },
        }
    }
}

/// One binding value: `{` opens a structured value, a bare identifier
/// is an identifier value, anything else is a syntax error at that
/// token. Also returns the value's end offset.
pub(crate) fn parse_value(t: &mut Tokenizer<'_>) -> (r: Result<(NodeValue, u32), ParseError>)
    requires
        old(t).wf(),
    ensures
        final(t).wf(),
        final(t).src() == old(t).src(),
        old(t).cursor() <= final(t).cursor(),
        match spec_parse_value(old(t).src(), old(t).cursor()) {
            Ok((v, e, j)) => r matches Ok(p) && p.0@ == v && p.1 as int == e && final(t).cursor()
                == j,
            Err(er) => r matches Err(pe) && pe@ == er,
        },
{
    proof {
        t.lemma_wf();
    }
    let ghost s = t.src();
    let ghost i0 = t.cursor();
    match t.next() {
        None => Err(eof_err(t)),
        Some(Err(e)) => Err(tok_err_at(t, e)),
        Some(Ok(tok)) => {
            proof {
                lemma_lex_step_advances(s, i0);
            }
            match tok.con {
                TokenContent::BraceLeft => {
                    let oloc = Loc::from_token(tok.loc);
                    match parse_structured(t, oloc) {
                        Ok(end) => Ok(
                            (
                                NodeValue::Structured(
                                    NodeStructured {
                                        loc: Loc { start: tok.loc.starts_at, end },
                                    },
                                ),
                                end,
                            ),
                        ),
                        Err(e) => Err(e),
                    }
                },
                TokenContent::Identifier(w) => {
                    let end = tok.loc.starts_at + tok.loc.len;
                    Ok(
                        (
                            NodeValue::Identifier(
                                NodeIdentifier { value: w, loc: Loc::from_token(tok.loc) },
                            ),
                            end,
                        ),
                    )
                },
                _ => Err(syn_err(tok.loc)),
            }
        },
    }
}

/// A parenthesised parameter list after its opening `(`: zero or more
/// identifiers, then `)`.
pub(crate) fn parse_params(t: &mut Tokenizer<'_>) -> (r: Result<(), ParseError>)
    requires
        old(t).wf(),
    ensures
        final(t).wf(),
        final(t).src() == old(t).src(),
        old(t).cursor() <= final(t).cursor(),
        match spec_parse_params(old(t).src(), old(t).cursor()) {
            Ok(j) => r is Ok && final(t).cursor() == j,
            Err(er) => r matches Err(pe) && pe@ == er,
        },
{
    proof {
        t.lemma_wf();
    }
    let ghost s = t.src();
    let ghost i0 = t.cursor();
    loop
        invariant
            t.wf(),
            s == old(t).src(),
            i0 == old(t).cursor(),
            t.src() == s,
            s.len() < u32::MAX as int,
            i0 <= t.cursor() <= s.len(),
            spec_parse_params(s, i0) == spec_parse_params(s, t.cursor()),
        decreases s.len() - t.cursor(),
    {
        let ghost pre = t.cursor();
        match t.next() {
            None => {
                return Err(eof_err(t));
            },
            Some(Err(e)) => {
                return Err(tok_err_at(t, e));
            },
            Some(Ok(tok)) => {
                proof {
                    lemma_lex_step_advances(s, pre);
                }
                match tok.con {
                    TokenContent::ParenthesisRight => {
                        return Ok(());
                    },
                    TokenContent::Identifier(_) => {},
                    _ => {
                        return Err(syn_err(tok.loc));
                    },
                }
            },
        }
    }
}

/// One `let` binding after its keyword: the binding name, an optional
/// parameter list, `=`, and a value. The node spans from the `let`
/// keyword to the end of the value.
pub(crate) fn parse_let_stmt(t: &mut Tokenizer<'_>, let_tok: TokenLoc) -> (r: Result<
    NodeConst,
    ParseError,
>)
    requires
        old(t).wf(),
        spec_token_loc_wf(old(t).src(), let_tok@),
    ensures
        final(t).wf(),
        final(t).src() == old(t).src(),
        old(t).cursor() <= final(t).cursor(),
        match spec_parse_let(old(t).src(), old(t).cursor(), let_tok@) {
            Ok((c, j)) => r matches Ok(nc) && nc@ == c && final(t).cursor() == j,
            Err(er) => r matches Err(pe) && pe@ == er,
        },
{
    proof {
        t.lemma_wf();
    }
    let ghost s = t.src();
    let ghost i0 = t.cursor();
    let name_tok = match t.next() {
        None => {
            return Err(eof_err(t));
        },
        Some(Err(e)) => {
            return Err(tok_err_at(t, e));
        },
        Some(Ok(tok)) => tok,
    };
    proof {
        lemma_lex_step_advances(s, i0);
    }
    let name_val = match name_tok.con {
        TokenContent::Identifier(w) => w,
        _ => {
            return Err(syn_err(name_tok.loc));
        },
    };
    let name = NodeIdentifier { value: name_val, loc: Loc::from_token(name_tok.loc) };
    let ghost p2 = t.cursor();
    let tok2 = match t.next() {
        None => {
            return Err(eof_err(t));
        },
        Some(Err(e)) => {
            return Err(tok_err_at(t, e));
        },
        Some(Ok(tk)) => tk,
    };
    proof {
        lemma_lex_step_advances(s, p2);
    }
    match tok2.con {
        TokenContent::ParenthesisLeft => {
            match parse_params(t) {
                Ok(()) => {},
                Err(e) => {
                    return Err(e);
                },
            }
            proof {
                t.lemma_wf();
            }
            let ghost p4 = t.cursor();
            let tok4 = match t.next() {
                None => {
                    return Err(eof_err(t));
                },
                Some(Err(e)) => {
                    return Err(tok_err_at(t, e));
                },
                Some(Ok(tk)) => tk,
            };
            proof {
                lemma_lex_step_advances(s, p4);
            }
            match tok4.con {
                TokenContent::AssignmentOp => {},
                _ => {
                    return Err(syn_err(tok4.loc));
                },
            }
        },
        TokenContent::AssignmentOp => {},
        _ => {
            return Err(syn_err(tok2.loc));
        },
    }
    match parse_value(t) {
        Ok((_, vend)) => Ok(NodeConst { name, loc: Loc { start: let_tok.starts_at, end: vend } }),
        Err(e) => Err(e),
    }
}

/// One `import` statement after its keyword: a string literal or an
/// identifier. Anything else, including the end of the text, is a
/// syntax error at the `import` token itself.
pub(crate) fn parse_import_stmt(t: &mut Tokenizer<'_>, import_tok: TokenLoc) -> (r: Result<
    (),
    ParseError,
>)
    requires
        old(t).wf(),
        spec_token_loc_wf(old(t).src(), import_tok@),
    ensures
        final(t).wf(),
        final(t).src() == old(t).src(),
        old(t).cursor() <= final(t).cursor(),
        match spec_parse_import(old(t).src(), old(t).cursor(), import_tok@) {
            Ok(j) => r is Ok && final(t).cursor() == j,
            Err(er) => r matches Err(pe) && pe@ == er,
        },
{
    proof {
        t.lemma_wf();
    }
    let ghost s = t.src();
    let ghost i0 = t.cursor();
    match t.next() {
        None => Err(syn_err(import_tok)),
        Some(Err(e)) => Err(tok_err_at(t, e)),
        Some(Ok(tok)) => {
            proof {
                lemma_lex_step_advances(s, i0);
            }
            match tok.con {
                TokenContent::Literal(TokenLiteral::StringLiteral(_)) => Ok(()),
                TokenContent::Identifier(_) => Ok(()),
                _ => Err(syn_err(import_tok)),
            }
        },
    }
}

// ---------------------------------------------------------------------------
// The state machine.
// ---------------------------------------------------------------------------

/// The four states of the module parser's step machine.
#[derive(Debug, Default, Eq, PartialEq)]
pub enum ModuleParserState {
    PendingToken(TokenResult),
    PendingParseError(ParseError),
    EOF,
    #[default]
    Ready,
}

impl ModuleParserState {
    /// Whether the machine is ready to pull the next token.
    pub fn is_ready(&self) -> (b: bool)
        ensures
            b == (self is Ready),
    {
        match self {
            ModuleParserState::Ready => true,
            _ => false,
        }
    }

    /// The token waiting to be dispatched, if the machine holds one.
    pub fn has_pending_token(&self) -> (r: Option<&TokenResult>)
        ensures
            match self {
                ModuleParserState::PendingToken(tok) => r matches Some(p) && *p == tok,
                _ => r is None,
            },
    {
        match self {
            ModuleParserState::PendingToken(token) => Some(token),
            _ => None,
        }
    }
}

/// What one [`ModuleParser::advance`] step reports.
pub enum ModuleParserResult {
    Continue,
    ParseError(ParseError),
    Done(NodeModule),
}

/// The models of a node list, element by element.
pub open spec fn scoped_seq_view(v: Seq<NodeScoped>) -> Seq<SpecNodeScoped> {
    Seq::new(v.len(), |i: int| v[i]@)
}

proof fn lemma_scoped_seq_view_push(v1: Seq<NodeScoped>, v2: Seq<NodeScoped>, n: NodeScoped)
    requires
        v2 == v1.push(n),
    ensures
        scoped_seq_view(v2) == scoped_seq_view(v1).push(n@),
{
    assert(scoped_seq_view(v2) =~= scoped_seq_view(v1).push(n@));
}

/// The module parser: owns the token cursor and assembles the module's
/// declaration list, one [`ModuleParser::advance`] step at a time.
pub struct ModuleParser<'a> {
    tokenizer: Tokenizer<'a>,
    state: ModuleParserState,
    nodes: Vec<NodeScoped>,
    pre: Ghost<int>,
}

impl<'a> ModuleParser<'a> {
    /// The source text under the cursor.
    pub closed spec fn src(&self) -> Seq<char> {
        self.tokenizer.src()
    }

    /// The position of the shared cursor.
    pub closed spec fn cursor(&self) -> int {
        self.tokenizer.cursor()
    }

    closed spec fn nodes_view(&self) -> Seq<SpecNodeScoped> {
        scoped_seq_view(self.nodes@)
    }

    /// Internal consistency: a pending token was lexed exactly at the
    /// remembered position, and a finished machine stands at the end of
    /// the text.
    pub closed spec fn wf(&self) -> bool {
        &&& self.tokenizer.wf()
        &&& match self.state {
            ModuleParserState::Ready => true,
            ModuleParserState::PendingToken(res) => {
                &&& 0 <= self.pre@ <= self.src().len()
                &&& match res {
                    Ok(tok) => lex_step(self.src(), self.pre@) == LexStep::Tok(
                        tok@,
                        self.cursor(),
                    ),
                    Err(e) => lex_step(self.src(), self.pre@) == LexStep::Fail(e, self.cursor()),
                }
            },
            ModuleParserState::PendingParseError(_) => true,
            ModuleParserState::EOF => self.cursor() == self.src().len(),
        }
    }

    /// What this parser will deliver: the declaration list and end
    /// position of the module, or the first fault.
    pub closed spec fn outcome(&self) -> Result<(Seq<SpecNodeScoped>, int), SpecParseError> {
        match self.state {
            ModuleParserState::Ready => spec_parse_stmts(self.src(), self.cursor(), self.nodes_view()),
            ModuleParserState::PendingToken(_) => spec_parse_stmts(
                self.src(),
                self.pre@,
                self.nodes_view(),
            ),
            ModuleParserState::PendingParseError(e) => Err(e@),
            ModuleParserState::EOF => Ok((self.nodes_view(), self.src().len() as int)),
        }
    }

    spec fn rank(&self) -> int {
        match self.state {
            ModuleParserState::Ready => 2,
            ModuleParserState::PendingToken(_) => 1,
            _ => 0,
        }
    }

    spec fn prog(&self) -> int {
        if self.state is PendingToken {
            self.pre@
        } else {
            self.cursor()
        }
    }

    /// The source length fits the token offset type.
    pub proof fn lemma_wf(&self)
        requires
            self.wf(),
        ensures
            self.src().len() < u32::MAX as int,
    {
        self.tokenizer.lemma_wf();
    }

    pub fn new(tokenizer: Tokenizer<'a>) -> (p: Self)
        requires
            tokenizer.wf(),
        ensures
            p.wf(),
            p.src() == tokenizer.src(),
            p.outcome() == spec_parse_stmts(tokenizer.src(), tokenizer.cursor(), Seq::<
                SpecNodeScoped,
            >::empty()),
    {
        let p = ModuleParser {
            tokenizer,
            state: ModuleParserState::Ready,
            nodes: Vec::new(),
            pre: Ghost(0int),
        };
        proof {
            assert(p.nodes_view() =~= Seq::<SpecNodeScoped>::empty());
        }
        p
    }

    /// A parser over a fresh cursor at the start of the given text.
    pub fn from_str(input: &'a str) -> (p: Self)
        requires
            input@.len() < u32::MAX as int,
        ensures
            p.wf(),
            p.src() == input@,
            p.outcome() == spec_parse_stmts(input@, 0, Seq::<SpecNodeScoped>::empty()),
    {
        Self::new(Tokenizer::new(input))
    }

    /// One step: pull a token when ready, perform one grammar step on
    /// the pending token, deliver the stored fault or the finished
    /// module otherwise.
    #[verifier::rlimit(100)]
    fn advance(&mut self) -> (r: ModuleParserResult)
        requires
            old(self).wf(),
        ensures
            final(self).wf(),
            final(self).src() == old(self).src(),
            !(r is Done) ==> final(self).outcome() == old(self).outcome(),
            match r {
                ModuleParserResult::Continue => {
                    let p0 = old(self).prog();
                    let p1 = final(self).prog();
                    p0 <= p1 <= final(self).src().len() && (p1 == p0 ==> final(self).rank()
                        < old(self).rank())
                },
                ModuleParserResult::ParseError(e) => old(self).outcome() == Err::<
                    (Seq<SpecNodeScoped>, int),
                    SpecParseError,
                >(e@),
                ModuleParserResult::Done(m) => match old(self).outcome() {
                    Ok((ns, end)) => m@ == (SpecNodeModule {
                        loc: SpecLoc { start: 0, end: old(self).src().len() as int },
                        name: "<file>"@,
                        nodes: ns,
                    }),
                    Err(_) => false,
                },
            },
    {
        proof {
            self.tokenizer.lemma_wf();
        }
        let ghost s = self.tokenizer.src();
        let mut st = ModuleParserState::Ready;
        core::mem::swap(&mut st, &mut self.state);
        match st {
            ModuleParserState::Ready => {
                let ghost c = self.tokenizer.cursor();
                self.pre = Ghost(c);
                match self.tokenizer.next() {
                    Some(res) => {
                        self.state = ModuleParserState::PendingToken(res);
                        ModuleParserResult::Continue
                    },
                    None => {
                        self.state = ModuleParserState::EOF;
                        ModuleParserResult::Continue
                    },
                }
            },
            ModuleParserState::PendingToken(res) => match res {
                Ok(tok) => {
                    proof {
                        lemma_lex_step_advances(s, self.pre@);
                    }
                    let ghost nv = self.nodes_view();
                    let ghost cur = self.tokenizer.cursor();
                    match tok.con {
                        TokenContent::Let => {
                            let stepped = parse_let_stmt(&mut self.tokenizer, tok.loc);
                            proof {
                                self.tokenizer.lemma_wf();
                                lemma_let_advances(s, cur, tok.loc@);
                            }
                            match stepped {
                                Ok(c) => {
                                    let ghost before = self.nodes@;
                                    self.nodes.push(NodeScoped::Const(c));
                                    proof {
                                        lemma_scoped_seq_view_push(
                                            before,
                                            self.nodes@,
                                            NodeScoped::Const(c),
                                        );
                                    }
                                    self.state = ModuleParserState::Ready;
                                    ModuleParserResult::Continue
                                },
                                Err(e) => {
                                    self.state = ModuleParserState::PendingParseError(e);
                                    ModuleParserResult::Continue
                                },
                            }
                        },
                        TokenContent::Import => {
                            let stepped = parse_import_stmt(&mut self.tokenizer, tok.loc);
                            proof {
                                self.tokenizer.lemma_wf();
                                lemma_import_advances(s, cur, tok.loc@);
                            }
                            match stepped {
                                Ok(()) => {
                                    self.state = ModuleParserState::Ready;
                                    ModuleParserResult::Continue
                                },
                                Err(e) => {
                                    self.state = ModuleParserState::PendingParseError(e);
                                    ModuleParserResult::Continue
                                },
                            }
                        },
                        TokenContent::Identifier(_) => {
                            self.state = ModuleParserState::Ready;
                            ModuleParserResult::Continue
                        },
                        TokenContent::TagAngleBracketLeft => {
                            let mut vp = ViewParser::new(tok.loc);
                            proof {
                                vp.lemma_fresh_inv(s, cur);
                                vp.lemma_fresh_outcome(s, cur);
                            }
                            let stepped = vp.parse_all(&mut self.tokenizer);
                            proof {
                                self.tokenizer.lemma_wf();
                                lemma_element_advances(s, cur, tok.loc@);
                            }
                            match stepped {
                                Ok(n) => {
                                    let ghost before = self.nodes@;
                                    self.nodes.push(NodeScoped::View(n));
                                    proof {
                                        lemma_scoped_seq_view_push(
                                            before,
                                            self.nodes@,
                                            NodeScoped::View(n),
                                        );
                                    }
                                    self.state = ModuleParserState::Ready;
                                    ModuleParserResult::Continue
                                },
                                Err(e) => {
                                    self.state = ModuleParserState::PendingParseError(e);
                                    ModuleParserResult::Continue
                                },
                            }
                        },
                        _ => {
                            let e = syn_err(tok.loc);
                            self.state = ModuleParserState::PendingParseError(e);
                            ModuleParserResult::Continue
                        },
                    }
                },
                Err(lex_e) => {
                    proof {
                        lemma_lex_step_advances(s, self.pre@);
                    }
                    let e = tok_err_at(&self.tokenizer, lex_e);
                    self.state = ModuleParserState::PendingParseError(e);
                    ModuleParserResult::Continue
                },
            },
            ModuleParserState::PendingParseError(e) => {
                self.state = ModuleParserState::PendingParseError(e);
                ModuleParserResult::ParseError(e)
            },
            ModuleParserState::EOF => {
                self.state = ModuleParserState::EOF;
                let ghost before = self.nodes@;
                let mut taken: Vec<NodeScoped> = Vec::new();
                core::mem::swap(&mut taken, &mut self.nodes);
                let n = self.tokenizer.src_len();
                let m = NodeModule {
                    loc: Loc { start: 0, end: n as u32 },
                    name: "<file>".to_owned(),
                    nodes: taken,
                };
                proof {
                    assert(m@.nodes =~= scoped_seq_view(before));
                }
                ModuleParserResult::Done(m)
            },
        }
    }

    /// Steps until the module is complete or faulted and returns it.
    pub fn parse_all(&mut self) -> (r: Result<NodeModule, ParseError>)
        requires
            old(self).wf(),
        ensures
            final(self).wf(),
            final(self).src() == old(self).src(),
            match old(self).outcome() {
                Ok((ns, end)) => r matches Ok(m) && m@ == (SpecNodeModule {
                    loc: SpecLoc { start: 0, end: old(self).src().len() as int },
                    name: "<file>"@,
                    nodes: ns,
                }),
                Err(e) => r matches Err(pe) && pe@ == e,
            },
    {
        loop
            invariant
                self.wf(),
                self.src() == old(self).src(),
                self.outcome() == old(self).outcome(),
            decreases self.src().len() - self.prog(), self.rank(),
        {
            proof {
                self.tokenizer.lemma_wf();
            }
            match self.advance() {
                ModuleParserResult::Continue => {},
                ModuleParserResult::ParseError(e) => {
                    return Err(e);
                },
                ModuleParserResult::Done(m) => {
                    return Ok(m);
                },
            }
        }
    }
}

} // verus!
