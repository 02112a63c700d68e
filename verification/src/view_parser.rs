//! The view sub-parser: a nested state machine for one view element
//! (`<Name#anchor attr="v" ...>` ... `</Name>` or self-closing), run
//! over the same token cursor as the module parser. The cursor is
//! borrowed exclusively for the span of one element and handed back
//! when the element is structurally complete or faulted.

use crate::ast::{TokenContent, TokenLiteral, TokenLoc};
use crate::item::{Loc, NodeView, SpecNodeView};
use crate::parser::{
    ParseError, SpecParseError, eof_err, lemma_element_advances, spec_parse_children,
    spec_parse_element, spec_parse_tag_body, spec_token_loc_wf, syn_err, tok_err_at,
};
use crate::tokenizer::{
    LexStep, TokenResult, Tokenizer, lemma_lex_step_advances, lex_step,
};
use vstd::prelude::*;

verus! {

/// What one [`ViewParser::advance`] step reports.
pub enum ViewParserResult {
    Continue,
    ParseError(ParseError),
    Done,
}

/// The four states of the sub-parser's step machine.
#[derive(Debug, Default)]
enum ViewParserState {
    #[default]
    Ready,
    PendingToken(TokenResult),
    PendingParseError(ParseError),
    EOF,
}

/// Everything after the `<` and tag name of an element: at most one
/// leading `#anchor`, then `name = "value"` attributes, closed by `/>`
/// or by `>` children and a matching closing tag.
pub(crate) fn parse_tag_rest(t: &mut Tokenizer<'_>, lt: TokenLoc, name: String) -> (r: Result<
    NodeView,
    ParseError,
>)
    requires
        old(t).wf(),
        spec_token_loc_wf(old(t).src(), lt@),
        lt@.starts_at <= old(t).cursor(),
    ensures
        final(t).wf(),
        final(t).src() == old(t).src(),
        old(t).cursor() <= final(t).cursor(),
        match spec_parse_tag_body(old(t).src(), old(t).cursor(), lt@, name@, true) {
            Ok((v, j)) => r matches Ok(n) && n@ == v && final(t).cursor() == j,
            Err(e) => r matches Err(pe) && pe@ == e,
        },
    decreases old(t).src().len() - old(t).cursor(),
{
    proof {
        t.lemma_wf();
    }
    let ghost s = t.src();
    let ghost i0 = t.cursor();
    let mut anchor_ok = true;
    loop
        invariant
            t.wf(),
            s == old(t).src(),
            i0 == old(t).cursor(),
            t.src() == s,
            s.len() < u32::MAX as int,
            spec_token_loc_wf(s, lt@),
            lt@.starts_at <= i0,
            i0 <= t.cursor() <= s.len(),
            spec_parse_tag_body(s, i0, lt@, name@, true) == spec_parse_tag_body(
                s,
                t.cursor(),
                lt@,
                name@,
                anchor_ok,
            ),
        decreases s.len() - t.cursor(),
    {
        let ghost pre = t.cursor();
        match t.next() {
            None => {
                return Err(eof_err(t));
            },
            Some(Err(e)) => {
                return Err(tok_err_at(t, e));
            },
            Some(Ok(tok)) => {
                proof {
                    lemma_lex_step_advances(s, pre);
                }
                match tok.con {
                    TokenContent::Anchor(_) => {
                        if anchor_ok {
                            anchor_ok = false;
                        } else {
                            return Err(syn_err(tok.loc));
                        }
                    },
                    TokenContent::Identifier(_) => {
                        let ghost pre2 = t.cursor();
                        match t.next() {
                            None => {
                                return Err(eof_err(t));
                            },
                            Some(Err(e)) => {
                                return Err(tok_err_at(t, e));
                            },
                            Some(Ok(t2)) => {
                                proof {
                                    lemma_lex_step_advances(s, pre2);
                                }
                                match t2.con {
                                    TokenContent::AssignmentOp => {
                                        let ghost pre3 = t.cursor();
                                        match t.next() {
                                            None => {
                                                return Err(eof_err(t));
                                            },
                                            Some(Err(e)) => {
                                                return Err(tok_err_at(t, e));
                                            },
                                            Some(Ok(t3)) => {
                                                proof {
                                                    lemma_lex_step_advances(s, pre3);
                                                }
                                                match t3.con {
                                                    TokenContent::Literal(
                                                        TokenLiteral::StringLiteral(_),
                                                    ) => {
                                                        anchor_ok = false;
                                                    },
                                                    _ => {
                                                        return Err(syn_err(t3.loc));
                                                    },
                                                }
                                            },
                                        }
                                    },
                                    _ => {
                                        return Err(syn_err(t2.loc));
                                    },
                                }
                            },
                        }
                    },
                    TokenContent::TagAngleSelfClosingRight => {
                        let end = tok.loc.starts_at + tok.loc.len;
                        return Ok(NodeView { loc: Loc { start: lt.starts_at, end } });
                    },
                    TokenContent::TagAngleBracketRight => {
                        return parse_children(t, lt, &name);
                    },
                    _ => {
                        return Err(syn_err(tok.loc));
                    },
                }
            },
        }
    }
}

/// The children span of an element: nested elements until the matching
/// closing tag, whose name must equal the opening name.
#[verifier::rlimit(50)]
pub(crate) fn parse_children(t: &mut Tokenizer<'_>, lt: TokenLoc, name: &String) -> (r: Result<
    NodeView,
    ParseError,
>)
    requires
        old(t).wf(),
        spec_token_loc_wf(old(t).src(), lt@),
        lt@.starts_at <= old(t).cursor(),
    ensures
        final(t).wf(),
        final(t).src() == old(t).src(),
        old(t).cursor() <= final(t).cursor(),
        match spec_parse_children(old(t).src(), old(t).cursor(), lt@, name@) {
            Ok((v, j)) => r matches Ok(n) && n@ == v && final(t).cursor() == j,
            Err(e) => r matches Err(pe) && pe@ == e,
        },
    decreases old(t).src().len() - old(t).cursor(),
{
    proof {
        t.lemma_wf();
    }
    let ghost s = t.src();
    let ghost c0 = t.cursor();
    loop
        invariant
            t.wf(),
            s == old(t).src(),
            c0 == old(t).cursor(),
            t.src() == s,
            s.len() < u32::MAX as int,
            spec_token_loc_wf(s, lt@),
            lt@.starts_at <= c0,
            c0 <= t.cursor() <= s.len(),
            spec_parse_children(s, c0, lt@, name@) == spec_parse_children(
                s,
                t.cursor(),
                lt@,
                name@,
            ),
        decreases s.len() - t.cursor(),
    {
        let ghost pre = t.cursor();
        match t.next() {
            None => {
                return Err(eof_err(t));
            },
            Some(Err(e)) => {
                return Err(tok_err_at(t, e));
            },
            Some(Ok(tok)) => {
                proof {
                    lemma_lex_step_advances(s, pre);
                }
                match tok.con {
                    TokenContent::TagAngleBracketLeft => {
                        let ghost ci = t.cursor();
                        match parse_element(t, tok.loc) {
                            Ok(_) => {
                                proof {
                                    lemma_element_advances(s, ci, tok.loc@);
                                }
                            },
                            Err(e) => {
                                return Err(e);
                            },
                        }
                    },
                    TokenContent::TagAngleClosingLeft => {
                        let ghost pre2 = t.cursor();
                        match t.next() {
                            None => {
                                return Err(eof_err(t));
                            },
                            Some(Err(e)) => {
                                return Err(tok_err_at(t, e));
                            },
                            Some(Ok(t2)) => {
                                proof {
                                    lemma_lex_step_advances(s, pre2);
                                }
                                match t2.con {
                                    TokenContent::Identifier(n2) => {
                                        if n2 == *name {
                                            let ghost pre3 = t.cursor();
                                            match t.next() {
                                                None => {
                                                    return Err(eof_err(t));
                                                },
                                                Some(Err(e)) => {
                                                    return Err(tok_err_at(t, e));
                                                },
                                                Some(Ok(t3)) => {
                                                    proof {
                                                        lemma_lex_step_advances(s, pre3);
                                                    }
                                                    match t3.con {
                                                        TokenContent::TagAngleBracketRight => {
                                                            let end = t3.loc.starts_at
                                                                + t3.loc.len;
                                                            return Ok(
                                                                NodeView {
                                                                    loc: Loc {
                                                                        start: lt.starts_at,
                                                                        end,
                                                                    },
                                                                },
                                                            );
                                                        },
                                                        _ => {
                                                            return Err(syn_err(t3.loc));
                                                        },
                                                    }
                                                },
                                            }
                                        } else {
                                            return Err(syn_err(t2.loc));
                                        }
                                    },
                                    _ => {
                                        return Err(syn_err(t2.loc));
                                    },
                                }
                            },
                        }
                    },
                    _ => {
                        return Err(syn_err(tok.loc));
                    },
                }
            },
        }
    }
}

/// One whole view element, from just after its `<` token: tag name,
/// then the rest of the element.
pub(crate) fn parse_element(t: &mut Tokenizer<'_>, lt: TokenLoc) -> (r: Result<
    NodeView,
    ParseError,
>)
    requires
        old(t).wf(),
        spec_token_loc_wf(old(t).src(), lt@),
        lt@.starts_at <= old(t).cursor(),
    ensures
        final(t).wf(),
        final(t).src() == old(t).src(),
        old(t).cursor() <= final(t).cursor(),
        match spec_parse_element(old(t).src(), old(t).cursor(), lt@) {
            Ok((v, j)) => r matches Ok(n) && n@ == v && final(t).cursor() == j,
            Err(e) => r matches Err(pe) && pe@ == e,
        },
    decreases old(t).src().len() - old(t).cursor(),
{
    proof {
        t.lemma_wf();
    }
    let ghost s = t.src();
    let ghost pre = t.cursor();
    match t.next() {
        None => Err(eof_err(t)),
        Some(Err(e)) => Err(tok_err_at(t, e)),
        Some(Ok(tok)) => {
            proof {
                lemma_lex_step_advances(s, pre);
            }
            match tok.con {
                TokenContent::Identifier(name) => parse_tag_rest(t, lt, name),
                _ => Err(syn_err(tok.loc)),
            }
        },
    }
}

/// The view sub-parser: drives one element to completion with the
/// four-state step machine, one [`ViewParser::advance`] at a time.
pub struct ViewParser {
    lt: TokenLoc,
    state: ViewParserState,
    pending: Option<NodeView>,
    pre: Ghost<int>,
}

impl ViewParser {
    /// The range of the `<` token that opened the element.
    pub closed spec fn lt_loc(&self) -> crate::ast::SpecTokenLoc {
        self.lt@
    }

    /// A sub-parser that has not stepped yet.
    pub closed spec fn fresh(&self) -> bool {
        self.state is Ready
    }

    /// Internal consistency, against the shared cursor: a pending token
    /// was lexed exactly at the remembered position, and a finished
    /// parse holds its element.
    pub closed spec fn inv(&self, s: Seq<char>, cur: int) -> bool {
        match self.state {
            ViewParserState::Ready => self.lt@.starts_at <= cur,
            ViewParserState::PendingToken(res) => {
                &&& 0 <= self.pre@ <= s.len()
                &&& self.lt@.starts_at <= self.pre@
                &&& match res {
                    Ok(tok) => lex_step(s, self.pre@) == LexStep::Tok(tok@, cur),
                    Err(e) => lex_step(s, self.pre@) == LexStep::Fail(e, cur),
                }
            },
            ViewParserState::PendingParseError(_) => true,
            ViewParserState::EOF => self.pending is Some,
        }
    }

    /// What this sub-parser will deliver, given the shared cursor.
    pub closed spec fn outcome(&self, s: Seq<char>, cur: int) -> Result<
        (SpecNodeView, int),
        SpecParseError,
    > {
        match self.state {
            ViewParserState::Ready => spec_parse_element(s, cur, self.lt@),
            ViewParserState::PendingToken(_) => spec_parse_element(s, self.pre@, self.lt@),
            ViewParserState::PendingParseError(e) => Err(e@),
            ViewParserState::EOF => match self.pending {
                Some(n) => Ok((n@, cur)),
                None => Err(SpecParseError::SyntaxError {
                    loc: crate::item::SpecLoc { start: s.len() as int, end: s.len() as int },
                }),
            },
        }
    }

    spec fn rank(&self) -> int {
        match self.state {
            ViewParserState::Ready => 2,
            ViewParserState::PendingToken(_) => 1,
            _ => 0,
        }
    }

    spec fn prog(&self, cur: int) -> int {
        if self.state is PendingToken {
            self.pre@
        } else {
            cur
        }
    }

    pub fn new(lt: TokenLoc) -> (p: Self)
        ensures
            p.fresh(),
            p.lt_loc() == lt@,
    {
        ViewParser { lt, state: ViewParserState::Ready, pending: None, pre: Ghost(0int) }
    }

    /// A fresh sub-parser is consistent with any cursor at or past its
    /// opening `<` token.
    pub proof fn lemma_fresh_inv(&self, s: Seq<char>, cur: int)
        requires
            self.fresh(),
            self.lt_loc().starts_at <= cur,
        ensures
            self.inv(s, cur),
    {
    }

    /// A fresh sub-parser delivers exactly the element at the cursor.
    pub proof fn lemma_fresh_outcome(&self, s: Seq<char>, cur: int)
        requires
            self.fresh(),
        ensures
            self.outcome(s, cur) == spec_parse_element(s, cur, self.lt_loc()),
    {
    }

    /// One step: pull a token when ready, parse the element once its
    /// name is in hand, deliver the stored fault or the finished
    /// element otherwise.
    fn advance(&mut self, t: &mut Tokenizer<'_>) -> (r: ViewParserResult)
        requires
            old(t).wf(),
            old(self).inv(old(t).src(), old(t).cursor()),
            spec_token_loc_wf(old(t).src(), old(self).lt@),
        ensures
            final(t).wf(),
            final(t).src() == old(t).src(),
            old(t).cursor() <= final(t).cursor(),
            final(self).lt == old(self).lt,
            final(self).inv(final(t).src(), final(t).cursor()),
            final(self).outcome(final(t).src(), final(t).cursor()) == old(self).outcome(
                old(t).src(),
                old(t).cursor(),
            ),
            match r {
                ViewParserResult::Continue => {
                    let p0 = old(self).prog(old(t).cursor());
                    let p1 = final(self).prog(final(t).cursor());
                    p0 <= p1 <= final(t).src().len() && (p1 == p0 ==> final(self).rank()
                        < old(self).rank())
                },
                ViewParserResult::ParseError(e) => old(self).outcome(
                    old(t).src(),
                    old(t).cursor(),
                ) == Err::<(SpecNodeView, int), SpecParseError>(e@),
                ViewParserResult::Done => final(self).state is EOF && final(t).cursor() == old(
                    t,
                ).cursor() && final(self).pending == old(self).pending,
            },
    {
        proof {
            t.lemma_wf();
        }
        let ghost s = t.src();
        let mut st = ViewParserState::Ready;
        core::mem::swap(&mut st, &mut self.state);
        match st {
            ViewParserState::Ready => {
                let ghost c = t.cursor();
                self.pre = Ghost(c);
                match t.next() {
                    Some(res) => {
                        self.state = ViewParserState::PendingToken(res);
                        ViewParserResult::Continue
                    },
                    None => {
                        let e = eof_err(t);
                        self.state = ViewParserState::PendingParseError(e);
                        ViewParserResult::Continue
                    },
                }
            },
            ViewParserState::PendingToken(res) => match res {
                Ok(tok) => {
                    proof {
                        lemma_lex_step_advances(s, self.pre@);
                    }
                    match tok.con {

                        TokenContent::Identifier(name) => {
                            let rest = parse_tag_rest(t, self.lt, name);
                            proof {
                                t.lemma_wf();
                            }
                            match rest {
                                Ok(n) => {
                                    self.pending = Some(n);
                                    self.state = ViewParserState::EOF;
                                    ViewParserResult::Continue
                                },
                                Err(e) => {
                                    self.state = ViewParserState::PendingParseError(e);
                                    ViewParserResult::Continue
                                },
                            }
                        },
                        _ => {
                            let e = syn_err(tok.loc);
                            self.state = ViewParserState::PendingParseError(e);
                            ViewParserResult::Continue
                        },
                    }
                },
                Err(lex_e) => {
                    proof {
                        lemma_lex_step_advances(s, self.pre@);
                    }
                    let e = tok_err_at(t, lex_e);
                    self.state = ViewParserState::PendingParseError(e);
                    ViewParserResult::Continue
                },
            },
            ViewParserState::PendingParseError(e) => {
                self.state = ViewParserState::PendingParseError(e);
                ViewParserResult::ParseError(e)
            },
            ViewParserState::EOF => {
                self.state = ViewParserState::EOF;
                ViewParserResult::Done
            },
        }
    }

    /// Steps until the element is complete or faulted and hands the
    /// result back, together with the cursor.
    pub fn parse_all(&mut self, t: &mut Tokenizer<'_>) -> (r: Result<NodeView, ParseError>)
        requires
            old(t).wf(),
            old(self).inv(old(t).src(), old(t).cursor()),
            spec_token_loc_wf(old(t).src(), old(self).lt_loc()),
        ensures
            final(t).wf(),
            final(t).src() == old(t).src(),
            old(t).cursor() <= final(t).cursor(),
            match old(self).outcome(old(t).src(), old(t).cursor()) {
                Ok((v, j)) => r matches Ok(n) && n@ == v && final(t).cursor() == j,
                Err(e) => r matches Err(pe) && pe@ == e,
            },
    {
        loop
            invariant
                t.wf(),
                t.src() == old(t).src(),
                old(t).cursor() <= t.cursor(),
                self.inv(t.src(), t.cursor()),
                self.lt == old(self).lt,
                spec_token_loc_wf(t.src(), self.lt@),
                self.outcome(t.src(), t.cursor()) == old(self).outcome(
                    old(t).src(),
                    old(t).cursor(),
                ),
            decreases t.src().len() - self.prog(t.cursor()), self.rank(),
        {
            proof {
                t.lemma_wf();
            }
            match self.advance(t) {
                ViewParserResult::Continue => {},
                ViewParserResult::ParseError(e) => {
                    return Err(e);
                },
                ViewParserResult::Done => {
                    match &self.pending {
                        Some(n) => {
                            return Ok(NodeView { loc: n.loc });
                        },
                        None => {
                            proof {
                                assert(false);
                            }
                            return Err(eof_err(t));
                        },
                    }
                },
            }
        }
    }
}

} // verus!
