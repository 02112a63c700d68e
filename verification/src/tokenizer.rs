//! The lexer: turns source text into a stream of [`Token`]s, one per
//! call of [`Tokenizer::next`].
//!
//! The behaviour is pinned by the spec function [`lex_step`]: given the
//! source and a cursor, it says whether the lexer is at the end, which
//! token comes next and where the cursor lands, or which error is hit
//! and where. Tokens always take the longest possible match (maximal
//! munch): a word is scanned to the end of its identifier-character run
//! before it is classified as a reserved word or an identifier.

use crate::ast::{
    SpecToken, SpecTokenContent, SpecTokenLiteral, SpecTokenLoc, Token, TokenContent, TokenLiteral,
    TokenLoc,
};
use vstd::prelude::*;
use vstd::string::StrSliceExecFns;

verus! {

/// A lexical fault. The stream is not resumable past one of these:
/// the cursor parks at the start of the offending lexeme.
#[derive(Debug, Clone, Copy, Eq, PartialEq, Structural)]
pub enum TokenizerErr {
    UnterminatedStringLiteral,
    UnexpectedToken,
    EmptyElementIdentifier,
    InvalidElementIdentifier,
}

pub type TokenResult = Result<Token, TokenizerErr>;

// ---------------------------------------------------------------------------
// Character classes of the grammar.
// ---------------------------------------------------------------------------

/// Whitespace skipped between tokens: space, tab, newline, carriage return.
pub open spec fn is_ws_char(c: char) -> bool {
    c == ' ' || c == '\t' || c == '\n' || c == '\r'
}

/// A decimal digit.
pub open spec fn is_digit_char(c: char) -> bool {
    ('0' as u32) <= (c as u32) && (c as u32) <= ('9' as u32)
}

/// An ASCII letter.
pub open spec fn is_alpha_char(c: char) -> bool {
    (('a' as u32) <= (c as u32) && (c as u32) <= ('z' as u32)) || (('A' as u32) <= (c as u32)
        && (c as u32) <= ('Z' as u32))
}

/// A character that may open an identifier.
pub open spec fn is_ident_start_char(c: char) -> bool {
    is_alpha_char(c) || c == '_' || c == '$'
}

/// A character that may continue an identifier.
pub open spec fn is_ident_char(c: char) -> bool {
    is_ident_start_char(c) || is_digit_char(c) || c == '-'
}

pub open spec fn ws_pred() -> spec_fn(char) -> bool {
    |c: char| is_ws_char(c)
}

pub open spec fn digit_pred() -> spec_fn(char) -> bool {
    |c: char| is_digit_char(c)
}

pub open spec fn alpha_pred() -> spec_fn(char) -> bool {
    |c: char| is_alpha_char(c)
}

pub open spec fn ident_pred() -> spec_fn(char) -> bool {
    |c: char| is_ident_char(c)
}

pub open spec fn not_quote_pred() -> spec_fn(char) -> bool {
    |c: char| c != '"'
}

// ---------------------------------------------------------------------------
// Maximal runs.
// ---------------------------------------------------------------------------

/// The first position at or after `i` whose character fails `p` (or the
/// end of the text): the end of the maximal `p`-run starting at `i`.
pub open spec fn run_end(s: Seq<char>, i: int, p: spec_fn(char) -> bool) -> int
    decreases s.len() - i,
{
    if i < 0 || i >= s.len() {
        i
    } else if p(s[i]) {
        run_end(s, i + 1, p)
    } else {
        i
    }
}

pub proof fn lemma_run_end(s: Seq<char>, i: int, p: spec_fn(char) -> bool)
    requires
        0 <= i <= s.len(),
    ensures
        i <= run_end(s, i, p) <= s.len(),
        forall|k: int| i <= k < run_end(s, i, p) ==> p(s[k]),
        run_end(s, i, p) < s.len() ==> !p(s[run_end(s, i, p)]),
    decreases s.len() - i,
{
    if i < s.len() && p(s[i]) {
        lemma_run_end(s, i + 1, p);
    }
}

/// Where the token after position `i` begins: whitespace is skipped.
pub open spec fn skip_ws(s: Seq<char>, i: int) -> int {
    run_end(s, i, ws_pred())
}

// ---------------------------------------------------------------------------
// Reserved words.
// ---------------------------------------------------------------------------

/// The reserved-word table: a word is a keyword only when it matches an
/// entry whole.
pub open spec fn spec_keyword(w: Seq<char>) -> Option<SpecTokenContent> {
    if w == "as"@ {
        Some(SpecTokenContent::As)
    } else if w == "async"@ {
        Some(SpecTokenContent::Async)
    } else if w == "await"@ {
        Some(SpecTokenContent::Await)
    } else if w == "const"@ {
        Some(SpecTokenContent::Const)
    } else if w == "defer"@ {
        Some(SpecTokenContent::Defer)
    } else if w == "effect"@ {
        Some(SpecTokenContent::Effect)
    } else if w == "else"@ {
        Some(SpecTokenContent::Else)
    } else if w == "fn"@ {
        Some(SpecTokenContent::FnKeyword)
    } else if w == "for"@ {
        Some(SpecTokenContent::For)
    } else if w == "from"@ {
        Some(SpecTokenContent::FromKeyword)
    } else if w == "handle"@ {
        Some(SpecTokenContent::Handle)
    } else if w == "if"@ {
        Some(SpecTokenContent::If)
    } else if w == "implement"@ {
        Some(SpecTokenContent::Implement)
    } else if w == "import"@ {
        Some(SpecTokenContent::Import)
    } else if w == "var"@ {
        Some(SpecTokenContent::Var)
    } else if w == "let"@ {
        Some(SpecTokenContent::Let)
    } else if w == "protocol"@ {
        Some(SpecTokenContent::Protocol)
    } else if w == "undefined"@ {
        Some(SpecTokenContent::Undefined)
    } else if w == "type"@ {
        Some(SpecTokenContent::Type)
    } else if w == "use"@ {
        Some(SpecTokenContent::Use)
    } else if w == "pub"@ {
        Some(SpecTokenContent::Pub)
    } else if w == "with"@ {
        Some(SpecTokenContent::With)
    } else {
        None
    }
}

// ---------------------------------------------------------------------------
// The lexing relation.
// ---------------------------------------------------------------------------

/// One step of the lexer, as seen from a cursor position.
pub ghost enum LexStep {
    /// Only whitespace remains; the cursor lands on the end of the text.
    End,
    /// The next token, and the cursor position after it.
    Tok(SpecToken, int),
    /// A lexical fault, and the start of the offending lexeme.
    Fail(TokenizerErr, int),
}

/// The token beginning exactly at `k`, which must hold a non-whitespace
/// character.
pub open spec fn lex_token_at(s: Seq<char>, k: int) -> LexStep {
    let c = s[k];
    if is_ident_start_char(c) {
        let j = run_end(s, k, ident_pred());
        let w = s.subrange(k, j);
        if spec_keyword(w) is Some {
            LexStep::Tok(
                SpecToken {
                    loc: SpecTokenLoc { starts_at: k, len: j - k },
                    con: spec_keyword(w)->Some_0,
                },
                j,
            )
        } else if w[w.len() - 1] == '-' {
            LexStep::Fail(TokenizerErr::UnexpectedToken, k)
        } else {
            LexStep::Tok(
                SpecToken {
                    loc: SpecTokenLoc { starts_at: k, len: j - k },
                    con: SpecTokenContent::Identifier(w),
                },
                j,
            )
        }
    } else if is_digit_char(c) {
        let j = run_end(s, k, digit_pred());
        LexStep::Tok(
            SpecToken {
                loc: SpecTokenLoc { starts_at: k, len: j - k },
                con: SpecTokenContent::Literal(SpecTokenLiteral::NumberLiteral(s.subrange(k, j))),
            },
            j,
        )
    } else if c == '"' {
        let j = run_end(s, k + 1, not_quote_pred());
        if j < s.len() {
            LexStep::Tok(
                SpecToken {
                    loc: SpecTokenLoc { starts_at: k, len: j + 1 - k },
                    con: SpecTokenContent::Literal(
                        SpecTokenLiteral::StringLiteral(s.subrange(k, j + 1)),
                    ),
                },
                j + 1,
            )
        } else {
            LexStep::Fail(TokenizerErr::UnterminatedStringLiteral, k)
        }
    } else if c == '#' {
        let j = run_end(s, k + 1, alpha_pred());
        if j == k + 1 {
            LexStep::Fail(TokenizerErr::EmptyElementIdentifier, k)
        } else {
            LexStep::Tok(
                SpecToken {
                    loc: SpecTokenLoc { starts_at: k, len: j - k },
                    con: SpecTokenContent::Anchor(s.subrange(k, j)),
                },
                j,
            )
        }
    } else if c == '<' {
        if k + 1 < s.len() && s[k + 1] == '/' {
            LexStep::Tok(
                SpecToken {
                    loc: SpecTokenLoc { starts_at: k, len: 2 },
                    con: SpecTokenContent::TagAngleClosingLeft,
                },
                k + 2,
            )
        } else {
            LexStep::Tok(
                SpecToken {
                    loc: SpecTokenLoc { starts_at: k, len: 1 },
                    con: SpecTokenContent::TagAngleBracketLeft,
                },
                k + 1,
            )
        }
    } else if c == '/' {
        if k + 1 < s.len() && s[k + 1] == '>' {
            LexStep::Tok(
                SpecToken {
                    loc: SpecTokenLoc { starts_at: k, len: 2 },
                    con: SpecTokenContent::TagAngleSelfClosingRight,
                },
                k + 2,
            )
        } else {
            LexStep::Fail(TokenizerErr::UnexpectedToken, k)
        }
    } else if c == '>' {
        LexStep::Tok(
            SpecToken {
                loc: SpecTokenLoc { starts_at: k, len: 1 },
                con: SpecTokenContent::TagAngleBracketRight,
            },
            k + 1,
        )
    } else if c == '(' {
        LexStep::Tok(
            SpecToken {
                loc: SpecTokenLoc { starts_at: k, len: 1 },
                con: SpecTokenContent::ParenthesisLeft,
            },
            k + 1,
        )
    } else if c == ')' {
        LexStep::Tok(
            SpecToken {
                loc: SpecTokenLoc { starts_at: k, len: 1 },
                con: SpecTokenContent::ParenthesisRight,
            },
            k + 1,
        )
    } else if c == '{' {
        LexStep::Tok(
            SpecToken {
                loc: SpecTokenLoc { starts_at: k, len: 1 },
                con: SpecTokenContent::BraceLeft,
            },
            k + 1,
        )
    } else if c == '}' {
        LexStep::Tok(
            SpecToken {
                loc: SpecTokenLoc { starts_at: k, len: 1 },
                con: SpecTokenContent::BraceRight,
            },
            k + 1,
        )
    } else if c == '[' {
        LexStep::Tok(
            SpecToken {
                loc: SpecTokenLoc { starts_at: k, len: 1 },
                con: SpecTokenContent::SquareBracketLeft,
            },
            k + 1,
        )
    } else if c == ']' {
        LexStep::Tok(
            SpecToken {
                loc: SpecTokenLoc { starts_at: k, len: 1 },
                con: SpecTokenContent::SquareBracketRight,
            },
            k + 1,
        )
    } else if c == '=' {
        LexStep::Tok(
            SpecToken {
                loc: SpecTokenLoc { starts_at: k, len: 1 },
                con: SpecTokenContent::AssignmentOp,
            },
            k + 1,
        )
    } else if c == '+' {
        LexStep::Tok(
            SpecToken {
                loc: SpecTokenLoc { starts_at: k, len: 1 },
                con: SpecTokenContent::AddOp,
            },
            k + 1,
        )
    } else if c == '&' {
        LexStep::Tok(
            SpecToken {
                loc: SpecTokenLoc { starts_at: k, len: 1 },
                con: SpecTokenContent::BitwiseAndOp,
            },
            k + 1,
        )
    } else {
        LexStep::Fail(TokenizerErr::UnexpectedToken, k)
    }
}

/// What one call of [`Tokenizer::next`] does from cursor position `i`.
pub open spec fn lex_step(s: Seq<char>, i: int) -> LexStep {
    let k = skip_ws(s, i);
    if k >= s.len() {
        LexStep::End
    } else {
        lex_token_at(s, k)
    }
}

/// Every token covers at least one character, sits between the cursor
/// and the end of the text, and its range ends exactly where the cursor
/// lands; every fault sits at a real position.
pub proof fn lemma_lex_step_advances(s: Seq<char>, i: int)
    requires
        0 <= i <= s.len(),
    ensures
        match lex_step(s, i) {
            LexStep::End => true,
            LexStep::Tok(t, j) => i <= t.loc.starts_at && 0 < t.loc.len && t.loc.starts_at
                + t.loc.len == j && j <= s.len(),
            LexStep::Fail(e, p) => i <= p < s.len(),
        },
{
    lemma_run_end(s, i, ws_pred());
    let k = skip_ws(s, i);
    if k < s.len() {
        let c = s[k];
        if is_ident_start_char(c) {
            lemma_run_end(s, k, ident_pred());
            assert(run_end(s, k, ident_pred()) > k);
        } else if is_digit_char(c) {
            lemma_run_end(s, k, digit_pred());
            assert(run_end(s, k, digit_pred()) > k);
        } else if c == '"' {
            lemma_run_end(s, k + 1, not_quote_pred());
        } else if c == '#' {
            lemma_run_end(s, k + 1, alpha_pred());
        }
    }
}

// ---------------------------------------------------------------------------
// Laws of the lexer.
// ---------------------------------------------------------------------------

/// A non-empty all-digit text lexes to exactly one number literal
/// token: it starts at offset zero, spans the whole text, carries the
/// digits themselves, and the stream ends right after it.
pub proof fn lemma_digits_lex_to_one_number(s: Seq<char>)
    requires
        s.len() > 0,
        forall|k: int| 0 <= k < s.len() ==> is_digit_char(#[trigger] s[k]),
    ensures
        lex_step(s, 0) == LexStep::Tok(
            SpecToken {
                loc: SpecTokenLoc { starts_at: 0, len: s.len() as int },
                con: SpecTokenContent::Literal(SpecTokenLiteral::NumberLiteral(s)),
            },
            s.len() as int,
        ),
        lex_step(s, s.len() as int) == LexStep::End,
{
    assert(is_digit_char(s[0]));
    assert(!is_ws_char(s[0]));
    assert(run_end(s, 0, ws_pred()) == 0);
    lemma_run_end(s, 0, digit_pred());
    let j = run_end(s, 0, digit_pred());
    if j < s.len() {
        assert(is_digit_char(s[j]));
        assert(false);
    }
    assert(s.subrange(0, s.len() as int) =~= s);
    assert(run_end(s, s.len() as int, ws_pred()) == s.len());
}

/// Maximal munch: a word made of identifier characters that opens with
/// an identifier-start character, does not end in `-`, and is not
/// itself a reserved word lexes as a single identifier token spanning
/// the whole word — never as a reserved-word prefix followed by a
/// stray remainder.
pub proof fn lemma_maximal_munch_identifier(s: Seq<char>)
    requires
        s.len() > 0,
        is_ident_start_char(s[0]),
        forall|k: int| 0 <= k < s.len() ==> is_ident_char(#[trigger] s[k]),
        s[s.len() - 1] != '-',
        spec_keyword(s) is None,
    ensures
        lex_step(s, 0) == LexStep::Tok(
            SpecToken {
                loc: SpecTokenLoc { starts_at: 0, len: s.len() as int },
                con: SpecTokenContent::Identifier(s),
            },
            s.len() as int,
        ),
        lex_step(s, s.len() as int) == LexStep::End,
{
    assert(!is_ws_char(s[0]));
    assert(run_end(s, 0, ws_pred()) == 0);
    lemma_run_end(s, 0, ident_pred());
    let j = run_end(s, 0, ident_pred());
    if j < s.len() {
        assert(is_ident_char(s[j]));
        assert(false);
    }
    assert(s.subrange(0, s.len() as int) =~= s);
    assert(run_end(s, s.len() as int, ws_pred()) == s.len());
}

/// Tokens carry exact offsets, in order: a token covers the range from
/// its start to the position the cursor lands on, and the token lexed
/// from there starts at or after that position — consecutive tokens
/// never overlap and their offsets strictly increase.
pub proof fn lemma_token_stream_monotonic(s: Seq<char>, i: int)
    requires
        0 <= i <= s.len(),
    ensures
        match lex_step(s, i) {
            LexStep::Tok(t, j) => t.loc.starts_at + t.loc.len == j && match lex_step(s, j) {
                LexStep::Tok(t2, j2) => t.loc.starts_at + t.loc.len <= t2.loc.starts_at
                    && t2.loc.starts_at < j2,
                _ => true,
            },
            _ => true,
        },
{
    lemma_lex_step_advances(s, i);
    match lex_step(s, i) {
        LexStep::Tok(t, j) => {
            lemma_lex_step_advances(s, j);
        },
        _ => {},
    }
}

/// A token's carried text is exactly the source characters its range
/// covers: an identifier, number, string literal or anchor round-trips
/// to the original text, quotes and `#` included.
pub proof fn lemma_token_content_faithful(s: Seq<char>, i: int)
    requires
        0 <= i <= s.len(),
    ensures
        match lex_step(s, i) {
            LexStep::Tok(t, j) => {
                let span = s.subrange(t.loc.starts_at, t.loc.starts_at + t.loc.len);
                match t.con {
                    SpecTokenContent::Identifier(w) => w == span,
                    SpecTokenContent::Anchor(w) => w == span,
                    SpecTokenContent::Literal(SpecTokenLiteral::NumberLiteral(w)) => w == span,
                    SpecTokenContent::Literal(SpecTokenLiteral::StringLiteral(w)) => w == span,
                    _ => true,
                }
            },
            _ => true,
        },
{
    lemma_lex_step_advances(s, i);
}

/// A string literal that never closes faults the stream: a `"` with no
/// further `"` before the end of the input yields the unterminated
/// string literal fault at the opening quote.
pub proof fn lemma_unterminated_string(s: Seq<char>, i: int)
    requires
        0 <= i <= s.len(),
        skip_ws(s, i) < s.len(),
        s[skip_ws(s, i)] == '"',
        forall|k: int| skip_ws(s, i) < k < s.len() ==> #[trigger] s[k] != '"',
    ensures
        lex_step(s, i) == LexStep::Fail(TokenizerErr::UnterminatedStringLiteral, skip_ws(s, i)),
{
    let k = skip_ws(s, i);
    lemma_run_end(s, i, ws_pred());
    assert(!is_ident_start_char(s[k]));
    assert(!is_digit_char(s[k]));
    lemma_run_end(s, k + 1, not_quote_pred());
    let j = run_end(s, k + 1, not_quote_pred());
    if j < s.len() {
        assert(s[j] == '"');
        assert(false);
    }
}

// ---------------------------------------------------------------------------
// The executable lexer.
// ---------------------------------------------------------------------------

fn is_ws(c: char) -> (b: bool)
    ensures
        b == is_ws_char(c),
{
    c == ' ' || c == '\t' || c == '\n' || c == '\r'
}

fn is_digit(c: char) -> (b: bool)
    ensures
        b == is_digit_char(c),
{
    ('0' as u32) <= (c as u32) && (c as u32) <= ('9' as u32)
}

fn is_alpha(c: char) -> (b: bool)
    ensures
        b == is_alpha_char(c),
{
    (('a' as u32) <= (c as u32) && (c as u32) <= ('z' as u32)) || (('A' as u32) <= (c as u32) && (c
        as u32) <= ('Z' as u32))
}

fn is_ident_start(c: char) -> (b: bool)
    ensures
        b == is_ident_start_char(c),
{
    is_alpha(c) || c == '_' || c == '$'
}

fn is_ident_ch(c: char) -> (b: bool)
    ensures
        b == is_ident_char(c),
{
    is_ident_start(c) || is_digit(c) || c == '-'
}

/// Character-for-character equality of two string slices.
fn str_eq_str(a: &str, b: &str) -> (r: bool)
    ensures
        r == (a@ == b@),
{
    let la = a.unicode_len();
    let lb = b.unicode_len();
    if la != lb {
        return false;
    }
    let mut i: usize = 0;
    while i < la
        invariant
            0 <= i <= la,
            la == a@.len(),
            lb == b@.len(),
            la == lb,
            forall|k: int| 0 <= k < i ==> a@[k] == b@[k],
        decreases la - i,
    {
        if a.get_char(i) != b.get_char(i) {
            return false;
        }
        i += 1;
    }
    proof {
        assert(a@ =~= b@);
    }
    true
}

/// Looks a scanned word up in the reserved-word table.
fn keyword_of(w: &str) -> (r: Option<TokenContent>)
    ensures
        match r {
            Some(con) => spec_keyword(w@) == Some(con@),
            None => spec_keyword(w@) is None,
        },
{
    if str_eq_str(w, "as") {
        Some(TokenContent::As)
    } else if str_eq_str(w, "async") {
        Some(TokenContent::Async)
    } else if str_eq_str(w, "await") {
        Some(TokenContent::Await)
    } else if str_eq_str(w, "const") {
        Some(TokenContent::Const)
    } else if str_eq_str(w, "defer") {
        Some(TokenContent::Defer)
    } else if str_eq_str(w, "effect") {
        Some(TokenContent::Effect)
    } else if str_eq_str(w, "else") {
        Some(TokenContent::Else)
    } else if str_eq_str(w, "fn") {
        Some(TokenContent::FnKeyword)
    } else if str_eq_str(w, "for") {
        Some(TokenContent::For)
    } else if str_eq_str(w, "from") {
        Some(TokenContent::FromKeyword)
    } else if str_eq_str(w, "handle") {
        Some(TokenContent::Handle)
    } else if str_eq_str(w, "if") {
        Some(TokenContent::If)
    } else if str_eq_str(w, "implement") {
        Some(TokenContent::Implement)
    } else if str_eq_str(w, "import") {
        Some(TokenContent::Import)
    } else if str_eq_str(w, "var") {
        Some(TokenContent::Var)
    } else if str_eq_str(w, "let") {
        Some(TokenContent::Let)
    } else if str_eq_str(w, "protocol") {
        Some(TokenContent::Protocol)
    } else if str_eq_str(w, "undefined") {
        Some(TokenContent::Undefined)
    } else if str_eq_str(w, "type") {
        Some(TokenContent::Type)
    } else if str_eq_str(w, "use") {
        Some(TokenContent::Use)
    } else if str_eq_str(w, "pub") {
        Some(TokenContent::Pub)
    } else if str_eq_str(w, "with") {
        Some(TokenContent::With)
    } else {
        None
    }
}

/// The lexer: owns the read cursor over the source text and hands out
/// one token per [`Tokenizer::next`] call.
pub struct Tokenizer<'a> {
    input: &'a str,
    len: usize,
    pos: usize,
}

impl<'a> Tokenizer<'a> {
    /// The source text under the cursor.
    pub closed spec fn src(&self) -> Seq<char> {
        self.input@
    }

    /// The cursor: how many characters have been consumed.
    pub closed spec fn cursor(&self) -> int {
        self.pos as int
    }

    /// The cursor stays within the text, whose length fits the token
    /// offset type.
    pub closed spec fn wf(&self) -> bool {
        self.pos <= self.len && self.len == self.input@.len() && self.input@.len() < u32::MAX as int
    }

    pub fn new(input: &'a str) -> (t: Self)
        requires
            input@.len() < u32::MAX as int,
        ensures
            t.wf(),
            t.src() == input@,
            t.cursor() == 0,
    {
        let len = input.unicode_len();
        Tokenizer { input, len, pos: 0 }
    }

    /// The current cursor position.
    pub fn current_idx(&self) -> (i: usize)
        requires
            self.wf(),
        ensures
            i == self.cursor(),
            i <= self.src().len(),
    {
        self.pos
    }

    /// The number of characters in the source.
    pub fn src_len(&self) -> (n: usize)
        requires
            self.wf(),
        ensures
            n == self.src().len(),
            n < u32::MAX as int,
    {
        self.len
    }

    /// The cursor never leaves the text, whose length fits the token
    /// offset type.
    pub proof fn lemma_wf(&self)
        requires
            self.wf(),
        ensures
            0 <= self.cursor() <= self.src().len(),
            self.src().len() < u32::MAX as int,
    {
    }

    fn read(&self, i: usize) -> (c: char)
        requires
            self.wf(),
            i < self.src().len(),
        ensures
            c == self.src()[i as int],
    {
        self.input.get_char(i)
    }

    fn skip_whitespace(&mut self)
        requires
            old(self).wf(),
        ensures
            final(self).wf(),
            final(self).src() == old(self).src(),
            final(self).cursor() == skip_ws(old(self).src(), old(self).cursor()),
    {
        let ghost s = self.src();
        let ghost i0 = self.cursor();
        loop
            invariant
                self.wf(),
                self.src() == s,
                i0 <= self.cursor(),
                skip_ws(s, i0) == skip_ws(s, self.cursor()),
            ensures
                self.wf(),
                self.src() == s,
                self.cursor() == skip_ws(s, i0),
            decreases self.len - self.pos,
        {
            if self.pos >= self.len {
                assert(run_end(s, self.cursor(), ws_pred()) == self.cursor());
                break;
            }
            let c = self.read(self.pos);
            if !is_ws(c) {
                assert(run_end(s, self.cursor(), ws_pred()) == self.cursor());
                break;
            }
            proof {
                assert(run_end(s, self.cursor(), ws_pred()) == run_end(
                    s,
                    self.cursor() + 1,
                    ws_pred(),
                ));
            }
            self.pos += 1;
        }
    }

    /// Advances the cursor to the end of the maximal run of `p`-spec
    /// characters, where `kind` selects the run: 0 digits, 1 identifier
    /// characters, 2 letters, 3 anything but `"`.
    fn scan_run(&mut self, kind: u8) -> (e: usize)
        requires
            old(self).wf(),
            kind <= 3,
        ensures
            final(self).wf(),
            final(self).src() == old(self).src(),
            final(self).cursor() == e,
            e == run_end(
                old(self).src(),
                old(self).cursor(),
                if kind == 0 {
                    digit_pred()
                } else if kind == 1 {
                    ident_pred()
                } else if kind == 2 {
                    alpha_pred()
                } else {
                    not_quote_pred()
                },
            ),
    {
        let ghost s = self.src();
        let ghost i0 = self.cursor();
        let ghost p: spec_fn(char) -> bool = if kind == 0 {
            digit_pred()
        } else if kind == 1 {
            ident_pred()
        } else if kind == 2 {
            alpha_pred()
        } else {
            not_quote_pred()
        };
        loop
            invariant
                self.wf(),
                self.src() == s,
                i0 <= self.cursor(),
                kind <= 3,
                (p == if kind == 0 {
                    digit_pred()
                } else if kind == 1 {
                    ident_pred()
                } else if kind == 2 {
                    alpha_pred()
                } else {
                    not_quote_pred()
                }),
                run_end(s, i0, p) == run_end(s, self.cursor(), p),
            ensures
                self.wf(),
                self.src() == s,
                self.cursor() == run_end(s, i0, p),
            decreases self.len - self.pos,
        {
            if self.pos >= self.len {
                assert(run_end(s, self.cursor(), p) == self.cursor());
                break;
            }
            let c = self.read(self.pos);
            let go = if kind == 0 {
                is_digit(c)
            } else if kind == 1 {
                is_ident_ch(c)
            } else if kind == 2 {
                is_alpha(c)
            } else {
                c != '"'
            };
            if !go {
                assert(!p(s[self.cursor()]));
                assert(run_end(s, self.cursor(), p) == self.cursor());
                break;
            }
            proof {
                assert(p(s[self.cursor()]));
                assert(run_end(s, self.cursor(), p) == run_end(s, self.cursor() + 1, p));
            }
            self.pos += 1;
        }
        self.pos
    }

    /// Lexes a maximal identifier-character run and classifies it:
    /// reserved word, identifier, or a fault for a trailing `-`.
    fn lex_word(&mut self) -> (r: TokenResult)
        requires
            old(self).wf(),
            old(self).cursor() < old(self).src().len(),
            is_ident_start_char(old(self).src()[old(self).cursor()]),
        ensures
            final(self).wf(),
            final(self).src() == old(self).src(),
            match r {
                Ok(t) => lex_token_at(old(self).src(), old(self).cursor()) == LexStep::Tok(
                    t@,
                    final(self).cursor(),
                ),
                Err(e) => lex_token_at(old(self).src(), old(self).cursor()) == LexStep::Fail(
                    e,
                    final(self).cursor(),
                ),
            },
    {
        let ghost s = self.src();
        let ghost k = self.cursor();
        let start = self.pos;
        let end = self.scan_run(1);
        proof {
            lemma_run_end(s, k, ident_pred());
            assert(ident_pred()(s[k]));
            assert(end > start);
        }
        let w = self.input.substring_char(start, end);
        assert(w@ == s.subrange(k, end as int));
        match keyword_of(w) {
            Some(con) => {
                let loc = TokenLoc { starts_at: start as u32, len: (end - start) as u32 };
                Ok(Token { loc, con })
            },
            None => {
                if self.read(end - 1) == '-' {
                    assert(s.subrange(k, end as int)[end - 1 - k] == s[end - 1]);
                    self.pos = start;
                    Err(TokenizerErr::UnexpectedToken)
                } else {
                    assert(s.subrange(k, end as int)[end - 1 - k] == s[end - 1]);
                    let loc = TokenLoc { starts_at: start as u32, len: (end - start) as u32 };
                    Ok(Token { loc, con: TokenContent::Identifier(w.to_owned()) })
                }
            },
        }
    }

    /// Lexes a maximal digit run as a number literal.
    fn lex_number_literal(&mut self) -> (t: Token)
        requires
            old(self).wf(),
            old(self).cursor() < old(self).src().len(),
            !is_ident_start_char(old(self).src()[old(self).cursor()]),
            is_digit_char(old(self).src()[old(self).cursor()]),
        ensures
            final(self).wf(),
            final(self).src() == old(self).src(),
            lex_token_at(old(self).src(), old(self).cursor()) == LexStep::Tok(
                t@,
                final(self).cursor(),
            ),
    {
        let ghost s = self.src();
        let ghost k = self.cursor();
        let start = self.pos;
        let end = self.scan_run(0);
        proof {
            lemma_run_end(s, k, digit_pred());
            assert(digit_pred()(s[k]));
        }
        let w = self.input.substring_char(start, end);
        let loc = TokenLoc { starts_at: start as u32, len: (end - start) as u32 };
        Token { loc, con: TokenContent::Literal(TokenLiteral::NumberLiteral(w.to_owned())) }
    }

    /// Lexes a quoted string literal, terminator included; fails when
    /// the text ends before the closing quote.
    fn lex_string_literal(&mut self) -> (r: TokenResult)
        requires
            old(self).wf(),
            old(self).cursor() < old(self).src().len(),
            old(self).src()[old(self).cursor()] == '"',
            !is_ident_start_char(old(self).src()[old(self).cursor()]),
            !is_digit_char(old(self).src()[old(self).cursor()]),
        ensures
            final(self).wf(),
            final(self).src() == old(self).src(),
            match r {
                Ok(t) => lex_token_at(old(self).src(), old(self).cursor()) == LexStep::Tok(
                    t@,
                    final(self).cursor(),
                ),
                Err(e) => lex_token_at(old(self).src(), old(self).cursor()) == LexStep::Fail(
                    e,
                    final(self).cursor(),
                ),
            },
    {
        let ghost s = self.src();
        let ghost k = self.cursor();
        let start = self.pos;
        self.pos += 1;
        let end = self.scan_run(3);
        proof {
            lemma_run_end(s, k + 1, not_quote_pred());
        }
        if end >= self.len {
            self.pos = start;
            Err(TokenizerErr::UnterminatedStringLiteral)
        } else {
            self.pos += 1;
            let w = self.input.substring_char(start, end + 1);
            let loc = TokenLoc { starts_at: start as u32, len: (end + 1 - start) as u32 };
            Ok(
                Token {
                    loc,
                    con: TokenContent::Literal(TokenLiteral::StringLiteral(w.to_owned())),
                },
            )
        }
    }

    /// Lexes `#` followed by a maximal letter run; fails when no letter
    /// follows the `#`.
    fn lex_anchor(&mut self) -> (r: TokenResult)
        requires
            old(self).wf(),
            old(self).cursor() < old(self).src().len(),
            old(self).src()[old(self).cursor()] == '#',
            !is_ident_start_char(old(self).src()[old(self).cursor()]),
            !is_digit_char(old(self).src()[old(self).cursor()]),
            old(self).src()[old(self).cursor()] != '"',
        ensures
            final(self).wf(),
            final(self).src() == old(self).src(),
            match r {
                Ok(t) => lex_token_at(old(self).src(), old(self).cursor()) == LexStep::Tok(
                    t@,
                    final(self).cursor(),
                ),
                Err(e) => lex_token_at(old(self).src(), old(self).cursor()) == LexStep::Fail(
                    e,
                    final(self).cursor(),
                ),
            },
    {
        let ghost s = self.src();
        let ghost k = self.cursor();
        let start = self.pos;
        self.pos += 1;
        let end = self.scan_run(2);
        proof {
            lemma_run_end(s, k + 1, alpha_pred());
        }
        if end == start + 1 {
            self.pos = start;
            Err(TokenizerErr::EmptyElementIdentifier)
        } else {
            let w = self.input.substring_char(start, end);
            let loc = TokenLoc { starts_at: start as u32, len: (end - start) as u32 };
            Ok(Token { loc, con: TokenContent::Anchor(w.to_owned()) })
        }
    }

    /// A single-character punctuation token at the cursor.
    fn punct_token(&mut self, con: TokenContent) -> (t: Token)
        requires
            old(self).wf(),
            old(self).cursor() < old(self).src().len(),
        ensures
            final(self).wf(),
            final(self).src() == old(self).src(),
            final(self).cursor() == old(self).cursor() + 1,
            t@ == (SpecToken {
                loc: SpecTokenLoc { starts_at: old(self).cursor(), len: 1 },
                con: con@,
            }),
    {
        let loc = TokenLoc { starts_at: self.pos as u32, len: 1 };
        self.pos += 1;
        Token { loc, con }
    }

    /// A two-character punctuation token at the cursor.
    fn punct_token2(&mut self, con: TokenContent) -> (t: Token)
        requires
            old(self).wf(),
            old(self).cursor() + 2 <= old(self).src().len(),
        ensures
            final(self).wf(),
            final(self).src() == old(self).src(),
            final(self).cursor() == old(self).cursor() + 2,
            t@ == (SpecToken {
                loc: SpecTokenLoc { starts_at: old(self).cursor(), len: 2 },
                con: con@,
            }),
    {
        let loc = TokenLoc { starts_at: self.pos as u32, len: 2 };
        self.pos += 2;
        Token { loc, con }
    }

    /// Skips whitespace and hands out the next token: `None` at the end
    /// of the text, the token otherwise, or the lexical fault that stops
    /// the stream. The behaviour is exactly [`lex_step`] at the old
    /// cursor.
    pub fn next(&mut self) -> (r: Option<TokenResult>)
        requires
            old(self).wf(),
        ensures
            final(self).wf(),
            final(self).src() == old(self).src(),
            old(self).cursor() <= final(self).cursor(),
            match lex_step(old(self).src(), old(self).cursor()) {
                LexStep::End => r is None && final(self).cursor() == old(self).src().len(),
                LexStep::Tok(t, j) => (r matches Some(Ok(tok)) && tok@ == t && final(self).cursor()
                    == j),
                LexStep::Fail(e, p) => (r matches Some(Err(e2)) && e2 == e && final(self).cursor()
                    == p),
            },
    {
        let ghost s = self.src();
        let ghost i0 = self.cursor();
        self.skip_whitespace();
        proof {
            lemma_run_end(s, i0, ws_pred());
        }
        if self.pos >= self.len {
            return None;
        }
        let c = self.read(self.pos);
        if is_ident_start(c) {
            Some(self.lex_word())
        } else if is_digit(c) {
            Some(Ok(self.lex_number_literal()))
        } else if c == '"' {
            Some(self.lex_string_literal())
        } else if c == '#' {
            Some(self.lex_anchor())
        } else if c == '<' {
            if self.pos + 1 < self.len && self.read(self.pos + 1) == '/' {
                Some(Ok(self.punct_token2(TokenContent::TagAngleClosingLeft)))
            } else {
                Some(Ok(self.punct_token(TokenContent::TagAngleBracketLeft)))
            }
        } else if c == '/' {
            if self.pos + 1 < self.len && self.read(self.pos + 1) == '>' {
                Some(Ok(self.punct_token2(TokenContent::TagAngleSelfClosingRight)))
            } else {
                Some(Err(TokenizerErr::UnexpectedToken))
            }
        } else if c == '>' {
            Some(Ok(self.punct_token(TokenContent::TagAngleBracketRight)))
        } else if c == '(' {
            Some(Ok(self.punct_token(TokenContent::ParenthesisLeft)))
        } else if c == ')' {
            Some(Ok(self.punct_token(TokenContent::ParenthesisRight)))
        } else if c == '{' {
            Some(Ok(self.punct_token(TokenContent::BraceLeft)))
        } else if c == '}' {
            Some(Ok(self.punct_token(TokenContent::BraceRight)))
        } else if c == '[' {
            Some(Ok(self.punct_token(TokenContent::SquareBracketLeft)))
        } else if c == ']' {
            Some(Ok(self.punct_token(TokenContent::SquareBracketRight)))
        } else if c == '=' {
            Some(Ok(self.punct_token(TokenContent::AssignmentOp)))
        } else if c == '+' {
            Some(Ok(self.punct_token(TokenContent::AddOp)))
        } else if c == '&' {
            Some(Ok(self.punct_token(TokenContent::BitwiseAndOp)))
        } else {
            Some(Err(TokenizerErr::UnexpectedToken))
        }
    }
}

} // verus!
