//! Token types produced by the lexer, together with their mathematical
//! models. A token is a character range into the source plus a content
//! tag;
//! the model replaces every `String` by its `Seq<char>` view so that
//! contracts can speak of token streams as pure values.

use vstd::prelude::*;

verus! {

/// Where a token sits in the source: `starts_at` is the offset of its
/// first character, `len` the number of characters it covers.
#[derive(Eq, PartialEq, Structural, Clone, Copy, Debug)]
pub struct TokenLoc {
    pub starts_at: u32,
    pub len: u32,
}

/// Mathematical model of a [`TokenLoc`], over unbounded integers.
pub ghost struct SpecTokenLoc {
    pub starts_at: int,
    pub len: int,
}

impl View for TokenLoc {
    type V = SpecTokenLoc;

    open spec fn view(&self) -> SpecTokenLoc {
        SpecTokenLoc { starts_at: self.starts_at as int, len: self.len as int }
    }
}

/// A literal token: a run of digits, or a quoted string (quotes included).
#[derive(Eq, PartialEq, Clone, Debug)]
pub enum TokenLiteral {
    NumberLiteral(String),
    StringLiteral(String),
}

/// Model of a [`TokenLiteral`]: the same two shapes over character sequences.
pub ghost enum SpecTokenLiteral {
    NumberLiteral(Seq<char>),
    StringLiteral(Seq<char>),
}

impl View for TokenLiteral {
    type V = SpecTokenLiteral;

    open spec fn view(&self) -> SpecTokenLiteral {
        match self {
            TokenLiteral::NumberLiteral(s) => SpecTokenLiteral::NumberLiteral(s@),
            TokenLiteral::StringLiteral(s) => SpecTokenLiteral::StringLiteral(s@),
        }
    }
}

impl TokenLiteral {
    /// The characters of the literal, exactly as they stand in the source.
    pub fn content(&self) -> (s: &String)
        ensures
            self is NumberLiteral ==> self->NumberLiteral_0@ == s@,
            self is StringLiteral ==> self->StringLiteral_0@ == s@,
    {
        match self {
            TokenLiteral::NumberLiteral(s) => s,
            TokenLiteral::StringLiteral(s) => s,
        }
    }
}

/// The closed set of token shapes of the grammar: identifiers, literals,
/// `#anchor` tags, structural punctuation, view-tag punctuation, and the
/// reserved words.
#[derive(Eq, PartialEq, Clone, Debug)]
pub enum TokenContent {
    /// `a_variable`, `a_function`, `CONSTANT_VALUE`, `TypeName`
    Identifier(String),
    /// `"hello, world"`, `2`
    Literal(TokenLiteral),
    /// `#anchor` attached to a view element
    Anchor(String),
    /// `(`
    ParenthesisLeft,
    /// `)`
    ParenthesisRight,
    /// `{`
    BraceLeft,
    /// `}`
    BraceRight,
    /// `[`
    SquareBracketLeft,
    /// `]`
    SquareBracketRight,
    /// `<`
    TagAngleBracketLeft,
    /// `</`
    TagAngleClosingLeft,
    /// `/>`
    TagAngleSelfClosingRight,
    /// `>`
    TagAngleBracketRight,
    /// `+`
    AddOp,
    /// `=`
    AssignmentOp,
    /// `&`
    BitwiseAndOp,
    /// `as`
    As,
    /// `async`
    Async,
    /// `await`
    Await,
    /// `const`
    Const,
    /// `defer`
    Defer,
    /// `effect`
    Effect,
    /// `else`
    Else,
    /// `fn`
    FnKeyword,
    /// `for`
    For,
    /// `from`
    FromKeyword,
    /// `handle`
    Handle,
    /// `if`
    If,
    /// `implement`
    Implement,
    /// `import`
    Import,
    /// `in`
    In,
    /// `var`
    Var,
    /// `let`
    Let,
    /// `protocol`
    Protocol,
    /// `type`
    Type,
    /// `undefined`
    Undefined,
    /// `use`
    Use,
    /// `pub`
    Pub,
    /// `with`
    With,
}

/// Model of a [`TokenContent`], with character sequences for the
/// carried strings.
pub ghost enum SpecTokenContent {
    Identifier(Seq<char>),
    Literal(SpecTokenLiteral),
    Anchor(Seq<char>),
    ParenthesisLeft,
    ParenthesisRight,
    BraceLeft,
    BraceRight,
    SquareBracketLeft,
    SquareBracketRight,
    TagAngleBracketLeft,
    TagAngleClosingLeft,
    TagAngleSelfClosingRight,
    TagAngleBracketRight,
    AddOp,
    AssignmentOp,
    BitwiseAndOp,
    As,
    Async,
    Await,
    Const,
    Defer,
    Effect,
    Else,
    FnKeyword,
    For,
    FromKeyword,
    Handle,
    If,
    Implement,
    Import,
    In,
    Var,
    Let,
    Protocol,
    Type,
    Undefined,
    Use,
    Pub,
    With,
}

impl View for TokenContent {
    type V = SpecTokenContent;

    open spec fn view(&self) -> SpecTokenContent {
        match self {
            TokenContent::Identifier(s) => SpecTokenContent::Identifier(s@),
            TokenContent::Literal(l) => SpecTokenContent::Literal(l@),
            TokenContent::Anchor(s) => SpecTokenContent::Anchor(s@),
            TokenContent::ParenthesisLeft => SpecTokenContent::ParenthesisLeft,
            TokenContent::ParenthesisRight => SpecTokenContent::ParenthesisRight,
            TokenContent::BraceLeft => SpecTokenContent::BraceLeft,
            TokenContent::BraceRight => SpecTokenContent::BraceRight,
            TokenContent::SquareBracketLeft => SpecTokenContent::SquareBracketLeft,
            TokenContent::SquareBracketRight => SpecTokenContent::SquareBracketRight,
            TokenContent::TagAngleBracketLeft => SpecTokenContent::TagAngleBracketLeft,
            TokenContent::TagAngleClosingLeft => SpecTokenContent::TagAngleClosingLeft,
            TokenContent::TagAngleSelfClosingRight => SpecTokenContent::TagAngleSelfClosingRight,
            TokenContent::TagAngleBracketRight => SpecTokenContent::TagAngleBracketRight,
            TokenContent::AddOp => SpecTokenContent::AddOp,
            TokenContent::AssignmentOp => SpecTokenContent::AssignmentOp,
            TokenContent::BitwiseAndOp => SpecTokenContent::BitwiseAndOp,
            TokenContent::As => SpecTokenContent::As,
            TokenContent::Async => SpecTokenContent::Async,
            TokenContent::Await => SpecTokenContent::Await,
            TokenContent::Const => SpecTokenContent::Const,
            TokenContent::Defer => SpecTokenContent::Defer,
            TokenContent::Effect => SpecTokenContent::Effect,
            TokenContent::Else => SpecTokenContent::Else,
            TokenContent::FnKeyword => SpecTokenContent::FnKeyword,
            TokenContent::For => SpecTokenContent::For,
            TokenContent::FromKeyword => SpecTokenContent::FromKeyword,
            TokenContent::Handle => SpecTokenContent::Handle,
            TokenContent::If => SpecTokenContent::If,
            TokenContent::Implement => SpecTokenContent::Implement,
            TokenContent::Import => SpecTokenContent::Import,
            TokenContent::In => SpecTokenContent::In,
            TokenContent::Var => SpecTokenContent::Var,
            TokenContent::Let => SpecTokenContent::Let,
            TokenContent::Protocol => SpecTokenContent::Protocol,
            TokenContent::Type => SpecTokenContent::Type,
            TokenContent::Undefined => SpecTokenContent::Undefined,
            TokenContent::Use => SpecTokenContent::Use,
            TokenContent::Pub => SpecTokenContent::Pub,
            TokenContent::With => SpecTokenContent::With,
        }
    }
}

/// A lexed token: its place in the source and its content.
#[derive(Eq, PartialEq, Clone, Debug)]
pub struct Token {
    pub loc: TokenLoc,
    pub con: TokenContent,
}

/// Model of a [`Token`].
pub ghost struct SpecToken {
    pub loc: SpecTokenLoc,
    pub con: SpecTokenContent,
}

impl View for Token {
    type V = SpecToken;

    open spec fn view(&self) -> SpecToken {
        SpecToken { loc: self.loc@, con: self.con@ }
    }
}

} // verus!
