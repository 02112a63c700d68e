//! The AST node types produced by parsing. Every node carries a [`Loc`]:
//! a half-open character range into the source. Nodes have no behaviour
//! beyond structural queries; the tree is immutable once built.

use crate::ast::{SpecTokenLoc, TokenLoc};
use vstd::prelude::*;

verus! {

/// A half-open character range of a node in the source.
#[derive(Eq, PartialEq, Structural, Clone, Copy, Debug)]
pub struct Loc {
    pub start: u32,
    pub end: u32,
}

/// Mathematical model of a [`Loc`].
pub ghost struct SpecLoc {
    pub start: int,
    pub end: int,
}

impl View for Loc {
    type V = SpecLoc;

    open spec fn view(&self) -> SpecLoc {
        SpecLoc { start: self.start as int, end: self.end as int }
    }
}

/// The node range covered by a token: from its first character to just
/// past its last.
pub open spec fn spec_loc_of_token(l: SpecTokenLoc) -> SpecLoc {
    SpecLoc { start: l.starts_at, end: l.starts_at + l.len }
}

impl Loc {
    /// The range covered by one token.
    pub fn from_token(l: TokenLoc) -> (r: Loc)
        requires
            l@.starts_at + l@.len <= u32::MAX,
        ensures
            r@ == spec_loc_of_token(l@),
    {
        Loc { start: l.starts_at, end: l.starts_at + l.len }
    }
}

/// A node that carries a [`Loc`] as one of its members.
pub trait HasLoc {
    /// The range of this node, as the contracts see it.
    spec fn spec_loc(&self) -> SpecLoc;

    /// The range of this node.
    fn loc(&self) -> (l: Loc)
        ensures
            l@ == self.spec_loc(),
    ;
}

/// A brace-delimited composite value.
#[derive(Eq, PartialEq, Clone, Debug)]
pub struct NodeStructured {
    pub loc: Loc,
}

pub ghost struct SpecNodeStructured {
    pub loc: SpecLoc,
}

impl View for NodeStructured {
    type V = SpecNodeStructured;

    open spec fn view(&self) -> SpecNodeStructured {
        SpecNodeStructured { loc: self.loc@ }
    }
}

/// A numeric literal value.
#[derive(Eq, PartialEq, Clone, Debug)]
pub struct NodeNumberLiteral {
    pub loc: Loc,
}

pub ghost struct SpecNodeNumberLiteral {
    pub loc: SpecLoc,
}

impl View for NodeNumberLiteral {
    type V = SpecNodeNumberLiteral;

    open spec fn view(&self) -> SpecNodeNumberLiteral {
        SpecNodeNumberLiteral { loc: self.loc@ }
    }
}

/// A string literal value.
#[derive(Eq, PartialEq, Clone, Debug)]
pub struct NodeStringLiteral {
    pub loc: Loc,
    pub value: String,
}

pub ghost struct SpecNodeStringLiteral {
    pub loc: SpecLoc,
    pub value: Seq<char>,
}

impl View for NodeStringLiteral {
    type V = SpecNodeStringLiteral;

    open spec fn view(&self) -> SpecNodeStringLiteral {
        SpecNodeStringLiteral { loc: self.loc@, value: self.value@ }
    }
}

/// An array of values.
#[derive(Eq, PartialEq, Debug)]
pub struct NodeArray {
    pub values: Vec<NodeValue>,
}

pub ghost struct SpecNodeArray {
    pub values: Seq<SpecNodeValue>,
}

/// An empty block value.
#[derive(Eq, PartialEq, Clone, Debug)]
pub struct NodeBlock {}

/// The right-hand-side grammar for bindings.
#[derive(Eq, PartialEq, Debug)]
pub enum NodeValue {
    Structured(NodeStructured),
    Array(NodeArray),
    StringLiteral(NodeStringLiteral),
    NumberLiteral(NodeNumberLiteral),
    Identifier(NodeIdentifier),
    Block,
}

pub ghost enum SpecNodeValue {
    Structured(SpecNodeStructured),
    Array(SpecNodeArray),
    StringLiteral(SpecNodeStringLiteral),
    NumberLiteral(SpecNodeNumberLiteral),
    Identifier(SpecNodeIdentifier),
    Block,
}

/// The model of one value node; arrays carry the models of their
/// elements in order.
pub open spec fn spec_value_view(v: NodeValue) -> SpecNodeValue
    decreases v,
{
    match v {
        NodeValue::Structured(n) => SpecNodeValue::Structured(n@),
        NodeValue::Array(n) => SpecNodeValue::Array(
            SpecNodeArray { values: spec_values_view(n.values@) },
        ),
        NodeValue::StringLiteral(n) => SpecNodeValue::StringLiteral(n@),
        NodeValue::NumberLiteral(n) => SpecNodeValue::NumberLiteral(n@),
        NodeValue::Identifier(n) => SpecNodeValue::Identifier(n@),
        NodeValue::Block => SpecNodeValue::Block,
    }
}

/// The models of a sequence of value nodes, element by element.
pub open spec fn spec_values_view(s: Seq<NodeValue>) -> Seq<SpecNodeValue>
    decreases s,
{
    if s.len() == 0 {
        Seq::empty()
    } else {
        spec_values_view(s.drop_last()).push(spec_value_view(s.last()))
    }
}

impl View for NodeValue {
    type V = SpecNodeValue;

    open spec fn view(&self) -> SpecNodeValue {
        spec_value_view(*self)
    }
}

/// A view element node of the early tag grammar; kept for structural
/// queries only.
pub struct NodeViewElement {
    loc: Loc,
}

impl HasLoc for NodeViewElement {
    closed spec fn spec_loc(&self) -> SpecLoc {
        self.loc@
    }

    fn loc(&self) -> (l: Loc) {
        self.loc
    }
}

/// A name appearing in the source.
#[derive(Eq, PartialEq, Clone, Debug)]
pub struct NodeIdentifier {
    pub value: String,
    pub loc: Loc,
}

pub ghost struct SpecNodeIdentifier {
    pub value: Seq<char>,
    pub loc: SpecLoc,
}

impl View for NodeIdentifier {
    type V = SpecNodeIdentifier;

    open spec fn view(&self) -> SpecNodeIdentifier {
        SpecNodeIdentifier { value: self.value@, loc: self.loc@ }
    }
}

impl HasLoc for NodeIdentifier {
    open spec fn spec_loc(&self) -> SpecLoc {
        self.loc@
    }

    fn loc(&self) -> (l: Loc) {
        self.loc
    }
}

/// A parameter of a binding.
#[derive(Eq, PartialEq, Clone, Debug)]
pub struct NodeParameter {
    pub loc: Loc,
}

impl HasLoc for NodeParameter {
    open spec fn spec_loc(&self) -> SpecLoc {
        self.loc@
    }

    fn loc(&self) -> (l: Loc) {
        self.loc
    }
}

/// The `=` of a binding.
#[derive(Eq, PartialEq, Clone, Debug)]
pub struct NodeAssignmentOp {
    pub loc: Loc,
}

impl HasLoc for NodeAssignmentOp {
    open spec fn spec_loc(&self) -> SpecLoc {
        self.loc@
    }

    fn loc(&self) -> (l: Loc) {
        self.loc
    }
}

/// A named constant binding, spanning from its introducing keyword to
/// the end of its value.
#[derive(Eq, PartialEq, Clone, Debug)]
pub struct NodeConst {
    pub name: NodeIdentifier,
    pub loc: Loc,
}

pub ghost struct SpecNodeConst {
    pub name: SpecNodeIdentifier,
    pub loc: SpecLoc,
}

impl View for NodeConst {
    type V = SpecNodeConst;

    open spec fn view(&self) -> SpecNodeConst {
        SpecNodeConst { name: self.name@, loc: self.loc@ }
    }
}

impl HasLoc for NodeConst {
    open spec fn spec_loc(&self) -> SpecLoc {
        self.loc@
    }

    fn loc(&self) -> (l: Loc) {
        self.loc
    }
}

/// A view-element declaration, spanning its whole tag tree.
#[derive(Eq, PartialEq, Clone, Debug)]
pub struct NodeView {
    pub loc: Loc,
}

pub ghost struct SpecNodeView {
    pub loc: SpecLoc,
}

impl View for NodeView {
    type V = SpecNodeView;

    open spec fn view(&self) -> SpecNodeView {
        SpecNodeView { loc: self.loc@ }
    }
}

impl HasLoc for NodeView {
    open spec fn spec_loc(&self) -> SpecLoc {
        self.loc@
    }

    fn loc(&self) -> (l: Loc) {
        self.loc
    }
}

/// A node that can stand in a module's declaration list.
#[derive(Eq, PartialEq, Clone, Debug)]
pub enum NodeScoped {
    Const(NodeConst),
    View(NodeView),
}

pub ghost enum SpecNodeScoped {
    Const(SpecNodeConst),
    View(SpecNodeView),
}

impl View for NodeScoped {
    type V = SpecNodeScoped;

    open spec fn view(&self) -> SpecNodeScoped {
        match self {
            NodeScoped::Const(n) => SpecNodeScoped::Const(n@),
            NodeScoped::View(n) => SpecNodeScoped::View(n@),
        }
    }
}

impl HasLoc for NodeScoped {
    open spec fn spec_loc(&self) -> SpecLoc {
        match self {
            NodeScoped::Const(i) => i.spec_loc(),
            NodeScoped::View(i) => i.spec_loc(),
        }
    }

    fn loc(&self) -> (l: Loc) {
        match self {
            NodeScoped::Const(i) => i.loc(),
            NodeScoped::View(i) => i.loc(),
        }
    }
}

/// A module: an ordered sequence of declarations.
#[derive(Eq, PartialEq, Clone, Debug)]
pub struct NodeModule {
    pub loc: Loc,
    pub name: String,
    pub nodes: Vec<NodeScoped>,
}

pub ghost struct SpecNodeModule {
    pub loc: SpecLoc,
    pub name: Seq<char>,
    pub nodes: Seq<SpecNodeScoped>,
}

impl View for NodeModule {
    type V = SpecNodeModule;

    open spec fn view(&self) -> SpecNodeModule {
        SpecNodeModule {
            loc: self.loc@,
            name: self.name@,
            nodes: Seq::new(self.nodes@.len(), |i: int| self.nodes@[i]@),
        }
    }
}

impl HasLoc for NodeModule {
    open spec fn spec_loc(&self) -> SpecLoc {
        self.loc@
    }

    fn loc(&self) -> (l: Loc) {
        self.loc
    }
}

/// The root node: one parsed source unit.
#[derive(Eq, PartialEq, Clone, Debug)]
pub struct NodeFile {
    pub loc: Loc,
    pub name: String,
    pub modules: Vec<NodeModule>,
}

pub ghost struct SpecNodeFile {
    pub loc: SpecLoc,
    pub name: Seq<char>,
    pub modules: Seq<SpecNodeModule>,
}

impl View for NodeFile {
    type V = SpecNodeFile;

    open spec fn view(&self) -> SpecNodeFile {
        SpecNodeFile {
            loc: self.loc@,
            name: self.name@,
            modules: Seq::new(self.modules@.len(), |i: int| self.modules@[i]@),
        }
    }
}

impl HasLoc for NodeFile {
    open spec fn spec_loc(&self) -> SpecLoc {
        self.loc@
    }

    fn loc(&self) -> (l: Loc) {
        self.loc
    }
}

} // verus!
