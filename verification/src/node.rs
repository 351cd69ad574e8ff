//! The syntax tree of a template, as the parser hands it over.

use std::path::PathBuf;
use vstd::prelude::*;

verus! {

/// `std::path::PathBuf`, carried through the tree as an opaque value.
#[verifier::external_type_specification]
#[verifier::external_body]
pub struct ExPathBuf(PathBuf);

/// A source span: start `(line, column)` and end `(line, column)`.
#[derive(Debug, PartialEq, Eq, Clone, Copy)]
pub struct Position(pub (usize, usize), pub (usize, usize));

impl Default for Position {
    /// The span from line 0, column 0 to line 0, column 0.
    fn default() -> (p: Position)
        ensures
            p == Position((0, 0), (0, 0)),
    {
        Position((0, 0), (0, 0))
    }
}

/// One item of a multi-line text inside a code block.
#[derive(Debug, Clone, PartialEq)]
pub enum TextBlockItem {
    /// Literal text.
    Text(String, Position),
    /// A spliced expression and its escape flag.
    RustExprSimple(String, bool, Position),
}

/// One item of a single-line text inside a code block.
#[derive(Debug, Clone, PartialEq)]
pub enum TextLineItem {
    /// Literal text.
    Text(String, Position),
    /// A spliced expression and its escape flag.
    RustExprSimple(String, bool, Position),
}

/// One piece of a code block.
#[derive(Debug, PartialEq)]
pub enum RustBlockContent {
    /// Code, passed through as it stands.
    Code(String, Position),
    /// A text on one line.
    TextLine(Vec<TextLineItem>, Position),
    /// A text over several lines.
    TextBlock(Vec<TextBlockItem>, Position),
    /// A block inside the block, with a scope of its own.
    NestedBlock(Vec<RustBlockContent>, Position),
}

/// The content of the one-line form of a section.
#[derive(Debug, PartialEq, Clone)]
pub enum SectionDirectiveContent {
    /// Literal text.
    Text(String),
    /// An expression and its escape flag.
    RustExprSimple(String, bool),
}

/// The value given to a parameter of a component.
#[derive(Debug, PartialEq)]
pub enum ComponentParameterValue {
    Bool(bool),
    /// A number, kept as the lexeme it was written with.
    Number(String),
    String(String),
    /// A code fragment that was written in parentheses.
    RustExprParen(String),
    /// A code fragment that was written bare.
    RustExprSimple(String),
    /// A sub-template.
    Block(Vec<Node>),
}

/// A parameter of a component call: a name and the value bound to it.
#[derive(Debug, PartialEq)]
pub struct ComponentParameter {
    pub name: String,
    pub value: ComponentParameterValue,
}

/// A construct of a template. Every variant ends with the span of the
/// construct; a name or a fragment that can be at fault carries its own.
#[derive(Debug, PartialEq)]
pub enum Node {
    /// A template: its children, in source order.
    Template(Vec<Node>, Position),
    /// Literal text.
    Text(String, Position),
    /// Literal text inside a block, with the escapes of block delimiters
    /// already resolved.
    InnerText(String, Position),
    /// A comment; it compiles to nothing.
    Comment(String, Position),
    /// The template extends a layout: the path and the parsed layout.
    ExtendsDirective((PathBuf, Position), Box<Node>, Position),
    /// The place where a layout puts the section of that name.
    RenderDirective(String, Position),
    /// A code block.
    RustBlock(Vec<RustBlockContent>, Position),
    /// An expression written bare, and its escape flag.
    RustExprSimple(String, bool, Position),
    /// An expression written in parentheses, and its escape flag.
    RustExprParen(String, bool, Position),
    /// A match: the scrutinee and the arms, each a pattern and a body.
    MatchExpr((String, Position), Vec<((String, Position), Vec<Node>)>, Position),
    /// A chain of control clauses (`if`, `else if`, `else`, or one loop), each
    /// a header and a body.
    RustExpr(Vec<((String, Position), Vec<Node>)>, Position),
    /// A section given on one line: its name and its content.
    SectionDirective((String, Position), (SectionDirectiveContent, Position), Position),
    /// A section given as a block: its name and its body.
    SectionBlock((String, Position), Vec<Node>, Position),
    /// The place where a layout puts the body of the child template.
    RenderBody(Position),
    /// A component call: the name, the parameters and the child content.
    Component((String, Position), Vec<(ComponentParameter, Position)>, Vec<Node>, Position),
    /// The place where a component puts the child content of its call.
    ChildContent(Position),
    /// Markup that is trusted and written as it stands.
    Raw(String, Position),
    /// A component made known under an alias: the alias, the path and the
    /// parsed component.
    UseDirective(String, (PathBuf, Position), Box<Node>, Position),
    /// `continue` for the enclosing loop.
    ContinueDirective(Position),
    /// `break` for the enclosing loop.
    BreakDirective(Position),
}

impl Node {
    /// The span that the parser attached to this node.
    pub open spec fn spec_position(&self) -> Position {
        match self {
            Node::Template(_, p) => *p,
            Node::Text(_, p) => *p,
            Node::InnerText(_, p) => *p,
            Node::Comment(_, p) => *p,
            Node::ExtendsDirective(_, _, p) => *p,
            Node::RenderDirective(_, p) => *p,
            Node::RustBlock(_, p) => *p,
            Node::RustExprSimple(_, _, p) => *p,
            Node::RustExprParen(_, _, p) => *p,
            Node::MatchExpr(_, _, p) => *p,
            Node::RustExpr(_, p) => *p,
            Node::SectionDirective(_, _, p) => *p,
            Node::SectionBlock(_, _, p) => *p,
            Node::RenderBody(p) => *p,
            Node::Component(_, _, _, p) => *p,
            Node::ChildContent(p) => *p,
            Node::Raw(_, p) => *p,
            Node::UseDirective(_, _, _, p) => *p,
            Node::ContinueDirective(p) => *p,
            Node::BreakDirective(p) => *p,
        }
    }

    #[verifier::when_used_as_spec(spec_position)]
    pub fn position(&self) -> (p: Position)
        ensures
            p == self.spec_position(),
    {
        match self {
            Node::Template(_, p) => *p,
            Node::Text(_, p) => *p,
            Node::InnerText(_, p) => *p,
            Node::Comment(_, p) => *p,
            Node::ExtendsDirective(_, _, p) => *p,
            Node::RenderDirective(_, p) => *p,
            Node::RustBlock(_, p) => *p,
            Node::RustExprSimple(_, _, p) => *p,
            Node::RustExprParen(_, _, p) => *p,
            Node::MatchExpr(_, _, p) => *p,
            Node::RustExpr(_, p) => *p,
            Node::SectionDirective(_, _, p) => *p,
            Node::SectionBlock(_, _, p) => *p,
            Node::RenderBody(p) => *p,
            Node::Component(_, _, _, p) => *p,
            Node::ChildContent(p) => *p,
            Node::Raw(_, p) => *p,
            Node::UseDirective(_, _, _, p) => *p,
            Node::ContinueDirective(p) => *p,
            Node::BreakDirective(p) => *p,
        }
    }
}

impl RustBlockContent {
    /// The span that the parser attached to this piece.
    pub open spec fn spec_position(&self) -> Position {
        match self {
            RustBlockContent::Code(_, p) => *p,
            RustBlockContent::TextLine(_, p) => *p,
            RustBlockContent::TextBlock(_, p) => *p,
            RustBlockContent::NestedBlock(_, p) => *p,
        }
    }

    #[verifier::when_used_as_spec(spec_position)]
    pub fn position(&self) -> (p: Position)
        ensures
            p == self.spec_position(),
    {
        match self {
            RustBlockContent::Code(_, p) => *p,
            RustBlockContent::TextLine(_, p) => *p,
            RustBlockContent::TextBlock(_, p) => *p,
            RustBlockContent::NestedBlock(_, p) => *p,
        }
    }
}

} // verus!
