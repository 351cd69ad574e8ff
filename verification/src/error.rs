//! Why a compilation was given up, and where.

use crate::node::Position;
use vstd::prelude::*;

verus! {

/// The kinds of failure. Each one ends the compilation of the whole template.
#[derive(Debug, PartialEq, Eq, Clone, Copy)]
pub enum Reason {
    /// A code fragment cannot be broken into tokens.
    MalformedFragment,
    /// The layout protocol is misused: a second `extends`, or a parameter name
    /// given twice in one component call.
    ProtocolViolation,
    /// A component is used that no earlier `use` has registered.
    UnresolvedComponent,
    /// The template nests deeper than the compiler's limit.
    NestingTooDeep,
}

/// A failed compilation: the reason and the span of the offending construct.
#[derive(Debug, PartialEq, Eq, Clone, Copy)]
pub struct CompileError {
    pub reason: Reason,
    pub position: Position,
}

impl Reason {
    /// The description of each kind of failure.
    pub open spec fn text(self) -> Seq<char> {
        match self {
            Reason::MalformedFragment => "Lex Error: cannot parse string into token stream"@,
            Reason::ProtocolViolation => "Protocol Error: conflicting use of a directive"@,
            Reason::UnresolvedComponent => {
                "Component Error: component is used before its use directive"@
            },
            Reason::NestingTooDeep => "Depth Error: template is nested too deeply"@,
        }
    }

    /// A description of the failure for a diagnostic.
    pub fn message(&self) -> (s: String)
        ensures
            s@ == self.text(),
    {
        match self {
            Reason::MalformedFragment => String::from_str(
                "Lex Error: cannot parse string into token stream",
            ),
            Reason::ProtocolViolation => String::from_str(
                "Protocol Error: conflicting use of a directive",
            ),
            Reason::UnresolvedComponent => String::from_str(
                "Component Error: component is used before its use directive",
            ),
            Reason::NestingTooDeep => String::from_str(
                "Depth Error: template is nested too deeply",
            ),
        }
    }
}

} // verus!
