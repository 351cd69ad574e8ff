//! The one-line form of a section: a name and a text or an expression.

use crate::compiler::{outcome, Compiler, Emitted};
use crate::emit::EmissionOps;
use crate::error::CompileError;
use crate::model::{register_section, section_content};
use crate::node::{Position, SectionDirectiveContent};
use vstd::prelude::*;

verus! {

/// Compiles a section directive.
pub struct SectionDirectiveCompiler;

impl SectionDirectiveCompiler {
    /// Compiles the content and registers it as the section of that name, in
    /// place of any earlier registration. Nothing is emitted where the
    /// directive stands. A fragment that cannot be tokenized fails at
    /// `position` and registers nothing.
    pub fn compile(
        compiler: &mut Compiler,
        name: &str,
        content: &SectionDirectiveContent,
        position: &Position,
    ) -> (r: Emitted)
        requires
            old(compiler).wf(),
        ensures
            final(compiler).wf(),
            final(compiler).nesting_limit() == old(compiler).nesting_limit(),
            outcome(final(compiler)@, r) == register_section(
                name@,
                section_content(old(compiler)@, *content, *position),
            ),
    {
        let compiled = match content {
            SectionDirectiveContent::Text(text) => compiler.write_literal(text),
            SectionDirectiveContent::RustExprSimple(expr, is_escaped) => compiler.write_expr(
                expr,
                *is_escaped,
                *position,
            ),
        };
        match compiled {
            Ok(ops) => Ok(compiler.register_section(String::from_str(name), ops)),
            Err(e) => Err(e),
        }
    }
}

} // verus!
