//! Lowering of code blocks: code, text lines, text blocks and nested blocks.

use crate::compiler::{in_scope, outcome, Compiler, Emitted};
use crate::emit::{EmissionOps, EmitOp};
use crate::error::{CompileError, Reason};
use crate::model::{
    after, lemma_after_after, lemma_after_done, lemma_after_nothing, lower_block_items,
    lower_content, lower_contents, lower_line_items,
};
use crate::node::{RustBlockContent, TextBlockItem, TextLineItem};
use vstd::prelude::*;

verus! {

/// Compiles the contents of a code block.
pub struct RustBlockCompiler;

impl RustBlockCompiler {
    /// Lowers the pieces of a code block in order, within the nesting limit of
    /// the compiler. The first failure ends the lowering.
    pub fn compile(compiler: &mut Compiler, contents: &Vec<RustBlockContent>) -> (r: Emitted)
        requires
            old(compiler).wf(),
        ensures
            final(compiler).wf(),
            final(compiler).nesting_limit() == old(compiler).nesting_limit(),
            outcome(final(compiler)@, r) == lower_contents(
                old(compiler)@,
                contents@,
                old(compiler).nesting_limit(),
            ),
    {
        let depth = compiler.depth_limit();
        Self::lower(compiler, contents, depth)
    }

    /// Lowers the pieces of a code block with `depth` levels of nesting left.
    pub(crate) fn lower(
        compiler: &mut Compiler,
        contents: &Vec<RustBlockContent>,
        depth: usize,
    ) -> (r: Emitted)
        requires
            old(compiler).wf(),
        ensures
            final(compiler).wf(),
            final(compiler).nesting_limit() == old(compiler).nesting_limit(),
            outcome(final(compiler)@, r) == lower_contents(old(compiler)@, contents@, depth as nat),
        decreases depth, 1 + contents.len(),
    {
        let mut out = EmissionOps::new();
        let n = contents.len();
        let mut i: usize = 0;
        proof {
            assert(contents@.skip(0) =~= contents@);
            lemma_after_nothing(lower_contents(compiler@, contents@, depth as nat));
        }
        while i < n
            invariant
                n == contents.len(),
                i <= n,
                compiler.wf(),
                compiler.nesting_limit() == old(compiler).nesting_limit(),
                lower_contents(old(compiler)@, contents@, depth as nat) == after(
                    out@,
                    lower_contents(compiler@, contents@.skip(i as int), depth as nat),
                ),
            decreases n - i,
        {
            let ghost rest = contents@.skip(i as int);
            assert(rest.first() == contents@[i as int]);
            assert(rest.drop_first() =~= contents@.skip(i + 1));
            match Self::lower_one(compiler, &contents[i], depth) {
                Ok(ops) => {
                    proof {
                        lemma_after_after(
                            out@,
                            ops@,
                            lower_contents(compiler@, contents@.skip(i + 1), depth as nat),
                        );
                    }
                    out.append(ops);
                },
                Err(e) => {
                    return Err(e);
                },
            }
            i = i + 1;
        }
        proof {
            assert(contents@.skip(n as int).len() == 0);
            lemma_after_done(out@, compiler@);
        }
        Ok(out)
    }

    /// Lowers one piece of a code block.
    fn lower_one(
        compiler: &mut Compiler,
        content: &RustBlockContent,
        depth: usize,
    ) -> (r: Emitted)
        requires
            old(compiler).wf(),
        ensures
            final(compiler).wf(),
            final(compiler).nesting_limit() == old(compiler).nesting_limit(),
            outcome(final(compiler)@, r) == lower_content(old(compiler)@, *content, depth as nat),
        decreases depth, 0nat,
    {
        if depth == 0 {
            return Err(
                CompileError { reason: Reason::NestingTooDeep, position: content.position() },
            );
        }
        match content {
            RustBlockContent::Code(code, position) => compiler.splice(
                code,
                *position,
                EmitOp::Code(code.clone()),
            ),
            RustBlockContent::TextLine(items, _) => Self::lower_line(compiler, items),
            RustBlockContent::TextBlock(items, _) => Self::lower_block(compiler, items),
            RustBlockContent::NestedBlock(inner, _) => {
                match Self::lower(compiler, inner, depth - 1) {
                    Ok(ops) => Ok(in_scope(EmissionOps::new(), ops)),
                    Err(e) => Err(e),
                }
            },
        }
    }

    /// Lowers the items of a text line.
    fn lower_line(compiler: &mut Compiler, items: &Vec<TextLineItem>) -> (r: Emitted)
        requires
            old(compiler).wf(),
        ensures
            final(compiler).wf(),
            final(compiler).nesting_limit() == old(compiler).nesting_limit(),
            outcome(final(compiler)@, r) == lower_line_items(old(compiler)@, items@),
    {
        let mut out = EmissionOps::new();
        let n = items.len();
        let mut i: usize = 0;
        proof {
            assert(items@.skip(0) =~= items@);
            lemma_after_nothing(lower_line_items(compiler@, items@));
        }
        while i < n
            invariant
                n == items.len(),
                i <= n,
                compiler.wf(),
                compiler.nesting_limit() == old(compiler).nesting_limit(),
                lower_line_items(old(compiler)@, items@) == after(
                    out@,
                    lower_line_items(compiler@, items@.skip(i as int)),
                ),
            decreases n - i,
        {
            let ghost rest = items@.skip(i as int);
            assert(rest.first() == items@[i as int]);
            assert(rest.drop_first() =~= items@.skip(i + 1));
            let lowered = match &items[i] {
                TextLineItem::Text(text, _) => compiler.write_literal(text),
                TextLineItem::RustExprSimple(expr, is_escaped, position) => compiler.write_expr(
                    expr,
                    *is_escaped,
                    *position,
                ),
            };
            match lowered {
                Ok(ops) => {
                    proof {
                        lemma_after_after(
                            out@,
                            ops@,
                            lower_line_items(compiler@, items@.skip(i + 1)),
                        );
                    }
                    out.append(ops);
                },
                Err(e) => {
                    return Err(e);
                },
            }
            i = i + 1;
        }
        proof {
            assert(items@.skip(n as int).len() == 0);
            lemma_after_done(out@, compiler@);
        }
        Ok(out)
    }

    /// Lowers the items of a text block.
    fn lower_block(compiler: &mut Compiler, items: &Vec<TextBlockItem>) -> (r: Emitted)
        requires
            old(compiler).wf(),
        ensures
            final(compiler).wf(),
            final(compiler).nesting_limit() == old(compiler).nesting_limit(),
            outcome(final(compiler)@, r) == lower_block_items(old(compiler)@, items@),
    {
        let mut out = EmissionOps::new();
        let n = items.len();
        let mut i: usize = 0;
        proof {
            assert(items@.skip(0) =~= items@);
            lemma_after_nothing(lower_block_items(compiler@, items@));
        }
        while i < n
            invariant
                n == items.len(),
                i <= n,
                compiler.wf(),
                compiler.nesting_limit() == old(compiler).nesting_limit(),
                lower_block_items(old(compiler)@, items@) == after(
                    out@,
                    lower_block_items(compiler@, items@.skip(i as int)),
                ),
            decreases n - i,
        {
            let ghost rest = items@.skip(i as int);
            assert(rest.first() == items@[i as int]);
            assert(rest.drop_first() =~= items@.skip(i + 1));
            let lowered = match &items[i] {
                TextBlockItem::Text(text, _) => compiler.write_literal(text),
                TextBlockItem::RustExprSimple(expr, is_escaped, position) => compiler.write_expr(
                    expr,
                    *is_escaped,
                    *position,
                ),
            };
            match lowered {
                Ok(ops) => {
                    proof {
                        lemma_after_after(
                            out@,
                            ops@,
                            lower_block_items(compiler@, items@.skip(i + 1)),
                        );
                    }
                    out.append(ops);
                },
                Err(e) => {
                    return Err(e);
                },
            }
            i = i + 1;
        }
        proof {
            assert(items@.skip(n as int).len() == 0);
            lemma_after_done(out@, compiler@);
        }
        Ok(out)
    }
}

} // verus!
