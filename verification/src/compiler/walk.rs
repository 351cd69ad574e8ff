//! The walk over the tree: each node is handed to what compiles its kind.

use crate::compiler::rust_block::RustBlockCompiler;
use crate::compiler::section_directive::SectionDirectiveCompiler;
use crate::compiler::{in_scope, outcome, slot_view, Compiler, Emitted};
use crate::emit::{EmissionOps, EmitOp};
use crate::error::{CompileError, Reason};
use crate::fragment::check_fragment;
use crate::model::{
    after, compile_branch, compile_branches, compile_node, compile_nodes, compile_param,
    compile_params, first_repeat, lemma_after_after, lemma_after_done, lemma_after_nothing,
    repeats_earlier,
};
use crate::node::{ComponentParameter, ComponentParameterValue, Node, Position};
use vstd::prelude::*;

verus! {

/// The index of the first parameter that carries the name of an earlier one.
pub fn find_repeat(params: &Vec<(ComponentParameter, Position)>) -> (r: Option<usize>)
    ensures
        match r {
            Some(j) => first_repeat(params@) == Some(j as int) && j < params.len(),
            None => first_repeat(params@) is None,
        },
{
    let n = params.len();
    let mut j: usize = 0;
    assert(params@.take(0).len() == 0);
    while j < n
        invariant
            n == params.len(),
            j <= n,
            first_repeat(params@.take(j as int)) is None,
        decreases n - j,
    {
        let ghost upto = params@.take(j + 1);
        assert(upto.drop_last() =~= params@.take(j as int));
        let mut i: usize = 0;
        let mut found = false;
        while i < j
            invariant_except_break
                !found,
                forall|k: int| 0 <= k < i ==> params[k].0.name@ != params[j as int].0.name@,
            invariant
                n == params.len(),
                j < n,
                i <= j,
            ensures
                found ==> repeats_earlier(params@, j as int),
                !found ==> !repeats_earlier(params@, j as int),
            decreases j - i,
        {
            if params[i].0.name == params[j].0.name {
                found = true;
                assert(params@[i as int].0.name@ == params@[j as int].0.name@);
                break ;
            }
            i = i + 1;
        }
        assert(repeats_earlier(upto, j as int) == repeats_earlier(params@, j as int)) by {
            if repeats_earlier(params@, j as int) {
                let k = choose|k: int|
                    0 <= k < j && #[trigger] params@[k].0.name@ == params@[j as int].0.name@;
                assert(upto[k].0.name@ == upto[j as int].0.name@);
            }
            if repeats_earlier(upto, j as int) {
                let k = choose|k: int|
                    0 <= k < j && #[trigger] upto[k].0.name@ == upto[j as int].0.name@;
                assert(params@[k].0.name@ == params@[j as int].0.name@);
            }
        }
        if found {
            proof {
                lemma_first_repeat_prefix(params@, j + 1);
            }
            return Some(j);
        }
        j = j + 1;
    }
    assert(params@.take(n as int) =~= params@);
    None
}

/// A repeat found among the first `n` parameters is the first repeat of all.
pub proof fn lemma_first_repeat_prefix(params: Seq<(ComponentParameter, Position)>, n: int)
    requires
        0 <= n <= params.len(),
        first_repeat(params.take(n)) is Some,
    ensures
        first_repeat(params) == first_repeat(params.take(n)),
    decreases params.len() - n,
{
    if n < params.len() {
        let longer = params.take(n + 1);
        assert(longer.drop_last() =~= params.take(n));
        lemma_first_repeat_prefix(params, n + 1);
    } else {
        assert(params.take(n) =~= params);
    }
}

impl<'a> Compiler<'a> {
    /// Compiles one node with `depth` levels of nesting left.
    pub(crate) fn compile_at(
        &mut self,
        node: &'a Node,
        slot: Option<&EmissionOps>,
        depth: usize,
    ) -> (r: Emitted)
        requires
            old(self).wf(),
        ensures
            final(self).wf(),
            final(self).nesting_limit() == old(self).nesting_limit(),
            outcome(final(self)@, r) == compile_node(
                old(self)@,
                slot_view(slot),
                *node,
                depth as nat,
            ),
        decreases depth, 0nat, 0nat,
    {
        if depth == 0 {
            return Err(CompileError { reason: Reason::NestingTooDeep, position: node.position() });
        }
        let inner = depth - 1;
        match node {
            Node::Template(nodes, _) => self.compile_nodes_at(nodes, slot, inner),
            Node::Text(text, _) => self.write_literal(text),
            Node::InnerText(text, _) => self.write_literal(text),
            Node::Comment(_, _) => Ok(EmissionOps::new()),
            Node::ExtendsDirective((path, _), layout, position) => self.declare_layout(
                path,
                layout,
                *position,
            ),
            Node::RenderDirective(name, _) => Ok(self.render_section(name)),
            Node::RustBlock(contents, _) => RustBlockCompiler::lower(self, contents, inner),
            Node::RustExprSimple(expr, is_escaped, position) => self.write_expr(
                expr,
                *is_escaped,
                *position,
            ),
            Node::RustExprParen(expr, is_escaped, position) => self.write_expr(
                expr,
                *is_escaped,
                *position,
            ),
            Node::MatchExpr((head, head_position), arms, _) => {
                match check_fragment(head.as_str(), *head_position) {
                    Ok(_) => match self.compile_branches_at(arms, slot, true, inner) {
                        Ok(ops) => Ok(
                            in_scope(EmissionOps::single(EmitOp::Match(head.clone())), ops),
                        ),
                        Err(e) => Err(e),
                    },
                    Err(e) => Err(e),
                }
            },
            Node::RustExpr(clauses, _) => self.compile_branches_at(clauses, slot, false, inner),
            Node::SectionDirective((name, _), (content, content_position), _) => {
                SectionDirectiveCompiler::compile(self, name.as_str(), content, content_position)
            },
            Node::SectionBlock((name, _), body, _) => {
                match self.compile_nodes_at(body, slot, inner) {
                    Ok(ops) => Ok(self.register_section(name.clone(), ops)),
                    Err(e) => Err(e),
                }
            },
            Node::RenderBody(_) => Ok(self.render_body()),
            Node::Component((name, name_position), params, body, _) => {
                match self.component(name) {
                    None => Err(
                        CompileError {
                            reason: Reason::UnresolvedComponent,
                            position: *name_position,
                        },
                    ),
                    Some(component) => match find_repeat(params) {
                        Some(j) => Err(
                            CompileError {
                                reason: Reason::ProtocolViolation,
                                position: params[j].1,
                            },
                        ),
                        None => match self.compile_params_at(params, slot, inner) {
                            Ok(bind_ops) => match self.compile_nodes_at(body, slot, inner) {
                                Ok(body_ops) => match self.compile_at(
                                    component,
                                    Some(&body_ops),
                                    inner,
                                ) {
                                    Ok(ops) => {
                                        let mut all = bind_ops;
                                        all.append(ops);
                                        Ok(in_scope(EmissionOps::new(), all))
                                    },
                                    Err(e) => Err(e),
                                },
                                Err(e) => Err(e),
                            },
                            Err(e) => Err(e),
                        },
                    },
                }
            },
            Node::ChildContent(_) => Ok(
                match slot {
                    Some(ops) => ops.clone(),
                    None => EmissionOps::new(),
                },
            ),
            Node::Raw(text, _) => self.write_literal(text),
            Node::UseDirective(alias, (path, _), component, _) => Ok(
                self.register_component(alias, path, component),
            ),
            Node::ContinueDirective(_) => Ok(EmissionOps::single(EmitOp::Continue)),
            Node::BreakDirective(_) => Ok(EmissionOps::single(EmitOp::Break)),
        }
    }

    /// Compiles the nodes of a list in source order, up to the first failure.
    pub(crate) fn compile_nodes_at(
        &mut self,
        nodes: &'a Vec<Node>,
        slot: Option<&EmissionOps>,
        depth: usize,
    ) -> (r: Emitted)
        requires
            old(self).wf(),
        ensures
            final(self).wf(),
            final(self).nesting_limit() == old(self).nesting_limit(),
            outcome(final(self)@, r) == compile_nodes(
                old(self)@,
                slot_view(slot),
                nodes@,
                depth as nat,
            ),
        decreases depth, 1nat, nodes.len(),
    {
        let mut out = EmissionOps::new();
        let n = nodes.len();
        let mut i: usize = 0;
        proof {
            assert(nodes@.skip(0) =~= nodes@);
            lemma_after_nothing(compile_nodes(self@, slot_view(slot), nodes@, depth as nat));
        }
        while i < n
            invariant
                n == nodes.len(),
                i <= n,
                self.wf(),
                self.nesting_limit() == old(self).nesting_limit(),
                compile_nodes(old(self)@, slot_view(slot), nodes@, depth as nat) == after(
                    out@,
                    compile_nodes(self@, slot_view(slot), nodes@.skip(i as int), depth as nat),
                ),
            decreases n - i,
        {
            let ghost rest = nodes@.skip(i as int);
            assert(rest.first() == nodes@[i as int]);
            assert(rest.drop_first() =~= nodes@.skip(i + 1));
            match self.compile_at(&nodes[i], slot, depth) {
                Ok(ops) => {
                    proof {
                        lemma_after_after(
                            out@,
                            ops@,
                            compile_nodes(
                                self@,
                                slot_view(slot),
                                nodes@.skip(i + 1),
                                depth as nat,
                            ),
                        );
                    }
                    out.append(ops);
                },
                Err(e) => {
                    return Err(e);
                },
            }
            i = i + 1;
        }
        proof {
            assert(nodes@.skip(n as int).len() == 0);
            lemma_after_done(out@, self@);
        }
        Ok(out)
    }

    /// Compiles one clause of a control expression, or one arm of a match.
    pub(crate) fn compile_branch_at(
        &mut self,
        branch: &'a ((String, Position), Vec<Node>),
        slot: Option<&EmissionOps>,
        arm: bool,
        depth: usize,
    ) -> (r: Emitted)
        requires
            old(self).wf(),
        ensures
            final(self).wf(),
            final(self).nesting_limit() == old(self).nesting_limit(),
            outcome(final(self)@, r) == compile_branch(
                old(self)@,
                slot_view(slot),
                *branch,
                arm,
                depth as nat,
            ),
        decreases depth, 2nat, 0nat,
    {
        match check_fragment(branch.0.0.as_str(), branch.0.1) {
            Ok(_) => match self.compile_nodes_at(&branch.1, slot, depth) {
                Ok(ops) => {
                    let head = if arm {
                        EmitOp::Arm(branch.0.0.clone())
                    } else {
                        EmitOp::Header(branch.0.0.clone())
                    };
                    Ok(in_scope(EmissionOps::single(head), ops))
                },
                Err(e) => Err(e),
            },
            Err(e) => Err(e),
        }
    }

    /// Compiles the clauses of a control expression, or the arms of a match,
    /// in source order up to the first failure.
    pub(crate) fn compile_branches_at(
        &mut self,
        branches: &'a Vec<((String, Position), Vec<Node>)>,
        slot: Option<&EmissionOps>,
        arm: bool,
        depth: usize,
    ) -> (r: Emitted)
        requires
            old(self).wf(),
        ensures
            final(self).wf(),
            final(self).nesting_limit() == old(self).nesting_limit(),
            outcome(final(self)@, r) == compile_branches(
                old(self)@,
                slot_view(slot),
                branches@,
                arm,
                depth as nat,
            ),
        decreases depth, 3nat, branches.len(),
    {
        let mut out = EmissionOps::new();
        let n = branches.len();
        let mut i: usize = 0;
        proof {
            assert(branches@.skip(0) =~= branches@);
            lemma_after_nothing(
                compile_branches(self@, slot_view(slot), branches@, arm, depth as nat),
            );
        }
        while i < n
            invariant
                n == branches.len(),
                i <= n,
                self.wf(),
                self.nesting_limit() == old(self).nesting_limit(),
                compile_branches(old(self)@, slot_view(slot), branches@, arm, depth as nat)
                    == after(
                    out@,
                    compile_branches(
                        self@,
                        slot_view(slot),
                        branches@.skip(i as int),
                        arm,
                        depth as nat,
                    ),
                ),
            decreases n - i,
        {
            let ghost rest = branches@.skip(i as int);
            assert(rest.first() == branches@[i as int]);
            assert(rest.drop_first() =~= branches@.skip(i + 1));
            match self.compile_branch_at(&branches[i], slot, arm, depth) {
                Ok(ops) => {
                    proof {
                        lemma_after_after(
                            out@,
                            ops@,
                            compile_branches(
                                self@,
                                slot_view(slot),
                                branches@.skip(i + 1),
                                arm,
                                depth as nat,
                            ),
                        );
                    }
                    out.append(ops);
                },
                Err(e) => {
                    return Err(e);
                },
            }
            i = i + 1;
        }
        proof {
            assert(branches@.skip(n as int).len() == 0);
            lemma_after_done(out@, self@);
        }
        Ok(out)
    }

    /// Compiles one parameter of a component call into its binding.
    pub(crate) fn compile_param_at(
        &mut self,
        param: &'a (ComponentParameter, Position),
        slot: Option<&EmissionOps>,
        depth: usize,
    ) -> (r: Emitted)
        requires
            old(self).wf(),
        ensures
            final(self).wf(),
            final(self).nesting_limit() == old(self).nesting_limit(),
            outcome(final(self)@, r) == compile_param(
                old(self)@,
                slot_view(slot),
                *param,
                depth as nat,
            ),
        decreases depth, 2nat, 0nat,
    {
        let name = param.0.name.clone();
        match &param.0.value {
            ComponentParameterValue::Bool(b) => Ok(EmissionOps::single(EmitOp::BindBool(name, *b))),
            ComponentParameterValue::Number(n) => Ok(
                EmissionOps::single(EmitOp::BindNumber(name, n.clone())),
            ),
            ComponentParameterValue::String(s) => Ok(
                EmissionOps::single(EmitOp::BindText(name, s.clone())),
            ),
            ComponentParameterValue::RustExprParen(f) => self.splice(
                f,
                param.1,
                EmitOp::BindCode(name, f.clone()),
            ),
            ComponentParameterValue::RustExprSimple(f) => self.splice(
                f,
                param.1,
                EmitOp::BindCode(name, f.clone()),
            ),
            ComponentParameterValue::Block(nodes) => match self.compile_nodes_at(
                nodes,
                slot,
                depth,
            ) {
                Ok(ops) => Ok(in_scope(EmissionOps::single(EmitOp::BindBlock(name)), ops)),
                Err(e) => Err(e),
            },
        }
    }

    /// Compiles the parameters of a component call in source order, up to the
    /// first failure.
    pub(crate) fn compile_params_at(
        &mut self,
        params: &'a Vec<(ComponentParameter, Position)>,
        slot: Option<&EmissionOps>,
        depth: usize,
    ) -> (r: Emitted)
        requires
            old(self).wf(),
        ensures
            final(self).wf(),
            final(self).nesting_limit() == old(self).nesting_limit(),
            outcome(final(self)@, r) == compile_params(
                old(self)@,
                slot_view(slot),
                params@,
                depth as nat,
            ),
        decreases depth, 3nat, params.len(),
    {
        let mut out = EmissionOps::new();
        let n = params.len();
        let mut i: usize = 0;
        proof {
            assert(params@.skip(0) =~= params@);
            lemma_after_nothing(compile_params(self@, slot_view(slot), params@, depth as nat));
        }
        while i < n
            invariant
                n == params.len(),
                i <= n,
                self.wf(),
                self.nesting_limit() == old(self).nesting_limit(),
                compile_params(old(self)@, slot_view(slot), params@, depth as nat) == after(
                    out@,
                    compile_params(self@, slot_view(slot), params@.skip(i as int), depth as nat),
                ),
            decreases n - i,
        {
            let ghost rest = params@.skip(i as int);
            assert(rest.first() == params@[i as int]);
            assert(rest.drop_first() =~= params@.skip(i + 1));
            match self.compile_param_at(&params[i], slot, depth) {
                Ok(ops) => {
                    proof {
                        lemma_after_after(
                            out@,
                            ops@,
                            compile_params(
                                self@,
                                slot_view(slot),
                                params@.skip(i + 1),
                                depth as nat,
                            ),
                        );
                    }
                    out.append(ops);
                },
                Err(e) => {
                    return Err(e);
                },
            }
            i = i + 1;
        }
        proof {
            assert(params@.skip(n as int).len() == 0);
            lemma_after_done(out@, self@);
        }
        Ok(out)
    }
}

} // verus!
