//! The body of the child template is set between the two passes and nowhere
//! else: no construct of the tree touches it.

use crate::emit::Op;
use crate::lemmas::lowering::lemma_contents_frame;
use crate::model::{
    compile_branch, compile_branches, compile_node, compile_nodes, compile_param, compile_params,
    compile_template, emit, first_repeat, State,
};
use crate::node::{ComponentParameter, ComponentParameterValue, Node, Position};
use vstd::prelude::*;

verus! {

/// Compiling a node leaves the body of the child template as it was.
pub proof fn lemma_node_keeps_body(st: State, slot: Option<Seq<Op>>, node: Node, depth: nat)
    ensures
        compile_node(st, slot, node, depth).state.section_body == st.section_body,
    decreases depth, 0nat, 0nat,
{
    if depth > 0 {
        let inner = (depth - 1) as nat;
        match node {
            Node::Template(nodes, _) => lemma_nodes_keep_body(st, slot, nodes@, inner),
            Node::RustBlock(contents, _) => lemma_contents_frame(st, contents@, inner),
            Node::MatchExpr(_, arms, _) => lemma_branches_keep_body(st, slot, arms@, true, inner),
            Node::RustExpr(clauses, _) => lemma_branches_keep_body(
                st,
                slot,
                clauses@,
                false,
                inner,
            ),
            Node::SectionBlock(_, body, _) => lemma_nodes_keep_body(st, slot, body@, inner),
            Node::Component((name, _), params, body, _) => {
                if st.components.contains_key(name@) && first_repeat(params@) is None {
                    lemma_params_keep_body(st, slot, params@, inner);
                    let binds = compile_params(st, slot, params@, inner);
                    if binds.result is Ok {
                        lemma_nodes_keep_body(binds.state, slot, body@, inner);
                        let content = compile_nodes(binds.state, slot, body@, inner);
                        if let Ok(body_ops) = content.result {
                            lemma_node_keeps_body(
                                content.state,
                                Some(body_ops),
                                st.components[name@],
                                inner,
                            );
                        }
                    }
                }
            },
            _ => {},
        }
    }
}

/// Compiling a list of nodes leaves the body of the child template as it was.
pub proof fn lemma_nodes_keep_body(st: State, slot: Option<Seq<Op>>, nodes: Seq<Node>, depth: nat)
    ensures
        compile_nodes(st, slot, nodes, depth).state.section_body == st.section_body,
    decreases depth, 1nat, nodes.len(),
{
    if nodes.len() > 0 {
        lemma_node_keeps_body(st, slot, nodes.first(), depth);
        let first = compile_node(st, slot, nodes.first(), depth);
        if first.result is Ok {
            lemma_nodes_keep_body(first.state, slot, nodes.drop_first(), depth);
        }
    }
}

/// Compiling a branch leaves the body of the child template as it was.
pub proof fn lemma_branch_keeps_body(
    st: State,
    slot: Option<Seq<Op>>,
    branch: ((String, Position), Vec<Node>),
    arm: bool,
    depth: nat,
)
    ensures
        compile_branch(st, slot, branch, arm, depth).state.section_body == st.section_body,
    decreases depth, 2nat, 0nat,
{
    lemma_nodes_keep_body(st, slot, branch.1@, depth);
}

/// Compiling branches leaves the body of the child template as it was.
pub proof fn lemma_branches_keep_body(
    st: State,
    slot: Option<Seq<Op>>,
    branches: Seq<((String, Position), Vec<Node>)>,
    arm: bool,
    depth: nat,
)
    ensures
        compile_branches(st, slot, branches, arm, depth).state.section_body == st.section_body,
    decreases depth, 3nat, branches.len(),
{
    if branches.len() > 0 {
        lemma_branch_keeps_body(st, slot, branches.first(), arm, depth);
        let first = compile_branch(st, slot, branches.first(), arm, depth);
        if first.result is Ok {
            lemma_branches_keep_body(first.state, slot, branches.drop_first(), arm, depth);
        }
    }
}

/// Compiling a parameter leaves the body of the child template as it was.
pub proof fn lemma_param_keeps_body(
    st: State,
    slot: Option<Seq<Op>>,
    param: (ComponentParameter, Position),
    depth: nat,
)
    ensures
        compile_param(st, slot, param, depth).state.section_body == st.section_body,
    decreases depth, 2nat, 0nat,
{
    match param.0.value {
        ComponentParameterValue::Block(nodes) => lemma_nodes_keep_body(st, slot, nodes@, depth),
        _ => {},
    }
}

/// Compiling parameters leaves the body of the child template as it was.
pub proof fn lemma_params_keep_body(
    st: State,
    slot: Option<Seq<Op>>,
    params: Seq<(ComponentParameter, Position)>,
    depth: nat,
)
    ensures
        compile_params(st, slot, params, depth).state.section_body == st.section_body,
    decreases depth, 3nat, params.len(),
{
    if params.len() > 0 {
        lemma_param_keeps_body(st, slot, params.first(), depth);
        let first = compile_param(st, slot, params.first(), depth);
        if first.result is Ok {
            lemma_params_keep_body(first.state, slot, params.drop_first(), depth);
        }
    }
}

/// A template that extends no layout leaves no body behind: whatever state
/// without a body it was compiled in, the state it leaves has none either,
/// and a `RenderBody` compiled there emits nothing.
pub proof fn lemma_no_layout_no_body(
    st: State,
    template: Node,
    depth: nat,
    slot: Option<Seq<Op>>,
    position: Position,
    later: nat,
)
    requires
        st.section_body is None,
        compile_node(st, None, template, depth).state.layout is None,
        later > 0,
    ensures
        compile_template(st, template, depth) == compile_node(st, None, template, depth),
        compile_template(st, template, depth).state.section_body is None,
        compile_node(
            compile_template(st, template, depth).state,
            slot,
            Node::RenderBody(position),
            later,
        ) == emit(compile_template(st, template, depth).state, Seq::empty()),
{
    lemma_node_keeps_body(st, None, template, depth);
}

} // verus!
