//! Every scope that compilation opens, it closes: the flat sequence of
//! operations is well nested.

use crate::emit::Op;
use crate::lemmas::lowering::{
    lemma_block_items_frame, lemma_content_frame, lemma_contents_frame, lemma_line_items_frame,
};
use crate::model::{
    compile_branch, compile_branches, compile_node, compile_nodes, compile_param, compile_params,
    compile_template, first_repeat, initial_state, lower_block_item, lower_block_items,
    lower_content, lower_contents, lower_line_item, lower_line_items, Outcome, State,
};
use crate::node::{
    ComponentParameter, ComponentParameterValue, Node, Position, RustBlockContent, TextBlockItem,
    TextLineItem,
};
use vstd::prelude::*;

verus! {

/// How many scopes stand open behind the operations when `open` stood open in
/// front of them; nothing if they close a scope that is not open.
pub open spec fn scopes_after(ops: Seq<Op>, open: nat) -> Option<nat>
    decreases ops.len(),
{
    if ops.len() == 0 {
        Some(open)
    } else {
        match ops.first() {
            Op::OpenScope => scopes_after(ops.drop_first(), open + 1),
            Op::CloseScope => if open == 0 {
                None
            } else {
                scopes_after(ops.drop_first(), (open - 1) as nat)
            },
            _ => scopes_after(ops.drop_first(), open),
        }
    }
}

/// The operations close exactly the scopes they open, in order.
pub open spec fn well_nested(ops: Seq<Op>) -> bool {
    scopes_after(ops, 0) == Some(0nat)
}

/// The scopes behind a concatenation are those behind its second part, begun
/// with those behind its first.
pub proof fn lemma_scopes_after_add(a: Seq<Op>, b: Seq<Op>, open: nat)
    ensures
        scopes_after(a + b, open) == match scopes_after(a, open) {
            Some(between) => scopes_after(b, between),
            None => None,
        },
    decreases a.len(),
{
    if a.len() == 0 {
        assert(a + b =~= b);
    } else {
        let all = a + b;
        assert(all.first() == a.first());
        assert(all.drop_first() =~= a.drop_first() + b);
        match a.first() {
            Op::OpenScope => lemma_scopes_after_add(a.drop_first(), b, open + 1),
            Op::CloseScope => {
                if open > 0 {
                    lemma_scopes_after_add(a.drop_first(), b, (open - 1) as nat);
                }
            },
            _ => lemma_scopes_after_add(a.drop_first(), b, open),
        }
    }
}

/// Operations that are well nested leave as many scopes open as they found.
pub proof fn lemma_scopes_after_shift(ops: Seq<Op>, open: nat, more: nat)
    requires
        scopes_after(ops, open) is Some,
    ensures
        scopes_after(ops, open + more) == Some(scopes_after(ops, open)->Some_0 + more),
    decreases ops.len(),
{
    if ops.len() > 0 {
        match ops.first() {
            Op::OpenScope => lemma_scopes_after_shift(ops.drop_first(), open + 1, more),
            Op::CloseScope => {
                lemma_scopes_after_shift(ops.drop_first(), (open - 1) as nat, more);
            },
            _ => lemma_scopes_after_shift(ops.drop_first(), open, more),
        }
    }
}

/// Two well nested sequences, one behind the other, are well nested.
pub proof fn lemma_well_nested_add(a: Seq<Op>, b: Seq<Op>)
    requires
        well_nested(a),
        well_nested(b),
    ensures
        well_nested(a + b),
{
    lemma_scopes_after_add(a, b, 0);
}

/// A well nested sequence in a scope of its own, behind a well nested head, is
/// well nested.
pub proof fn lemma_well_nested_scope(head: Seq<Op>, body: Seq<Op>)
    requires
        well_nested(head),
        well_nested(body),
    ensures
        well_nested(head + seq![Op::OpenScope] + body + seq![Op::CloseScope]),
{
    let opening = seq![Op::OpenScope];
    let closing = seq![Op::CloseScope];
    reveal_with_fuel(scopes_after, 2);
    assert(opening.first() == Op::OpenScope);
    assert(closing.first() == Op::CloseScope);
    assert(opening.drop_first().len() == 0);
    assert(closing.drop_first().len() == 0);
    assert(scopes_after(opening, 0) == Some(1nat));
    assert(scopes_after(closing, 1) == Some(0nat));
    lemma_scopes_after_shift(body, 0, 1);
    lemma_scopes_after_add(head, opening, 0);
    lemma_scopes_after_add(head + opening, body, 0);
    lemma_scopes_after_add(head + opening + body, closing, 0);
}

/// A single operation that neither opens nor closes a scope is well nested.
pub proof fn lemma_well_nested_single(op: Op)
    requires
        op != Op::OpenScope,
        op != Op::CloseScope,
    ensures
        well_nested(seq![op]),
{
    let ops = seq![op];
    reveal_with_fuel(scopes_after, 2);
    assert(ops.first() == op);
    assert(ops.drop_first().len() == 0);
}

/// What the state holds of compiled output is well nested.
pub open spec fn tidy(st: State) -> bool {
    &&& forall|name: Seq<char>| #[trigger]
        st.sections.contains_key(name) ==> well_nested(st.sections[name])
    &&& st.section_body matches Some(ops) ==> well_nested(ops)
}

/// The child content in force, if there is one, is well nested.
pub open spec fn tidy_slot(slot: Option<Seq<Op>>) -> bool {
    slot matches Some(ops) ==> well_nested(ops)
}

/// The state is left tidy, and what was emitted is well nested.
pub open spec fn neat(out: Outcome) -> bool {
    &&& tidy(out.state)
    &&& out.result matches Ok(ops) ==> well_nested(ops)
}

/// Lowering the items of a text line opens and closes no scope.
pub proof fn lemma_line_items_neat(st: State, items: Seq<TextLineItem>)
    requires
        tidy(st),
    ensures
        neat(lower_line_items(st, items)),
    decreases items.len(),
{
    lemma_line_items_frame(st, items);
    if items.len() > 0 {
        let first = lower_line_item(st, items.first());
        if let Ok(ops) = first.result {
            lemma_well_nested_single(ops[0]);
            assert(ops =~= seq![ops[0]]);
            lemma_line_items_neat(first.state, items.drop_first());
            let rest = lower_line_items(first.state, items.drop_first());
            if let Ok(more) = rest.result {
                lemma_well_nested_add(ops, more);
            }
        }
    }
}

/// Lowering the items of a text block opens and closes no scope.
pub proof fn lemma_block_items_neat(st: State, items: Seq<TextBlockItem>)
    requires
        tidy(st),
    ensures
        neat(lower_block_items(st, items)),
    decreases items.len(),
{
    lemma_block_items_frame(st, items);
    if items.len() > 0 {
        let first = lower_block_item(st, items.first());
        if let Ok(ops) = first.result {
            lemma_well_nested_single(ops[0]);
            assert(ops =~= seq![ops[0]]);
            lemma_block_items_neat(first.state, items.drop_first());
            let rest = lower_block_items(first.state, items.drop_first());
            if let Ok(more) = rest.result {
                lemma_well_nested_add(ops, more);
            }
        }
    }
}

/// Lowering one piece of a code block yields well nested operations.
pub proof fn lemma_content_neat(st: State, content: RustBlockContent, depth: nat)
    requires
        tidy(st),
    ensures
        neat(lower_content(st, content, depth)),
    decreases depth, 0nat,
{
    lemma_content_frame(st, content, depth);
    if depth > 0 {
        match content {
            RustBlockContent::Code(code, _) => {
                lemma_well_nested_single(Op::Code(code@));
            },
            RustBlockContent::TextLine(items, _) => lemma_line_items_neat(st, items@),
            RustBlockContent::TextBlock(items, _) => lemma_block_items_neat(st, items@),
            RustBlockContent::NestedBlock(inner, _) => {
                lemma_contents_neat(st, inner@, (depth - 1) as nat);
                let lowered = lower_contents(st, inner@, (depth - 1) as nat);
                if let Ok(ops) = lowered.result {
                    lemma_well_nested_scope(Seq::empty(), ops);
                }
            },
        }
    }
}

/// Lowering the pieces of a code block yields well nested operations.
pub proof fn lemma_contents_neat(st: State, contents: Seq<RustBlockContent>, depth: nat)
    requires
        tidy(st),
    ensures
        neat(lower_contents(st, contents, depth)),
    decreases depth, 1 + contents.len(),
{
    lemma_contents_frame(st, contents, depth);
    if contents.len() > 0 {
        lemma_content_neat(st, contents.first(), depth);
        let first = lower_content(st, contents.first(), depth);
        if let Ok(ops) = first.result {
            lemma_contents_neat(first.state, contents.drop_first(), depth);
            let rest = lower_contents(first.state, contents.drop_first(), depth);
            if let Ok(more) = rest.result {
                lemma_well_nested_add(ops, more);
            }
        }
    }
}

/// Compiling a node in a tidy state, under a well nested child content,
/// leaves the state tidy and yields well nested operations.
pub proof fn lemma_node_neat(st: State, slot: Option<Seq<Op>>, node: Node, depth: nat)
    requires
        tidy(st),
        tidy_slot(slot),
    ensures
        neat(compile_node(st, slot, node, depth)),
    decreases depth, 0nat, 0nat,
{
    if depth > 0 {
        let inner = (depth - 1) as nat;
        match node {
            Node::Template(nodes, _) => lemma_nodes_neat(st, slot, nodes@, inner),
            Node::Text(text, _) => lemma_well_nested_single(Op::Write(text@)),
            Node::InnerText(text, _) => lemma_well_nested_single(Op::Write(text@)),
            Node::Raw(text, _) => lemma_well_nested_single(Op::Write(text@)),
            Node::RustBlock(contents, _) => lemma_contents_neat(st, contents@, inner),
            Node::RustExprSimple(expr, is_escaped, _) => lemma_well_nested_single(
                Op::WriteExpr(expr@, is_escaped),
            ),
            Node::RustExprParen(expr, is_escaped, _) => lemma_well_nested_single(
                Op::WriteExpr(expr@, is_escaped),
            ),
            Node::MatchExpr((head, _), arms, _) => {
                lemma_branches_neat(st, slot, arms@, true, inner);
                let compiled = compile_branches(st, slot, arms@, true, inner);
                if let Ok(ops) = compiled.result {
                    lemma_well_nested_single(Op::Match(head@));
                    lemma_well_nested_scope(seq![Op::Match(head@)], ops);
                }
            },
            Node::RustExpr(clauses, _) => lemma_branches_neat(st, slot, clauses@, false, inner),
            Node::SectionDirective(_, (content, _), _) => {
                match content {
                    crate::node::SectionDirectiveContent::Text(text) => lemma_well_nested_single(
                        Op::Write(text@),
                    ),
                    crate::node::SectionDirectiveContent::RustExprSimple(expr, is_escaped) => {
                        lemma_well_nested_single(Op::WriteExpr(expr@, is_escaped))
                    },
                }
            },
            Node::SectionBlock(_, body, _) => lemma_nodes_neat(st, slot, body@, inner),
            Node::Component((alias, _), params, body, _) => {
                if st.components.contains_key(alias@) && first_repeat(params@) is None {
                    lemma_params_neat(st, slot, params@, inner);
                    let binds = compile_params(st, slot, params@, inner);
                    if let Ok(bind_ops) = binds.result {
                        lemma_nodes_neat(binds.state, slot, body@, inner);
                        let content = compile_nodes(binds.state, slot, body@, inner);
                        if let Ok(body_ops) = content.result {
                            lemma_node_neat(
                                content.state,
                                Some(body_ops),
                                st.components[alias@],
                                inner,
                            );
                            let expanded = compile_node(
                                content.state,
                                Some(body_ops),
                                st.components[alias@],
                                inner,
                            );
                            if let Ok(ops) = expanded.result {
                                lemma_well_nested_add(bind_ops, ops);
                                lemma_well_nested_scope(Seq::empty(), bind_ops + ops);
                            }
                        }
                    }
                }
            },
            Node::ContinueDirective(_) => lemma_well_nested_single(Op::Continue),
            Node::BreakDirective(_) => lemma_well_nested_single(Op::Break),
            _ => {},
        }
    }
}

/// Compiling a list of nodes yields well nested operations.
pub proof fn lemma_nodes_neat(st: State, slot: Option<Seq<Op>>, nodes: Seq<Node>, depth: nat)
    requires
        tidy(st),
        tidy_slot(slot),
    ensures
        neat(compile_nodes(st, slot, nodes, depth)),
    decreases depth, 1nat, nodes.len(),
{
    if nodes.len() > 0 {
        lemma_node_neat(st, slot, nodes.first(), depth);
        let first = compile_node(st, slot, nodes.first(), depth);
        if let Ok(ops) = first.result {
            lemma_nodes_neat(first.state, slot, nodes.drop_first(), depth);
            let rest = compile_nodes(first.state, slot, nodes.drop_first(), depth);
            if let Ok(more) = rest.result {
                lemma_well_nested_add(ops, more);
            }
        }
    }
}

/// Compiling a branch yields well nested operations.
pub proof fn lemma_branch_neat(
    st: State,
    slot: Option<Seq<Op>>,
    branch: ((String, Position), Vec<Node>),
    arm: bool,
    depth: nat,
)
    requires
        tidy(st),
        tidy_slot(slot),
    ensures
        neat(compile_branch(st, slot, branch, arm, depth)),
    decreases depth, 2nat, 0nat,
{
    lemma_nodes_neat(st, slot, branch.1@, depth);
    let body = compile_nodes(st, slot, branch.1@, depth);
    if let Ok(ops) = body.result {
        let head = crate::model::branch_head(branch.0.0@, arm);
        lemma_well_nested_single(head);
        lemma_well_nested_scope(seq![head], ops);
    }
}

/// Compiling branches yields well nested operations.
pub proof fn lemma_branches_neat(
    st: State,
    slot: Option<Seq<Op>>,
    branches: Seq<((String, Position), Vec<Node>)>,
    arm: bool,
    depth: nat,
)
    requires
        tidy(st),
        tidy_slot(slot),
    ensures
        neat(compile_branches(st, slot, branches, arm, depth)),
    decreases depth, 3nat, branches.len(),
{
    if branches.len() > 0 {
        lemma_branch_neat(st, slot, branches.first(), arm, depth);
        let first = compile_branch(st, slot, branches.first(), arm, depth);
        if let Ok(ops) = first.result {
            lemma_branches_neat(first.state, slot, branches.drop_first(), arm, depth);
            let rest = compile_branches(first.state, slot, branches.drop_first(), arm, depth);
            if let Ok(more) = rest.result {
                lemma_well_nested_add(ops, more);
            }
        }
    }
}

/// Compiling a parameter yields well nested operations.
pub proof fn lemma_param_neat(
    st: State,
    slot: Option<Seq<Op>>,
    param: (ComponentParameter, Position),
    depth: nat,
)
    requires
        tidy(st),
        tidy_slot(slot),
    ensures
        neat(compile_param(st, slot, param, depth)),
    decreases depth, 2nat, 0nat,
{
    let name = param.0.name@;
    match param.0.value {
        ComponentParameterValue::Bool(b) => lemma_well_nested_single(Op::BindBool(name, b)),
        ComponentParameterValue::Number(n) => lemma_well_nested_single(Op::BindNumber(name, n@)),
        ComponentParameterValue::String(s) => lemma_well_nested_single(Op::BindText(name, s@)),
        ComponentParameterValue::RustExprParen(f) => lemma_well_nested_single(
            Op::BindCode(name, f@),
        ),
        ComponentParameterValue::RustExprSimple(f) => lemma_well_nested_single(
            Op::BindCode(name, f@),
        ),
        ComponentParameterValue::Block(nodes) => {
            lemma_nodes_neat(st, slot, nodes@, depth);
            let body = compile_nodes(st, slot, nodes@, depth);
            if let Ok(ops) = body.result {
                lemma_well_nested_single(Op::BindBlock(name));
                lemma_well_nested_scope(seq![Op::BindBlock(name)], ops);
            }
        },
    }
}

/// Compiling parameters yields well nested operations.
pub proof fn lemma_params_neat(
    st: State,
    slot: Option<Seq<Op>>,
    params: Seq<(ComponentParameter, Position)>,
    depth: nat,
)
    requires
        tidy(st),
        tidy_slot(slot),
    ensures
        neat(compile_params(st, slot, params, depth)),
    decreases depth, 3nat, params.len(),
{
    if params.len() > 0 {
        lemma_param_neat(st, slot, params.first(), depth);
        let first = compile_param(st, slot, params.first(), depth);
        if let Ok(ops) = first.result {
            lemma_params_neat(first.state, slot, params.drop_first(), depth);
            let rest = compile_params(first.state, slot, params.drop_first(), depth);
            if let Ok(more) = rest.result {
                lemma_well_nested_add(ops, more);
            }
        }
    }
}

/// A template compiled from scratch, with its layout if it has one, yields
/// well nested operations.
pub proof fn lemma_template_neat(template: Node, depth: nat)
    ensures
        neat(compile_template(initial_state(), template, depth)),
{
    let st = initial_state();
    lemma_node_neat(st, None, template, depth);
    let first = compile_node(st, None, template, depth);
    if let Ok(ops) = first.result {
        if let Some(layout) = first.state.layout {
            let second = State { section_body: Some(ops), ..first.state };
            lemma_node_neat(second, None, layout, depth);
        }
    }
}

} // verus!
