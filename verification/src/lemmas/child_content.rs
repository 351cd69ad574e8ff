//! The child content of a component call appears where the component asks for
//! it, and nowhere else.

use crate::emit::Op;
use crate::lemmas::lists::{
    followed_by, lemma_compile_nodes_single, lemma_compile_nodes_split, then_node,
};
use crate::model::{
    after, compile_branch, compile_branches, compile_node, compile_nodes, compile_param,
    compile_params, emit, first_repeat, scoped, Outcome, State,
};
use crate::node::{ComponentParameter, ComponentParameterValue, Node, Position};
use vstd::prelude::*;

verus! {

/// Whether the node asks for the child content of the call being expanded. What
/// a `use` or an `extends` carries is compiled with a child content of its own
/// and does not count.
pub open spec fn asks_for_child(node: Node) -> bool
    decreases node,
{
    match node {
        Node::ChildContent(_) => true,
        Node::Template(nodes, _) => exists|i: int|
            0 <= i < nodes@.len() && asks_for_child(#[trigger] nodes@[i]),
        Node::MatchExpr(_, arms, _) => exists|i: int, j: int|
            0 <= i < arms@.len() && 0 <= j < arms@[i].1@.len() && asks_for_child(
                #[trigger] arms@[i].1@[j],
            ),
        Node::RustExpr(clauses, _) => exists|i: int, j: int|
            0 <= i < clauses@.len() && 0 <= j < clauses@[i].1@.len() && asks_for_child(
                #[trigger] clauses@[i].1@[j],
            ),
        Node::SectionBlock(_, body, _) => exists|i: int|
            0 <= i < body@.len() && asks_for_child(#[trigger] body@[i]),
        Node::Component(_, params, body, _) => (exists|i: int|
            0 <= i < body@.len() && asks_for_child(#[trigger] body@[i])) || (exists|i: int|
            0 <= i < params@.len() && param_asks_for_child((#[trigger] params@[i]).0)),
        _ => false,
    }
}

/// Whether the value of the parameter asks for the child content.
pub open spec fn param_asks_for_child(param: ComponentParameter) -> bool
    decreases param,
{
    match param.value {
        ComponentParameterValue::Block(nodes) => exists|i: int|
            0 <= i < nodes@.len() && asks_for_child(#[trigger] nodes@[i]),
        _ => false,
    }
}

/// No node of the list asks for the child content.
pub open spec fn none_asks(nodes: Seq<Node>) -> bool {
    forall|i: int| 0 <= i < nodes.len() ==> !asks_for_child(#[trigger] nodes[i])
}

/// No body of the branches asks for the child content.
pub open spec fn no_branch_asks(branches: Seq<((String, Position), Vec<Node>)>) -> bool {
    forall|i: int, j: int|
        0 <= i < branches.len() && 0 <= j < branches[i].1@.len() ==> !asks_for_child(
            #[trigger] branches[i].1@[j],
        )
}

/// No value of the parameters asks for the child content.
pub open spec fn no_param_asks(params: Seq<(ComponentParameter, Position)>) -> bool {
    forall|i: int| 0 <= i < params.len() ==> !param_asks_for_child((#[trigger] params[i]).0)
}

/// A node that does not ask for the child content compiles alike under any.
pub proof fn lemma_node_ignores_child(
    st: State,
    a: Option<Seq<Op>>,
    b: Option<Seq<Op>>,
    node: Node,
    depth: nat,
)
    requires
        !asks_for_child(node),
    ensures
        compile_node(st, a, node, depth) == compile_node(st, b, node, depth),
    decreases depth, 0nat, 0nat,
{
    if depth > 0 {
        let inner = (depth - 1) as nat;
        match node {
            Node::Template(nodes, _) => {
                lemma_nodes_ignore_child(st, a, b, nodes@, inner);
            },
            Node::MatchExpr(_, arms, _) => {
                lemma_branches_ignore_child(st, a, b, arms@, true, inner);
            },
            Node::RustExpr(clauses, _) => {
                lemma_branches_ignore_child(st, a, b, clauses@, false, inner);
            },
            Node::SectionBlock(_, body, _) => {
                lemma_nodes_ignore_child(st, a, b, body@, inner);
            },
            Node::Component((alias, _), params, body, _) => {
                if st.components.contains_key(alias@) && first_repeat(params@) is None {
                    lemma_params_ignore_child(st, a, b, params@, inner);
                    let binds = compile_params(st, a, params@, inner);
                    if binds.result is Ok {
                        lemma_nodes_ignore_child(binds.state, a, b, body@, inner);
                    }
                }
            },
            _ => {},
        }
    }
}

/// Nodes that do not ask for the child content compile alike under any.
pub proof fn lemma_nodes_ignore_child(
    st: State,
    a: Option<Seq<Op>>,
    b: Option<Seq<Op>>,
    nodes: Seq<Node>,
    depth: nat,
)
    requires
        none_asks(nodes),
    ensures
        compile_nodes(st, a, nodes, depth) == compile_nodes(st, b, nodes, depth),
    decreases depth, 1nat, nodes.len(),
{
    if nodes.len() > 0 {
        lemma_node_ignores_child(st, a, b, nodes.first(), depth);
        let first = compile_node(st, a, nodes.first(), depth);
        if first.result is Ok {
            let rest = nodes.drop_first();
            assert forall|i: int| 0 <= i < rest.len() implies !asks_for_child(
                #[trigger] rest[i],
            ) by {
                assert(rest[i] == nodes[i + 1]);
            }
            lemma_nodes_ignore_child(first.state, a, b, rest, depth);
        }
    }
}

/// A branch whose body does not ask for the child content compiles alike
/// under any.
pub proof fn lemma_branch_ignores_child(
    st: State,
    a: Option<Seq<Op>>,
    b: Option<Seq<Op>>,
    branch: ((String, Position), Vec<Node>),
    arm: bool,
    depth: nat,
)
    requires
        none_asks(branch.1@),
    ensures
        compile_branch(st, a, branch, arm, depth) == compile_branch(st, b, branch, arm, depth),
    decreases depth, 2nat, 0nat,
{
    lemma_nodes_ignore_child(st, a, b, branch.1@, depth);
}

/// Branches whose bodies do not ask for the child content compile alike under
/// any.
pub proof fn lemma_branches_ignore_child(
    st: State,
    a: Option<Seq<Op>>,
    b: Option<Seq<Op>>,
    branches: Seq<((String, Position), Vec<Node>)>,
    arm: bool,
    depth: nat,
)
    requires
        no_branch_asks(branches),
    ensures
        compile_branches(st, a, branches, arm, depth) == compile_branches(
            st,
            b,
            branches,
            arm,
            depth,
        ),
    decreases depth, 3nat, branches.len(),
{
    if branches.len() > 0 {
        assert(none_asks(branches[0].1@));
        lemma_branch_ignores_child(st, a, b, branches.first(), arm, depth);
        let first = compile_branch(st, a, branches.first(), arm, depth);
        if first.result is Ok {
            let rest = branches.drop_first();
            assert forall|i: int, j: int|
                0 <= i < rest.len() && 0 <= j < rest[i].1@.len() implies !asks_for_child(
                #[trigger] rest[i].1@[j],
            ) by {
                assert(rest[i] == branches[i + 1]);
                assert(!asks_for_child(branches[i + 1].1@[j]));
            }
            lemma_branches_ignore_child(first.state, a, b, rest, arm, depth);
        }
    }
}

/// A parameter whose value does not ask for the child content compiles alike
/// under any.
pub proof fn lemma_param_ignores_child(
    st: State,
    a: Option<Seq<Op>>,
    b: Option<Seq<Op>>,
    param: (ComponentParameter, Position),
    depth: nat,
)
    requires
        !param_asks_for_child(param.0),
    ensures
        compile_param(st, a, param, depth) == compile_param(st, b, param, depth),
    decreases depth, 2nat, 0nat,
{
    match param.0.value {
        ComponentParameterValue::Block(nodes) => {
            lemma_nodes_ignore_child(st, a, b, nodes@, depth);
        },
        _ => {},
    }
}

/// Parameters whose values do not ask for the child content compile alike
/// under any.
pub proof fn lemma_params_ignore_child(
    st: State,
    a: Option<Seq<Op>>,
    b: Option<Seq<Op>>,
    params: Seq<(ComponentParameter, Position)>,
    depth: nat,
)
    requires
        no_param_asks(params),
    ensures
        compile_params(st, a, params, depth) == compile_params(st, b, params, depth),
    decreases depth, 3nat, params.len(),
{
    if params.len() > 0 {
        lemma_param_ignores_child(st, a, b, params.first(), depth);
        let first = compile_param(st, a, params.first(), depth);
        if first.result is Ok {
            let rest = params.drop_first();
            assert forall|i: int| 0 <= i < rest.len() implies !param_asks_for_child(
                (#[trigger] rest[i]).0,
            ) by {
                assert(rest[i] == params[i + 1]);
            }
            lemma_params_ignore_child(first.state, a, b, rest, depth);
        }
    }
}

/// Where only one node of a list asks for the child content, only that node
/// sees it: the list compiles as its front part does with no child content,
/// then that node with the child content, then the part behind with none.
pub proof fn lemma_child_reaches_one_node(
    st: State,
    child: Seq<Op>,
    front: Seq<Node>,
    middle: Node,
    behind: Seq<Node>,
    depth: nat,
)
    requires
        none_asks(front),
        none_asks(behind),
    ensures
        compile_nodes(st, Some(child), front + seq![middle] + behind, depth) == followed_by(
            then_node(compile_nodes(st, None, front, depth), Some(child), middle, depth),
            None,
            behind,
            depth,
        ),
{
    let slot = Some(child);
    let before = compile_nodes(st, None, front, depth);
    lemma_nodes_ignore_child(st, None, slot, front, depth);
    lemma_compile_nodes_split(st, slot, front + seq![middle], behind, depth);
    lemma_compile_nodes_split(st, slot, front, seq![middle], depth);
    if before.result is Ok {
        lemma_compile_nodes_single(before.state, slot, middle, depth);
        let reached = then_node(before, slot, middle, depth);
        if reached.result is Ok {
            lemma_nodes_ignore_child(reached.state, None, slot, behind, depth);
        }
    }
}

/// Where a list of nodes asks for the child content at one place only, its
/// compiled form is that of the nodes in front, then the child content, then
/// that of the nodes behind, the nodes in front and behind compiled as they
/// would be with no child content at all.
pub proof fn lemma_child_content_in_place(
    st: State,
    child: Seq<Op>,
    front: Seq<Node>,
    position: Position,
    behind: Seq<Node>,
    depth: nat,
)
    requires
        depth > 0,
        none_asks(front),
        none_asks(behind),
        compile_nodes(st, None, front, depth).result is Ok,
        compile_nodes(compile_nodes(st, None, front, depth).state, None, behind, depth).result
            is Ok,
    ensures
        ({
            let before = compile_nodes(st, None, front, depth);
            let rest = compile_nodes(before.state, None, behind, depth);
            compile_nodes(
                st,
                Some(child),
                front + seq![Node::ChildContent(position)] + behind,
                depth,
            ) == emit(rest.state, before.result->Ok_0 + child + rest.result->Ok_0)
        }),
{
    let before = compile_nodes(st, None, front, depth);
    let rest = compile_nodes(before.state, None, behind, depth);
    lemma_child_reaches_one_node(
        st,
        child,
        front,
        Node::ChildContent(position),
        behind,
        depth,
    );
    assert((before.result->Ok_0 + child) + rest.result->Ok_0 =~= before.result->Ok_0 + child
        + rest.result->Ok_0);
}

/// The alias that a component call names.
pub open spec fn call_alias(call: Node) -> Seq<char> {
    match call {
        Node::Component((alias, _), _, _, _) => alias@,
        _ => Seq::empty(),
    }
}

/// The parameters of a component call.
pub open spec fn call_params(call: Node) -> Seq<(ComponentParameter, Position)> {
    match call {
        Node::Component(_, params, _, _) => params@,
        _ => Seq::empty(),
    }
}

/// The nodes between the opening and the closing of a component call.
pub open spec fn call_body(call: Node) -> Seq<Node> {
    match call {
        Node::Component(_, _, body, _) => body@,
        _ => Seq::empty(),
    }
}

/// The children of a template.
pub open spec fn template_nodes(node: Node) -> Seq<Node> {
    match node {
        Node::Template(nodes, _) => nodes@,
        _ => Seq::empty(),
    }
}

/// What the parameters of a call compile to.
pub open spec fn call_binds(st: State, slot: Option<Seq<Op>>, call: Node, depth: nat) -> Outcome {
    compile_params(st, slot, call_params(call), (depth - 1) as nat)
}

/// What the body of a call compiles to, behind its parameters.
pub open spec fn call_content(st: State, slot: Option<Seq<Op>>, call: Node, depth: nat) -> Outcome {
    compile_nodes(
        call_binds(st, slot, call, depth).state,
        slot,
        call_body(call),
        (depth - 1) as nat,
    )
}

/// A call of a component whose template asks for the child content at one
/// place only: the compiled body of the call stands at that place, between
/// what the template compiles to in front of it and behind it, and the whole
/// stands in a scope behind the bindings of the parameters.
pub proof fn lemma_component_places_child(
    st: State,
    slot: Option<Seq<Op>>,
    call: Node,
    front: Seq<Node>,
    position: Position,
    behind: Seq<Node>,
    depth: nat,
)
    requires
        depth > 2,
        call is Component,
        st.components.contains_key(call_alias(call)),
        st.components[call_alias(call)] is Template,
        template_nodes(st.components[call_alias(call)]) == front + seq![
            Node::ChildContent(position),
        ] + behind,
        none_asks(front),
        none_asks(behind),
        first_repeat(call_params(call)) is None,
        call_binds(st, slot, call, depth).result is Ok,
        call_content(st, slot, call, depth).result is Ok,
        compile_nodes(
            call_content(st, slot, call, depth).state,
            None,
            front,
            (depth - 2) as nat,
        ).result is Ok,
        compile_nodes(
            compile_nodes(
                call_content(st, slot, call, depth).state,
                None,
                front,
                (depth - 2) as nat,
            ).state,
            None,
            behind,
            (depth - 2) as nat,
        ).result is Ok,
    ensures
        ({
            let binds = call_binds(st, slot, call, depth);
            let content = call_content(st, slot, call, depth);
            let before = compile_nodes(content.state, None, front, (depth - 2) as nat);
            let rest = compile_nodes(before.state, None, behind, (depth - 2) as nat);
            compile_node(st, slot, call, depth) == emit(
                rest.state,
                seq![Op::OpenScope] + binds.result->Ok_0 + before.result->Ok_0
                    + content.result->Ok_0 + rest.result->Ok_0 + seq![Op::CloseScope],
            )
        }),
{
    let inner = (depth - 1) as nat;
    let binds = call_binds(st, slot, call, depth);
    let content = call_content(st, slot, call, depth);
    let child = content.result->Ok_0;
    let before = compile_nodes(content.state, None, front, (depth - 2) as nat);
    let rest = compile_nodes(before.state, None, behind, (depth - 2) as nat);
    let component = st.components[call_alias(call)];
    lemma_child_content_in_place(content.state, child, front, position, behind, (depth - 2) as nat);
    let expanded = compile_node(content.state, Some(child), component, inner);
    assert(expanded == emit(rest.state, before.result->Ok_0 + child + rest.result->Ok_0));
    let whole = scoped(Seq::empty(), after(binds.result->Ok_0, expanded));
    assert(compile_node(st, slot, call, depth) == whole);
    assert(Seq::<Op>::empty() + seq![Op::OpenScope] + (binds.result->Ok_0 + (before.result->Ok_0
        + child + rest.result->Ok_0)) + seq![Op::CloseScope] =~= seq![Op::OpenScope]
        + binds.result->Ok_0 + before.result->Ok_0 + child + rest.result->Ok_0 + seq![
        Op::CloseScope,
    ]);
}

} // verus!
