//! The last registration of a section is the one that a layout renders.

use crate::emit::Op;
use crate::fragment::{checked, tokenizes};
use crate::lemmas::lists::{lemma_compile_nodes_single, lemma_compile_nodes_split};
use crate::lemmas::lowering::lemma_contents_frame;
use crate::model::{
    compile_branch, compile_branches, compile_node, compile_nodes, compile_param, compile_params,
    first_repeat, register_section, section_content, Outcome, State,
};
use crate::node::{ComponentParameter, ComponentParameterValue, Node, Position};
use vstd::prelude::*;

verus! {

/// Whether the node holds, anywhere inside it, a registration of the section of
/// that name. The component that a `use` directive brings counts as inside.
pub open spec fn declares(node: Node, name: Seq<char>) -> bool
    decreases node,
{
    match node {
        Node::Template(nodes, _) => exists|i: int|
            0 <= i < nodes@.len() && declares(#[trigger] nodes@[i], name),
        Node::MatchExpr(_, arms, _) => exists|i: int, j: int|
            0 <= i < arms@.len() && 0 <= j < arms@[i].1@.len() && declares(
                #[trigger] arms@[i].1@[j],
                name,
            ),
        Node::RustExpr(clauses, _) => exists|i: int, j: int|
            0 <= i < clauses@.len() && 0 <= j < clauses@[i].1@.len() && declares(
                #[trigger] clauses@[i].1@[j],
                name,
            ),
        Node::SectionDirective((n, _), _, _) => n@ == name,
        Node::SectionBlock((n, _), body, _) => n@ == name || exists|i: int|
            0 <= i < body@.len() && declares(#[trigger] body@[i], name),
        Node::Component(_, params, body, _) => (exists|i: int|
            0 <= i < body@.len() && declares(#[trigger] body@[i], name)) || (exists|i: int|
            0 <= i < params@.len() && param_declares((#[trigger] params@[i]).0, name)),
        Node::UseDirective(_, _, component, _) => declares(*component, name),
        _ => false,
    }
}

/// Whether the value of the parameter holds a registration of that section.
pub open spec fn param_declares(param: ComponentParameter, name: Seq<char>) -> bool
    decreases param,
{
    match param.value {
        ComponentParameterValue::Block(nodes) => exists|i: int|
            0 <= i < nodes@.len() && declares(#[trigger] nodes@[i], name),
        _ => false,
    }
}

/// No node of the list holds a registration of that section.
pub open spec fn none_declares(nodes: Seq<Node>, name: Seq<char>) -> bool {
    forall|i: int| 0 <= i < nodes.len() ==> !declares(#[trigger] nodes[i], name)
}

/// No body of the branches holds a registration of that section.
pub open spec fn no_branch_declares(
    branches: Seq<((String, Position), Vec<Node>)>,
    name: Seq<char>,
) -> bool {
    forall|i: int, j: int|
        0 <= i < branches.len() && 0 <= j < branches[i].1@.len() ==> !declares(
            #[trigger] branches[i].1@[j],
            name,
        )
}

/// No value of the parameters holds a registration of that section.
pub open spec fn no_param_declares(
    params: Seq<(ComponentParameter, Position)>,
    name: Seq<char>,
) -> bool {
    forall|i: int| 0 <= i < params.len() ==> !param_declares((#[trigger] params[i]).0, name)
}

/// No registered component holds a registration of that section.
pub open spec fn quiet(st: State, name: Seq<char>) -> bool {
    forall|alias: Seq<char>| #[trigger]
        st.components.contains_key(alias) ==> !declares(st.components[alias], name)
}

/// What is registered under the name, if anything is.
pub open spec fn binding(st: State, name: Seq<char>) -> Option<Seq<Op>> {
    if st.sections.contains_key(name) {
        Some(st.sections[name])
    } else {
        None
    }
}

/// Whether compiling the node in this state carries out a registration of the
/// section of that name.
pub open spec fn node_registers(
    st: State,
    slot: Option<Seq<Op>>,
    node: Node,
    depth: nat,
    name: Seq<char>,
) -> bool
    decreases depth, 0nat, 0nat,
{
    if depth == 0 {
        false
    } else {
        let inner = (depth - 1) as nat;
        match node {
            Node::Template(nodes, _) => nodes_register(st, slot, nodes@, inner, name),
            Node::MatchExpr((head, head_position), arms, _) => checked(
                tokenizes(head@),
                head_position,
            ) is Ok && branches_register(st, slot, arms@, true, inner, name),
            Node::RustExpr(clauses, _) => branches_register(st, slot, clauses@, false, inner, name),
            Node::SectionDirective((n, _), (content, position), _) => n@ == name
                && section_content(st, content, position).result is Ok,
            Node::SectionBlock((n, _), body, _) => {
                ||| nodes_register(st, slot, body@, inner, name)
                ||| n@ == name && compile_nodes(st, slot, body@, inner).result is Ok
            },
            Node::Component((alias, _), params, body, _) => {
                let binds = compile_params(st, slot, params@, inner);
                let content = compile_nodes(binds.state, slot, body@, inner);
                &&& st.components.contains_key(alias@)
                &&& first_repeat(params@) is None
                &&& {
                    ||| params_register(st, slot, params@, inner, name)
                    ||| binds.result is Ok && nodes_register(binds.state, slot, body@, inner, name)
                    ||| binds.result is Ok && content.result is Ok && node_registers(
                        content.state,
                        Some(content.result->Ok_0),
                        st.components[alias@],
                        inner,
                        name,
                    )
                }
            },
            _ => false,
        }
    }
}

/// Whether compiling the nodes, in order, carries out a registration of the
/// section of that name.
pub open spec fn nodes_register(
    st: State,
    slot: Option<Seq<Op>>,
    nodes: Seq<Node>,
    depth: nat,
    name: Seq<char>,
) -> bool
    decreases depth, 1nat, nodes.len(),
{
    if nodes.len() == 0 {
        false
    } else {
        let first = compile_node(st, slot, nodes.first(), depth);
        node_registers(st, slot, nodes.first(), depth, name) || (first.result is Ok
            && nodes_register(first.state, slot, nodes.drop_first(), depth, name))
    }
}

/// Whether compiling the branch carries out a registration of that section.
pub open spec fn branch_registers(
    st: State,
    slot: Option<Seq<Op>>,
    branch: ((String, Position), Vec<Node>),
    depth: nat,
    name: Seq<char>,
) -> bool
    decreases depth, 2nat, 0nat,
{
    checked(tokenizes(branch.0.0@), branch.0.1) is Ok && nodes_register(
        st,
        slot,
        branch.1@,
        depth,
        name,
    )
}

/// Whether compiling the branches carries out a registration of that section.
pub open spec fn branches_register(
    st: State,
    slot: Option<Seq<Op>>,
    branches: Seq<((String, Position), Vec<Node>)>,
    arm: bool,
    depth: nat,
    name: Seq<char>,
) -> bool
    decreases depth, 3nat, branches.len(),
{
    if branches.len() == 0 {
        false
    } else {
        let first = compile_branch(st, slot, branches.first(), arm, depth);
        branch_registers(st, slot, branches.first(), depth, name) || (first.result is Ok
            && branches_register(first.state, slot, branches.drop_first(), arm, depth, name))
    }
}

/// Whether compiling the parameter carries out a registration of that section.
pub open spec fn param_registers(
    st: State,
    slot: Option<Seq<Op>>,
    param: (ComponentParameter, Position),
    depth: nat,
    name: Seq<char>,
) -> bool
    decreases depth, 2nat, 0nat,
{
    match param.0.value {
        ComponentParameterValue::Block(nodes) => nodes_register(st, slot, nodes@, depth, name),
        _ => false,
    }
}

/// Whether compiling the parameters carries out a registration of that section.
pub open spec fn params_register(
    st: State,
    slot: Option<Seq<Op>>,
    params: Seq<(ComponentParameter, Position)>,
    depth: nat,
    name: Seq<char>,
) -> bool
    decreases depth, 3nat, params.len(),
{
    if params.len() == 0 {
        false
    } else {
        let first = compile_param(st, slot, params.first(), depth);
        param_registers(st, slot, params.first(), depth, name) || (first.result is Ok
            && params_register(first.state, slot, params.drop_first(), depth, name))
    }
}

/// A node whose compilation registers no section of that name leaves what is
/// registered under the name as it was.
pub proof fn lemma_node_keeps_section(
    st: State,
    slot: Option<Seq<Op>>,
    node: Node,
    depth: nat,
    name: Seq<char>,
)
    requires
        !node_registers(st, slot, node, depth, name),
    ensures
        binding(compile_node(st, slot, node, depth).state, name) == binding(st, name),
    decreases depth, 0nat, 0nat,
{
    if depth > 0 {
        let inner = (depth - 1) as nat;
        match node {
            Node::Template(nodes, _) => {
                lemma_nodes_keep_section(st, slot, nodes@, inner, name);
            },
            Node::RustBlock(contents, _) => {
                lemma_contents_frame(st, contents@, inner);
            },
            Node::MatchExpr((head, head_position), arms, _) => {
                if checked(tokenizes(head@), head_position) is Ok {
                    lemma_branches_keep_section(st, slot, arms@, true, inner, name);
                }
            },
            Node::RustExpr(clauses, _) => {
                lemma_branches_keep_section(st, slot, clauses@, false, inner, name);
            },
            Node::SectionBlock(_, body, _) => {
                lemma_nodes_keep_section(st, slot, body@, inner, name);
            },
            Node::Component((alias, _), params, body, _) => {
                if st.components.contains_key(alias@) && first_repeat(params@) is None {
                    lemma_params_keep_section(st, slot, params@, inner, name);
                    let binds = compile_params(st, slot, params@, inner);
                    if binds.result is Ok {
                        lemma_nodes_keep_section(binds.state, slot, body@, inner, name);
                        let content = compile_nodes(binds.state, slot, body@, inner);
                        if let Ok(body_ops) = content.result {
                            lemma_node_keeps_section(
                                content.state,
                                Some(body_ops),
                                st.components[alias@],
                                inner,
                                name,
                            );
                        }
                    }
                }
            },
            _ => {},
        }
    }
}

/// Nodes whose compilation registers no section of that name leave what is
/// registered under the name as it was.
pub proof fn lemma_nodes_keep_section(
    st: State,
    slot: Option<Seq<Op>>,
    nodes: Seq<Node>,
    depth: nat,
    name: Seq<char>,
)
    requires
        !nodes_register(st, slot, nodes, depth, name),
    ensures
        binding(compile_nodes(st, slot, nodes, depth).state, name) == binding(st, name),
    decreases depth, 1nat, nodes.len(),
{
    if nodes.len() > 0 {
        lemma_node_keeps_section(st, slot, nodes.first(), depth, name);
        let first = compile_node(st, slot, nodes.first(), depth);
        if first.result is Ok {
            lemma_nodes_keep_section(first.state, slot, nodes.drop_first(), depth, name);
        }
    }
}

/// A branch whose compilation registers no section of that name leaves what
/// is registered under the name as it was.
pub proof fn lemma_branch_keeps_section(
    st: State,
    slot: Option<Seq<Op>>,
    branch: ((String, Position), Vec<Node>),
    arm: bool,
    depth: nat,
    name: Seq<char>,
)
    requires
        !branch_registers(st, slot, branch, depth, name),
    ensures
        binding(compile_branch(st, slot, branch, arm, depth).state, name) == binding(st, name),
    decreases depth, 2nat, 0nat,
{
    if checked(tokenizes(branch.0.0@), branch.0.1) is Ok {
        lemma_nodes_keep_section(st, slot, branch.1@, depth, name);
    }
}

/// Branches whose compilation registers no section of that name leave what is
/// registered under the name as it was.
pub proof fn lemma_branches_keep_section(
    st: State,
    slot: Option<Seq<Op>>,
    branches: Seq<((String, Position), Vec<Node>)>,
    arm: bool,
    depth: nat,
    name: Seq<char>,
)
    requires
        !branches_register(st, slot, branches, arm, depth, name),
    ensures
        binding(compile_branches(st, slot, branches, arm, depth).state, name) == binding(
            st,
            name,
        ),
    decreases depth, 3nat, branches.len(),
{
    if branches.len() > 0 {
        lemma_branch_keeps_section(st, slot, branches.first(), arm, depth, name);
        let first = compile_branch(st, slot, branches.first(), arm, depth);
        if first.result is Ok {
            lemma_branches_keep_section(first.state, slot, branches.drop_first(), arm, depth, name);
        }
    }
}

/// A parameter whose compilation registers no section of that name leaves
/// what is registered under the name as it was.
pub proof fn lemma_param_keeps_section(
    st: State,
    slot: Option<Seq<Op>>,
    param: (ComponentParameter, Position),
    depth: nat,
    name: Seq<char>,
)
    requires
        !param_registers(st, slot, param, depth, name),
    ensures
        binding(compile_param(st, slot, param, depth).state, name) == binding(st, name),
    decreases depth, 2nat, 0nat,
{
    match param.0.value {
        ComponentParameterValue::Block(nodes) => {
            lemma_nodes_keep_section(st, slot, nodes@, depth, name);
        },
        _ => {},
    }
}

/// Parameters whose compilation registers no section of that name leave what
/// is registered under the name as it was.
pub proof fn lemma_params_keep_section(
    st: State,
    slot: Option<Seq<Op>>,
    params: Seq<(ComponentParameter, Position)>,
    depth: nat,
    name: Seq<char>,
)
    requires
        !params_register(st, slot, params, depth, name),
    ensures
        binding(compile_params(st, slot, params, depth).state, name) == binding(st, name),
    decreases depth, 3nat, params.len(),
{
    if params.len() > 0 {
        lemma_param_keeps_section(st, slot, params.first(), depth, name);
        let first = compile_param(st, slot, params.first(), depth);
        if first.result is Ok {
            lemma_params_keep_section(first.state, slot, params.drop_first(), depth, name);
        }
    }
}

/// A node that holds no registration of a section, compiled while no known
/// component holds one, registers none, and leaves the components as silent.
pub proof fn lemma_silent_node(
    st: State,
    slot: Option<Seq<Op>>,
    node: Node,
    depth: nat,
    name: Seq<char>,
)
    requires
        !declares(node, name),
        quiet(st, name),
    ensures
        !node_registers(st, slot, node, depth, name),
        quiet(compile_node(st, slot, node, depth).state, name),
    decreases depth, 0nat, 0nat,
{
    if depth > 0 {
        let inner = (depth - 1) as nat;
        match node {
            Node::Template(nodes, _) => {
                lemma_silent_nodes(st, slot, nodes@, inner, name);
            },
            Node::RustBlock(contents, _) => {
                lemma_contents_frame(st, contents@, inner);
            },
            Node::MatchExpr(_, arms, _) => {
                lemma_silent_branches(st, slot, arms@, true, inner, name);
            },
            Node::RustExpr(clauses, _) => {
                lemma_silent_branches(st, slot, clauses@, false, inner, name);
            },
            Node::SectionBlock(_, body, _) => {
                lemma_silent_nodes(st, slot, body@, inner, name);
            },
            Node::Component((alias, _), params, body, _) => {
                if st.components.contains_key(alias@) && first_repeat(params@) is None {
                    lemma_silent_params(st, slot, params@, inner, name);
                    let binds = compile_params(st, slot, params@, inner);
                    if binds.result is Ok {
                        lemma_silent_nodes(binds.state, slot, body@, inner, name);
                        let content = compile_nodes(binds.state, slot, body@, inner);
                        if let Ok(body_ops) = content.result {
                            lemma_silent_node(
                                content.state,
                                Some(body_ops),
                                st.components[alias@],
                                inner,
                                name,
                            );
                        }
                    }
                }
            },
            _ => {},
        }
    }
}

/// Nodes that hold no registration of a section, compiled while no known
/// component holds one, register none, and leave the components as silent.
pub proof fn lemma_silent_nodes(
    st: State,
    slot: Option<Seq<Op>>,
    nodes: Seq<Node>,
    depth: nat,
    name: Seq<char>,
)
    requires
        none_declares(nodes, name),
        quiet(st, name),
    ensures
        !nodes_register(st, slot, nodes, depth, name),
        quiet(compile_nodes(st, slot, nodes, depth).state, name),
    decreases depth, 1nat, nodes.len(),
{
    if nodes.len() > 0 {
        lemma_silent_node(st, slot, nodes.first(), depth, name);
        let first = compile_node(st, slot, nodes.first(), depth);
        if first.result is Ok {
            let rest = nodes.drop_first();
            assert forall|i: int| 0 <= i < rest.len() implies !declares(
                #[trigger] rest[i],
                name,
            ) by {
                assert(rest[i] == nodes[i + 1]);
            }
            lemma_silent_nodes(first.state, slot, rest, depth, name);
        }
    }
}

/// A branch whose body holds no registration of a section registers none.
pub proof fn lemma_silent_branch(
    st: State,
    slot: Option<Seq<Op>>,
    branch: ((String, Position), Vec<Node>),
    arm: bool,
    depth: nat,
    name: Seq<char>,
)
    requires
        none_declares(branch.1@, name),
        quiet(st, name),
    ensures
        !branch_registers(st, slot, branch, depth, name),
        quiet(compile_branch(st, slot, branch, arm, depth).state, name),
    decreases depth, 2nat, 0nat,
{
    lemma_silent_nodes(st, slot, branch.1@, depth, name);
}

/// Branches whose bodies hold no registration of a section register none.
pub proof fn lemma_silent_branches(
    st: State,
    slot: Option<Seq<Op>>,
    branches: Seq<((String, Position), Vec<Node>)>,
    arm: bool,
    depth: nat,
    name: Seq<char>,
)
    requires
        no_branch_declares(branches, name),
        quiet(st, name),
    ensures
        !branches_register(st, slot, branches, arm, depth, name),
        quiet(compile_branches(st, slot, branches, arm, depth).state, name),
    decreases depth, 3nat, branches.len(),
{
    if branches.len() > 0 {
        assert(none_declares(branches[0].1@, name));
        lemma_silent_branch(st, slot, branches.first(), arm, depth, name);
        let first = compile_branch(st, slot, branches.first(), arm, depth);
        if first.result is Ok {
            let rest = branches.drop_first();
            assert forall|i: int, j: int|
                0 <= i < rest.len() && 0 <= j < rest[i].1@.len() implies !declares(
                #[trigger] rest[i].1@[j],
                name,
            ) by {
                assert(rest[i] == branches[i + 1]);
                assert(!declares(branches[i + 1].1@[j], name));
            }
            lemma_silent_branches(first.state, slot, rest, arm, depth, name);
        }
    }
}

/// A parameter whose value holds no registration of a section registers none.
pub proof fn lemma_silent_param(
    st: State,
    slot: Option<Seq<Op>>,
    param: (ComponentParameter, Position),
    depth: nat,
    name: Seq<char>,
)
    requires
        !param_declares(param.0, name),
        quiet(st, name),
    ensures
        !param_registers(st, slot, param, depth, name),
        quiet(compile_param(st, slot, param, depth).state, name),
    decreases depth, 2nat, 0nat,
{
    match param.0.value {
        ComponentParameterValue::Block(nodes) => {
            lemma_silent_nodes(st, slot, nodes@, depth, name);
        },
        _ => {},
    }
}

/// Parameters whose values hold no registration of a section register none.
pub proof fn lemma_silent_params(
    st: State,
    slot: Option<Seq<Op>>,
    params: Seq<(ComponentParameter, Position)>,
    depth: nat,
    name: Seq<char>,
)
    requires
        no_param_declares(params, name),
        quiet(st, name),
    ensures
        !params_register(st, slot, params, depth, name),
        quiet(compile_params(st, slot, params, depth).state, name),
    decreases depth, 3nat, params.len(),
{
    if params.len() > 0 {
        lemma_silent_param(st, slot, params.first(), depth, name);
        let first = compile_param(st, slot, params.first(), depth);
        if first.result is Ok {
            let rest = params.drop_first();
            assert forall|i: int| 0 <= i < rest.len() implies !param_declares(
                (#[trigger] rest[i]).0,
                name,
            ) by {
                assert(rest[i] == params[i + 1]);
            }
            lemma_silent_params(first.state, slot, rest, depth, name);
        }
    }
}

/// Whether the node is a registration of the section of that name.
pub open spec fn is_registration_of(node: Node, name: Seq<char>) -> bool {
    match node {
        Node::SectionDirective((n, _), _, _) => n@ == name,
        Node::SectionBlock((n, _), _, _) => n@ == name,
        _ => false,
    }
}

/// What the content of a registration compiles to, in the state that the
/// registration is met in.
pub open spec fn registered_content(
    st: State,
    slot: Option<Seq<Op>>,
    node: Node,
    depth: nat,
) -> Outcome {
    match node {
        Node::SectionDirective(_, (content, position), _) => section_content(
            st,
            content,
            position,
        ),
        Node::SectionBlock(_, body, _) => compile_nodes(st, slot, body@, (depth - 1) as nat),
        _ => crate::model::emit(st, Seq::empty()),
    }
}

/// Whether the node renders the section of that name.
pub open spec fn renders(node: Node, name: Seq<char>) -> bool {
    match node {
        Node::RenderDirective(n, _) => n@ == name,
        _ => false,
    }
}

/// A registration that compiles puts the compiled form of its content under
/// its name, whatever was registered there before.
pub proof fn lemma_registration_overwrites(
    st: State,
    slot: Option<Seq<Op>>,
    registration: Node,
    depth: nat,
    name: Seq<char>,
)
    requires
        is_registration_of(registration, name),
        compile_node(st, slot, registration, depth).result is Ok,
    ensures
        depth > 0,
        registered_content(st, slot, registration, depth).result is Ok,
        compile_node(st, slot, registration, depth) == register_section(
            name,
            registered_content(st, slot, registration, depth),
        ),
        binding(compile_node(st, slot, registration, depth).state, name) == Some(
            registered_content(st, slot, registration, depth).result->Ok_0,
        ),
{
}

/// Last write wins. Where a list of nodes compiles, one of them registers a
/// section, and compiling what stands behind it registers that section no
/// more, a render of the section in the layout pass yields the compiled form
/// of exactly that registration.
pub proof fn lemma_last_write_wins(
    st: State,
    slot: Option<Seq<Op>>,
    before: Seq<Node>,
    registration: Node,
    behind: Seq<Node>,
    depth: nat,
    name: Seq<char>,
    layout_state: State,
    layout_slot: Option<Seq<Op>>,
    render: Node,
    layout_depth: nat,
)
    requires
        is_registration_of(registration, name),
        compile_nodes(st, slot, before + seq![registration] + behind, depth).result is Ok,
        !nodes_register(
            compile_node(
                compile_nodes(st, slot, before, depth).state,
                slot,
                registration,
                depth,
            ).state,
            slot,
            behind,
            depth,
            name,
        ),
        layout_state.sections == compile_nodes(
            st,
            slot,
            before + seq![registration] + behind,
            depth,
        ).state.sections,
        renders(render, name),
        layout_depth > 0,
    ensures
        registered_content(
            compile_nodes(st, slot, before, depth).state,
            slot,
            registration,
            depth,
        ).result is Ok,
        compile_node(layout_state, layout_slot, render, layout_depth).result == Ok::<
            Seq<Op>,
            crate::error::CompileError,
        >(
            registered_content(
                compile_nodes(st, slot, before, depth).state,
                slot,
                registration,
                depth,
            ).result->Ok_0,
        ),
{
    let front = before + seq![registration];
    lemma_compile_nodes_split(st, slot, front, behind, depth);
    lemma_compile_nodes_split(st, slot, before, seq![registration], depth);
    let reached = compile_nodes(st, slot, before, depth);
    lemma_compile_nodes_single(reached.state, slot, registration, depth);
    let registered = compile_node(reached.state, slot, registration, depth);
    lemma_registration_overwrites(reached.state, slot, registration, depth, name);
    lemma_nodes_keep_section(registered.state, slot, behind, depth, name);
}

} // verus!
