//! Compiling a list of nodes piece by piece.

use crate::emit::Op;
use crate::model::{
    after, compile_node, compile_nodes, emit, lemma_after_after, lemma_after_done,
    lemma_after_nothing, Outcome, State,
};
use crate::node::Node;
use vstd::prelude::*;

verus! {

/// What compiling `rest` adds to an outcome: nothing after a failure, else the
/// outcome of `rest` in the state reached, behind the operations so far.
pub open spec fn followed_by(
    done: Outcome,
    slot: Option<Seq<Op>>,
    rest: Seq<Node>,
    depth: nat,
) -> Outcome {
    match done.result {
        Ok(ops) => after(ops, compile_nodes(done.state, slot, rest, depth)),
        Err(_) => done,
    }
}

/// What compiling one more node adds to an outcome: nothing after a failure,
/// else the outcome of the node in the state reached, behind the operations
/// so far.
pub open spec fn then_node(
    done: Outcome,
    slot: Option<Seq<Op>>,
    node: Node,
    depth: nat,
) -> Outcome {
    match done.result {
        Ok(ops) => after(ops, compile_node(done.state, slot, node, depth)),
        Err(_) => done,
    }
}

/// Compiling a list is compiling its front part and then, in the state that
/// this leaves, the part behind it.
pub proof fn lemma_compile_nodes_split(
    st: State,
    slot: Option<Seq<Op>>,
    front: Seq<Node>,
    back: Seq<Node>,
    depth: nat,
)
    ensures
        compile_nodes(st, slot, front + back, depth) == followed_by(
            compile_nodes(st, slot, front, depth),
            slot,
            back,
            depth,
        ),
    decreases front.len(),
{
    if front.len() == 0 {
        assert(front + back =~= back);
        lemma_after_nothing(compile_nodes(st, slot, back, depth));
    } else {
        let all = front + back;
        assert(all.first() == front.first());
        assert(all.drop_first() =~= front.drop_first() + back);
        let first = compile_node(st, slot, front.first(), depth);
        match first.result {
            Ok(ops) => {
                lemma_compile_nodes_split(first.state, slot, front.drop_first(), back, depth);
                let tail = compile_nodes(first.state, slot, front.drop_first(), depth);
                match tail.result {
                    Ok(more) => {
                        lemma_after_after(
                            ops,
                            more,
                            compile_nodes(tail.state, slot, back, depth),
                        );
                    },
                    Err(_) => {},
                }
            },
            Err(_) => {},
        }
    }
}

/// Compiling a list of one node is compiling that node.
pub proof fn lemma_compile_nodes_single(st: State, slot: Option<Seq<Op>>, node: Node, depth: nat)
    ensures
        compile_nodes(st, slot, seq![node], depth) == compile_node(st, slot, node, depth),
{
    let nodes = seq![node];
    assert(nodes.first() == node);
    assert(nodes.drop_first() =~= Seq::<Node>::empty());
    let first = compile_node(st, slot, node, depth);
    match first.result {
        Ok(ops) => {
            assert(compile_nodes(first.state, slot, nodes.drop_first(), depth) == emit(
                first.state,
                Seq::empty(),
            ));
            lemma_after_done(ops, first.state);
        },
        Err(_) => {},
    }
}

} // verus!
