//! A dynamic value is escaped once on its way to the output, and a literal
//! text not at all.

use crate::emit::Op;
use crate::escape::{escaped, is_plain, lemma_escape_twice, written};
use crate::lemmas::lists::{lemma_compile_nodes_single, lemma_compile_nodes_split};
use crate::model::{compile_node, compile_nodes, State};
use crate::node::Node;
use vstd::prelude::*;

verus! {

/// What one operation writes when it runs, `value_of` giving the text of the
/// value of each expression. Operations that do not write contribute nothing.
pub open spec fn written_by(op: Op, value_of: spec_fn(Seq<char>) -> Seq<char>) -> Seq<char> {
    match op {
        Op::Write(text) => text,
        Op::WriteExpr(fragment, is_escaped) => written(value_of(fragment), is_escaped),
        _ => Seq::empty(),
    }
}

/// What the operations write when each runs once, in order.
pub open spec fn output(ops: Seq<Op>, value_of: spec_fn(Seq<char>) -> Seq<char>) -> Seq<char>
    decreases ops.len(),
{
    if ops.len() == 0 {
        Seq::empty()
    } else {
        output(ops.drop_last(), value_of) + written_by(ops.last(), value_of)
    }
}

/// The fragment of an expression node.
pub open spec fn expression(node: Node) -> Seq<char> {
    match node {
        Node::RustExprSimple(fragment, _, _) => fragment@,
        Node::RustExprParen(fragment, _, _) => fragment@,
        _ => Seq::empty(),
    }
}

/// Whether the node is an expression with its escape flag set.
pub open spec fn is_escaped_expression(node: Node) -> bool {
    match node {
        Node::RustExprSimple(_, is_escaped, _) => is_escaped,
        Node::RustExprParen(_, is_escaped, _) => is_escaped,
        _ => false,
    }
}

/// Whether the node is an expression with its escape flag not set.
pub open spec fn is_raw_expression(node: Node) -> bool {
    match node {
        Node::RustExprSimple(_, is_escaped, _) => !is_escaped,
        Node::RustExprParen(_, is_escaped, _) => !is_escaped,
        _ => false,
    }
}

/// An escaped expression that compiles writes the escaped form of its value:
/// escaped once, which is not the same as twice unless the value is plain.
pub proof fn lemma_expression_escaped_once(
    st: State,
    slot: Option<Seq<Op>>,
    node: Node,
    depth: nat,
    value_of: spec_fn(Seq<char>) -> Seq<char>,
)
    requires
        is_escaped_expression(node),
        compile_node(st, slot, node, depth).result is Ok,
    ensures
        output(compile_node(st, slot, node, depth).result->Ok_0, value_of) == escaped(
            value_of(expression(node)),
        ),
        !is_plain(value_of(expression(node))) ==> output(
            compile_node(st, slot, node, depth).result->Ok_0,
            value_of,
        ) != escaped(escaped(value_of(expression(node)))),
{
    let ops = compile_node(st, slot, node, depth).result->Ok_0;
    let value = value_of(expression(node));
    assert(ops =~= seq![Op::WriteExpr(expression(node), true)]);
    reveal_with_fuel(output, 2);
    assert(ops.drop_last().len() == 0);
    assert(output(ops, value_of) =~= escaped(value));
    lemma_escape_twice(value);
}

/// An expression whose escape flag is not set writes its value as it is.
pub proof fn lemma_expression_raw(
    st: State,
    slot: Option<Seq<Op>>,
    node: Node,
    depth: nat,
    value_of: spec_fn(Seq<char>) -> Seq<char>,
)
    requires
        is_raw_expression(node),
        compile_node(st, slot, node, depth).result is Ok,
    ensures
        output(compile_node(st, slot, node, depth).result->Ok_0, value_of) == value_of(
            expression(node),
        ),
{
    let ops = compile_node(st, slot, node, depth).result->Ok_0;
    assert(ops =~= seq![Op::WriteExpr(expression(node), false)]);
    reveal_with_fuel(output, 2);
    assert(ops.drop_last().len() == 0);
    assert(output(ops, value_of) =~= value_of(expression(node)));
}

/// What a sequence writes is what its parts write, one behind the other.
pub proof fn lemma_output_add(
    a: Seq<Op>,
    b: Seq<Op>,
    value_of: spec_fn(Seq<char>) -> Seq<char>,
)
    ensures
        output(a + b, value_of) == output(a, value_of) + output(b, value_of),
    decreases b.len(),
{
    if b.len() == 0 {
        assert(a + b =~= a);
        assert(output(a, value_of) + output(b, value_of) =~= output(a, value_of));
    } else {
        let whole = a + b;
        assert(whole.drop_last() =~= a + b.drop_last());
        assert(whole.last() == b.last());
        lemma_output_add(a, b.drop_last(), value_of);
        assert((output(a, value_of) + output(b.drop_last(), value_of)) + written_by(
            b.last(),
            value_of,
        ) =~= output(a, value_of) + (output(b.drop_last(), value_of) + written_by(
            b.last(),
            value_of,
        )));
    }
}

/// The text of a literal node.
pub open spec fn literal(node: Node) -> Seq<char> {
    match node {
        Node::Text(text, _) => text@,
        Node::InnerText(text, _) => text@,
        Node::Raw(text, _) => text@,
        _ => Seq::empty(),
    }
}

/// Whether the node is a literal text.
pub open spec fn is_literal(node: Node) -> bool {
    node is Text || node is InnerText || node is Raw
}

/// An escaped expression between two literal texts: the texts are written as
/// they are, and between them the value, escaped once.
pub proof fn lemma_escaped_between_literals(
    st: State,
    slot: Option<Seq<Op>>,
    before: Node,
    value: Node,
    behind: Node,
    depth: nat,
    value_of: spec_fn(Seq<char>) -> Seq<char>,
)
    requires
        is_literal(before),
        is_escaped_expression(value),
        is_literal(behind),
        compile_nodes(st, slot, seq![before, value, behind], depth).result is Ok,
    ensures
        output(compile_nodes(st, slot, seq![before, value, behind], depth).result->Ok_0, value_of)
            == literal(before) + escaped(value_of(expression(value))) + literal(behind),
{
    let nodes = seq![before, value, behind];
    let first = compile_node(st, slot, before, depth);
    let second = compile_node(first.state, slot, value, depth);
    let third = compile_node(second.state, slot, behind, depth);
    lemma_compile_nodes_split(st, slot, seq![before], seq![value, behind], depth);
    lemma_compile_nodes_split(first.state, slot, seq![value], seq![behind], depth);
    lemma_compile_nodes_single(st, slot, before, depth);
    lemma_compile_nodes_single(first.state, slot, value, depth);
    lemma_compile_nodes_single(second.state, slot, behind, depth);
    assert(nodes =~= seq![before] + seq![value, behind]);
    assert(seq![value, behind] =~= seq![value] + seq![behind]);
    let a = first.result->Ok_0;
    let b = second.result->Ok_0;
    let c = third.result->Ok_0;
    assert(compile_nodes(st, slot, nodes, depth).result->Ok_0 =~= a + (b + c));
    lemma_expression_escaped_once(first.state, slot, value, depth, value_of);
    lemma_output_add(a, b + c, value_of);
    lemma_output_add(b, c, value_of);
    reveal_with_fuel(output, 2);
    assert(a =~= seq![Op::Write(literal(before))]);
    assert(c =~= seq![Op::Write(literal(behind))]);
    assert(a.drop_last().len() == 0);
    assert(c.drop_last().len() == 0);
    assert(output(a, value_of) =~= literal(before));
    assert(output(c, value_of) =~= literal(behind));
    assert(literal(before) + (escaped(value_of(expression(value))) + literal(behind)) =~= literal(
        before,
    ) + escaped(value_of(expression(value))) + literal(behind));
}

} // verus!
