//! What compilation means: the state of a compilation and, for each construct
//! of the tree, the operations it yields and the state it leaves.

use crate::emit::Op;
use crate::error::{CompileError, Reason};
use crate::fragment::{checked, tokenizes};
use crate::node::{
    ComponentParameter, ComponentParameterValue, Node, Position, RustBlockContent,
    SectionDirectiveContent, TextBlockItem, TextLineItem,
};
use std::path::PathBuf;
use vstd::prelude::*;

verus! {

/// The state that one compilation carries from construct to construct.
pub struct State {
    /// The compiled content of each section registered so far.
    pub sections: Map<Seq<char>, Seq<Op>>,
    /// The layout that the template extends, once it has said so.
    pub layout: Option<Node>,
    /// The path that the `extends` directive named.
    pub layout_directive: Option<PathBuf>,
    /// The compiled output of the child template, set for the layout pass.
    pub section_body: Option<Seq<Op>>,
    /// The component registered under each alias.
    pub components: Map<Seq<char>, Node>,
    /// Every `use` directive met so far, alias and path, in source order.
    pub use_directives: Seq<(Seq<char>, PathBuf)>,
    /// The sum of the sizes of the literal texts met so far.
    pub text_size: nat,
}

/// The state a compilation was left in, and what it produced.
pub struct Outcome {
    pub state: State,
    pub result: Result<Seq<Op>, CompileError>,
}

/// The state of a compilation that has met nothing yet.
pub open spec fn initial_state() -> State {
    State {
        sections: Map::empty(),
        layout: None,
        layout_directive: None,
        section_body: None,
        components: Map::empty(),
        use_directives: Seq::empty(),
        text_size: 0,
    }
}

/// The size of a literal text: the length of its UTF-8 encoding.
pub open spec fn literal_size(text: Seq<char>) -> nat {
    vstd::utf8::encode_utf8(text).len()
}

/// The size hint after one more literal, held at the largest `usize`.
pub open spec fn grown(size: nat, by: nat) -> nat {
    if size + by > usize::MAX {
        usize::MAX as nat
    } else {
        size + by
    }
}

/// Success with the given operations.
pub open spec fn emit(st: State, ops: Seq<Op>) -> Outcome {
    Outcome { state: st, result: Ok(ops) }
}

/// Failure at the given position.
pub open spec fn fail(st: State, reason: Reason, position: Position) -> Outcome {
    Outcome { state: st, result: Err(CompileError { reason, position }) }
}

/// The outcome of what follows, with the operations compiled before it in front.
pub open spec fn after(ops: Seq<Op>, next: Outcome) -> Outcome {
    match next.result {
        Ok(more) => Outcome { state: next.state, result: Ok(ops + more) },
        Err(_) => next,
    }
}

/// The outcome with its operations enclosed in a scope of their own, behind
/// the operations of `head`.
pub open spec fn scoped(head: Seq<Op>, body: Outcome) -> Outcome {
    match body.result {
        Ok(ops) => Outcome {
            state: body.state,
            result: Ok(head + seq![Op::OpenScope] + ops + seq![Op::CloseScope]),
        },
        Err(_) => body,
    }
}

/// Putting operations in front of an outcome, twice, is putting their
/// concatenation in front of it.
pub proof fn lemma_after_after(a: Seq<Op>, b: Seq<Op>, next: Outcome)
    ensures
        after(a, after(b, next)) == after(a + b, next),
{
    match next.result {
        Ok(more) => {
            assert(a + (b + more) =~= (a + b) + more);
        },
        Err(_) => {},
    }
}

/// Putting no operations in front of an outcome leaves it as it is.
pub proof fn lemma_after_nothing(next: Outcome)
    ensures
        after(Seq::empty(), next) == next,
{
    match next.result {
        Ok(more) => {
            assert(Seq::<Op>::empty() + more =~= more);
        },
        Err(_) => {},
    }
}

/// Operations in front of a success that emits nothing are the whole result.
pub proof fn lemma_after_done(ops: Seq<Op>, st: State)
    ensures
        after(ops, emit(st, Seq::empty())) == emit(st, ops),
{
    assert(ops + Seq::<Op>::empty() =~= ops);
}

/// A literal text: one write, and the size hint grows by the text's size.
pub open spec fn write_literal(st: State, text: Seq<char>) -> Outcome {
    emit(State { text_size: grown(st.text_size, literal_size(text)), ..st }, seq![Op::Write(text)])
}

/// A code fragment yields the given operation if it can be tokenized.
pub open spec fn splice(st: State, fragment: Seq<char>, position: Position, op: Op) -> Outcome {
    match checked(tokenizes(fragment), position) {
        Ok(_) => emit(st, seq![op]),
        Err(e) => Outcome { state: st, result: Err(e) },
    }
}

/// An embedded expression: one operation that writes its value.
pub open spec fn write_expr(
    st: State,
    fragment: Seq<char>,
    is_escaped: bool,
    position: Position,
) -> Outcome {
    splice(st, fragment, position, Op::WriteExpr(fragment, is_escaped))
}

/// One item of a text line: a literal text or a spliced expression.
pub open spec fn lower_line_item(st: State, item: TextLineItem) -> Outcome {
    match item {
        TextLineItem::Text(text, _) => write_literal(st, text@),
        TextLineItem::RustExprSimple(expr, is_escaped, position) => write_expr(
            st,
            expr@,
            is_escaped,
            position,
        ),
    }
}

/// One item of a text block: a literal text or a spliced expression.
pub open spec fn lower_block_item(st: State, item: TextBlockItem) -> Outcome {
    match item {
        TextBlockItem::Text(text, _) => write_literal(st, text@),
        TextBlockItem::RustExprSimple(expr, is_escaped, position) => write_expr(
            st,
            expr@,
            is_escaped,
            position,
        ),
    }
}

/// The items of a text line, lowered in order up to the first failure.
pub open spec fn lower_line_items(st: State, items: Seq<TextLineItem>) -> Outcome
    decreases items.len(),
{
    if items.len() == 0 {
        emit(st, Seq::empty())
    } else {
        let first = lower_line_item(st, items.first());
        match first.result {
            Ok(ops) => after(ops, lower_line_items(first.state, items.drop_first())),
            Err(_) => first,
        }
    }
}

/// The items of a text block, lowered in order up to the first failure.
pub open spec fn lower_block_items(st: State, items: Seq<TextBlockItem>) -> Outcome
    decreases items.len(),
{
    if items.len() == 0 {
        emit(st, Seq::empty())
    } else {
        let first = lower_block_item(st, items.first());
        match first.result {
            Ok(ops) => after(ops, lower_block_items(first.state, items.drop_first())),
            Err(_) => first,
        }
    }
}

/// One piece of a code block. Code passes through as it stands, text lines and
/// text blocks are lowered alike, and a nested block gets a scope of its own.
pub open spec fn lower_content(st: State, content: RustBlockContent, depth: nat) -> Outcome
    decreases depth, 0nat,
{
    if depth == 0 {
        fail(st, Reason::NestingTooDeep, content.position())
    } else {
        match content {
            RustBlockContent::Code(code, position) => splice(st, code@, position, Op::Code(code@)),
            RustBlockContent::TextLine(items, _) => lower_line_items(st, items@),
            RustBlockContent::TextBlock(items, _) => lower_block_items(st, items@),
            RustBlockContent::NestedBlock(inner, _) => scoped(
                Seq::empty(),
                lower_contents(st, inner@, (depth - 1) as nat),
            ),
        }
    }
}

/// The pieces of a code block, lowered in order up to the first failure.
pub open spec fn lower_contents(st: State, contents: Seq<RustBlockContent>, depth: nat) -> Outcome
    decreases depth, 1 + contents.len(),
{
    if contents.len() == 0 {
        emit(st, Seq::empty())
    } else {
        let first = lower_content(st, contents.first(), depth);
        match first.result {
            Ok(ops) => after(ops, lower_contents(first.state, contents.drop_first(), depth)),
            Err(_) => first,
        }
    }
}

/// The state with a section registered, in place of any earlier one of that name.
pub open spec fn with_section(st: State, name: Seq<char>, ops: Seq<Op>) -> State {
    State { sections: st.sections.insert(name, ops), ..st }
}

/// Registers what the content compiled to as a section; nothing is emitted.
pub open spec fn register_section(name: Seq<char>, content: Outcome) -> Outcome {
    match content.result {
        Ok(ops) => emit(with_section(content.state, name, ops), Seq::empty()),
        Err(_) => content,
    }
}

/// The one-line form of a section: a text or an expression.
pub open spec fn section_content(
    st: State,
    content: SectionDirectiveContent,
    position: Position,
) -> Outcome {
    match content {
        SectionDirectiveContent::Text(text) => write_literal(st, text@),
        SectionDirectiveContent::RustExprSimple(expr, is_escaped) => write_expr(
            st,
            expr@,
            is_escaped,
            position,
        ),
    }
}

/// Whether the parameter at `j` carries the name of an earlier one.
pub open spec fn repeats_earlier(params: Seq<(ComponentParameter, Position)>, j: int) -> bool {
    exists|i: int| 0 <= i < j && #[trigger] params[i].0.name@ == params[j].0.name@
}

/// The first parameter that carries the name of an earlier one, if any does.
pub open spec fn first_repeat(params: Seq<(ComponentParameter, Position)>) -> Option<int>
    decreases params.len(),
{
    if params.len() == 0 {
        None
    } else {
        match first_repeat(params.drop_last()) {
            Some(j) => Some(j),
            None => if repeats_earlier(params, params.len() - 1) {
                Some(params.len() - 1)
            } else {
                None
            },
        }
    }
}

/// What a node compiles to in state `st`, with `slot` as the child content of
/// the component call being expanded, and `depth` levels of nesting left.
pub open spec fn compile_node(st: State, slot: Option<Seq<Op>>, node: Node, depth: nat) -> Outcome
    decreases depth, 0nat, 0nat,
{
    if depth == 0 {
        fail(st, Reason::NestingTooDeep, node.position())
    } else {
        let inner = (depth - 1) as nat;
        match node {
            Node::Template(nodes, _) => compile_nodes(st, slot, nodes@, inner),
            Node::Text(text, _) => write_literal(st, text@),
            Node::InnerText(text, _) => write_literal(st, text@),
            Node::Comment(_, _) => emit(st, Seq::empty()),
            Node::ExtendsDirective((path, _), layout, position) => if st.layout is Some {
                fail(st, Reason::ProtocolViolation, position)
            } else {
                emit(
                    State { layout: Some(*layout), layout_directive: Some(path), ..st },
                    Seq::empty(),
                )
            },
            Node::RenderDirective(name, _) => if st.sections.contains_key(name@) {
                emit(st, st.sections[name@])
            } else {
                emit(st, Seq::empty())
            },
            Node::RustBlock(contents, _) => lower_contents(st, contents@, inner),
            Node::RustExprSimple(expr, is_escaped, position) => write_expr(
                st,
                expr@,
                is_escaped,
                position,
            ),
            Node::RustExprParen(expr, is_escaped, position) => write_expr(
                st,
                expr@,
                is_escaped,
                position,
            ),
            Node::MatchExpr((head, head_position), arms, _) => match checked(
                tokenizes(head@),
                head_position,
            ) {
                Ok(_) => scoped(
                    seq![Op::Match(head@)],
                    compile_branches(st, slot, arms@, true, inner),
                ),
                Err(e) => Outcome { state: st, result: Err(e) },
            },
            Node::RustExpr(clauses, _) => compile_branches(st, slot, clauses@, false, inner),
            Node::SectionDirective((name, _), (content, content_position), _) => register_section(
                name@,
                section_content(st, content, content_position),
            ),
            Node::SectionBlock((name, _), body, _) => register_section(
                name@,
                compile_nodes(st, slot, body@, inner),
            ),
            Node::RenderBody(_) => match st.section_body {
                Some(ops) => emit(st, ops),
                None => emit(st, Seq::empty()),
            },
            Node::Component((name, name_position), params, body, _) => if !st.components
                .contains_key(name@) {
                fail(st, Reason::UnresolvedComponent, name_position)
            } else {
                match first_repeat(params@) {
                    Some(j) => fail(st, Reason::ProtocolViolation, params@[j].1),
                    None => {
                        let binds = compile_params(st, slot, params@, inner);
                        match binds.result {
                            Ok(bind_ops) => {
                                let content = compile_nodes(binds.state, slot, body@, inner);
                                match content.result {
                                    Ok(body_ops) => scoped(
                                        Seq::empty(),
                                        after(
                                            bind_ops,
                                            compile_node(
                                                content.state,
                                                Some(body_ops),
                                                st.components[name@],
                                                inner,
                                            ),
                                        ),
                                    ),
                                    Err(_) => content,
                                }
                            },
                            Err(_) => binds,
                        }
                    },
                }
            },
            Node::ChildContent(_) => match slot {
                Some(ops) => emit(st, ops),
                None => emit(st, Seq::empty()),
            },
            Node::Raw(text, _) => write_literal(st, text@),
            Node::UseDirective(alias, (path, _), component, _) => emit(
                State {
                    components: st.components.insert(alias@, *component),
                    use_directives: st.use_directives.push((alias@, path)),
                    ..st
                },
                Seq::empty(),
            ),
            Node::ContinueDirective(_) => emit(st, seq![Op::Continue]),
            Node::BreakDirective(_) => emit(st, seq![Op::Break]),
        }
    }
}

/// The nodes of a list, compiled in source order up to the first failure.
pub open spec fn compile_nodes(
    st: State,
    slot: Option<Seq<Op>>,
    nodes: Seq<Node>,
    depth: nat,
) -> Outcome
    decreases depth, 1nat, nodes.len(),
{
    if nodes.len() == 0 {
        emit(st, Seq::empty())
    } else {
        let first = compile_node(st, slot, nodes.first(), depth);
        match first.result {
            Ok(ops) => after(ops, compile_nodes(first.state, slot, nodes.drop_first(), depth)),
            Err(_) => first,
        }
    }
}

/// The operation that opens a branch: the pattern of a match arm, or the header
/// of a control clause.
pub open spec fn branch_head(head: Seq<char>, arm: bool) -> Op {
    if arm {
        Op::Arm(head)
    } else {
        Op::Header(head)
    }
}

/// One branch: its head as it stands, and its body in a scope of its own.
pub open spec fn compile_branch(
    st: State,
    slot: Option<Seq<Op>>,
    branch: ((String, Position), Vec<Node>),
    arm: bool,
    depth: nat,
) -> Outcome
    decreases depth, 2nat, 0nat,
{
    match checked(tokenizes(branch.0.0@), branch.0.1) {
        Ok(_) => scoped(
            seq![branch_head(branch.0.0@, arm)],
            compile_nodes(st, slot, branch.1@, depth),
        ),
        Err(e) => Outcome { state: st, result: Err(e) },
    }
}

/// The clauses of a control expression, or the arms of a match, chained in
/// source order up to the first failure.
pub open spec fn compile_branches(
    st: State,
    slot: Option<Seq<Op>>,
    branches: Seq<((String, Position), Vec<Node>)>,
    arm: bool,
    depth: nat,
) -> Outcome
    decreases depth, 3nat, branches.len(),
{
    if branches.len() == 0 {
        emit(st, Seq::empty())
    } else {
        let first = compile_branch(st, slot, branches.first(), arm, depth);
        match first.result {
            Ok(ops) => after(
                ops,
                compile_branches(first.state, slot, branches.drop_first(), arm, depth),
            ),
            Err(_) => first,
        }
    }
}

/// One parameter of a component call: the binding of its name to its value.
pub open spec fn compile_param(
    st: State,
    slot: Option<Seq<Op>>,
    param: (ComponentParameter, Position),
    depth: nat,
) -> Outcome
    decreases depth, 2nat, 0nat,
{
    let name = param.0.name@;
    match param.0.value {
        ComponentParameterValue::Bool(b) => emit(st, seq![Op::BindBool(name, b)]),
        ComponentParameterValue::Number(n) => emit(st, seq![Op::BindNumber(name, n@)]),
        ComponentParameterValue::String(s) => emit(st, seq![Op::BindText(name, s@)]),
        ComponentParameterValue::RustExprParen(f) => splice(
            st,
            f@,
            param.1,
            Op::BindCode(name, f@),
        ),
        ComponentParameterValue::RustExprSimple(f) => splice(
            st,
            f@,
            param.1,
            Op::BindCode(name, f@),
        ),
        ComponentParameterValue::Block(nodes) => scoped(
            seq![Op::BindBlock(name)],
            compile_nodes(st, slot, nodes@, depth),
        ),
    }
}

/// The parameters of a component call, bound in source order up to the first
/// failure.
pub open spec fn compile_params(
    st: State,
    slot: Option<Seq<Op>>,
    params: Seq<(ComponentParameter, Position)>,
    depth: nat,
) -> Outcome
    decreases depth, 3nat, params.len(),
{
    if params.len() == 0 {
        emit(st, Seq::empty())
    } else {
        let first = compile_param(st, slot, params.first(), depth);
        match first.result {
            Ok(ops) => after(ops, compile_params(first.state, slot, params.drop_first(), depth)),
            Err(_) => first,
        }
    }
}

/// A whole template: one pass over the template itself and, if it extends a
/// layout, a second pass over the layout with the output of the first as body.
pub open spec fn compile_template(st: State, node: Node, depth: nat) -> Outcome {
    let first = compile_node(st, None, node, depth);
    match first.result {
        Ok(ops) => match first.state.layout {
            Some(layout) => compile_node(
                State { section_body: Some(ops), ..first.state },
                None,
                layout,
                depth,
            ),
            None => first,
        },
        Err(_) => first,
    }
}

} // verus!
