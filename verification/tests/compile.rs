use rshtml_core::compiler::{Compiler, DEFAULT_DEPTH_LIMIT};
use rshtml_core::emit::{EmissionOps, EmitOp};
use rshtml_core::error::{CompileError, Reason};
use rshtml_core::escape::escape_or_raw;
use rshtml_core::node::{Node, Position};

fn at(line: usize) -> Position {
    Position((line, 1), (line, 9))
}

fn text(s: &str, line: usize) -> Node {
    Node::Text(s.to_string(), at(line))
}

fn ops(list: Vec<EmitOp>) -> EmissionOps {
    EmissionOps { ops: list }
}

fn write(s: &str) -> EmitOp {
    EmitOp::Write(s.to_string())
}

/// What the operations write when every expression evaluates to `value`.
fn written(ops: &EmissionOps, value: &str) -> String {
    let mut out = String::new();
    for op in &ops.ops {
        match op {
            EmitOp::Write(t) => out.push_str(t),
            EmitOp::WriteExpr(_, escaped) => out.push_str(&escape_or_raw(value, *escaped)),
            _ => {}
        }
    }
    out
}

#[test]
fn new_compiler_is_empty() {
    let c = Compiler::new();
    assert_eq!(c.depth_limit(), DEFAULT_DEPTH_LIMIT);
    assert_eq!(c.text_size(), 0);
    assert!(c.section_names().is_empty());
    assert!(c.layout().is_none());
    assert!(c.layout_directive().is_none());
    assert!(!c.has_section("title"));
}

#[test]
fn text_compiles_to_one_write() {
    let node = text("<p>hi</p>", 1);
    let mut c = Compiler::new();
    assert_eq!(c.compile(&node), Ok(ops(vec![write("<p>hi</p>")])));
    assert_eq!(c.text_size(), 9);
}

#[test]
fn inner_text_and_raw_compile_to_one_write_each() {
    let inner = Node::InnerText("{x}".to_string(), at(1));
    let raw = Node::Raw("<b>&</b>".to_string(), at(2));
    let mut c = Compiler::new();
    assert_eq!(c.compile(&inner), Ok(ops(vec![write("{x}")])));
    assert_eq!(c.compile(&raw), Ok(ops(vec![write("<b>&</b>")])));
    assert_eq!(c.text_size(), 3 + 8);
}

#[test]
fn raw_text_is_not_escaped() {
    let raw = Node::Raw("<b>&</b>".to_string(), at(1));
    let mut c = Compiler::new();
    let compiled = c.compile(&raw).unwrap();
    assert_eq!(written(&compiled, "unused"), "<b>&</b>");
}

#[test]
fn comment_compiles_to_nothing() {
    let node = Node::Comment("note to self".to_string(), at(1));
    let mut c = Compiler::new();
    assert_eq!(c.compile(&node), Ok(ops(vec![])));
    assert_eq!(c.text_size(), 0);
}

#[test]
fn text_size_counts_bytes_of_literals() {
    let node = Node::Template(vec![text("é", 1), text("abc", 2)], at(1));
    let mut c = Compiler::new();
    c.compile(&node).unwrap();
    assert_eq!(c.text_size(), 2 + 3);
}

#[test]
fn template_concatenates_children_in_order() {
    let node = Node::Template(
        vec![
            text("a", 1),
            Node::Comment("skip".to_string(), at(2)),
            Node::RustExprSimple("x".to_string(), true, at(3)),
            text("b", 4),
        ],
        at(1),
    );
    let mut c = Compiler::new();
    assert_eq!(
        c.compile(&node),
        Ok(ops(vec![write("a"), EmitOp::WriteExpr("x".to_string(), true), write("b")]))
    );
}

#[test]
fn simple_and_paren_expressions_compile_alike() {
    let simple = Node::RustExprSimple("user.name".to_string(), true, at(1));
    let paren = Node::RustExprParen("user.name".to_string(), true, at(1));
    let mut c = Compiler::new();
    let a = c.compile(&simple);
    let b = c.compile(&paren);
    assert_eq!(a, Ok(ops(vec![EmitOp::WriteExpr("user.name".to_string(), true)])));
    assert_eq!(a, b);
}

#[test]
fn expression_keeps_its_escape_flag() {
    let node = Node::RustExprParen("html()".to_string(), false, at(1));
    let mut c = Compiler::new();
    assert_eq!(c.compile(&node), Ok(ops(vec![EmitOp::WriteExpr("html()".to_string(), false)])));
}

#[test]
fn escaped_expression_emits_entities() {
    let node = Node::Template(
        vec![text("<p>", 1), Node::RustExprSimple("name".to_string(), true, at(1)), text("</p>", 1)],
        at(1),
    );
    let mut c = Compiler::new();
    let compiled = c.compile(&node).unwrap();
    assert_eq!(
        compiled,
        ops(vec![write("<p>"), EmitOp::WriteExpr("name".to_string(), true), write("</p>")])
    );
    assert_eq!(written(&compiled, "<b>"), "<p>&lt;b&gt;</p>");
    assert_ne!(written(&compiled, "<b>"), "<p><b></p>");
}

#[test]
fn unescaped_expression_emits_the_value() {
    let node = Node::Template(
        vec![text("<p>", 1), Node::RustExprSimple("name".to_string(), false, at(1)), text("</p>", 1)],
        at(1),
    );
    let mut c = Compiler::new();
    let compiled = c.compile(&node).unwrap();
    assert_eq!(written(&compiled, "<b>"), "<p><b></p>");
}

#[test]
fn malformed_expression_fails_at_its_position() {
    let node = Node::Template(
        vec![text("a", 1), Node::RustExprSimple("foo(".to_string(), true, at(2)), text("b", 3)],
        at(1),
    );
    let mut c = Compiler::new();
    assert_eq!(
        c.compile(&node),
        Err(CompileError { reason: Reason::MalformedFragment, position: at(2) })
    );
    assert_eq!(c.text_size(), 1);
}

#[test]
fn well_formed_fragments_are_accepted() {
    for fragment in ["x", "a + b", "f(x)[0]", "if let Some(v) = w", "\"text\"", "'c'", "1.5e3"] {
        let node = Node::RustExprSimple(fragment.to_string(), true, at(1));
        let mut c = Compiler::new();
        assert_eq!(c.compile(&node), Ok(ops(vec![EmitOp::WriteExpr(fragment.to_string(), true)])));
    }
}

#[test]
fn ill_formed_fragments_are_refused() {
    for fragment in ["(", ")", "{ ]", "\"open", "a ) b"] {
        let node = Node::RustExprSimple(fragment.to_string(), true, at(4));
        let mut c = Compiler::new();
        assert_eq!(
            c.compile(&node),
            Err(CompileError { reason: Reason::MalformedFragment, position: at(4) })
        );
    }
}

#[test]
fn continue_and_break_compile_to_loop_control() {
    let go_on = Node::ContinueDirective(at(1));
    let leave = Node::BreakDirective(at(2));
    let mut c = Compiler::new();
    assert_eq!(c.compile(&go_on), Ok(ops(vec![EmitOp::Continue])));
    assert_eq!(c.compile(&leave), Ok(ops(vec![EmitOp::Break])));
}

#[test]
fn control_expression_chains_clauses_in_order() {
    let node = Node::RustExpr(
        vec![
            (("if a".to_string(), at(1)), vec![text("A", 1)]),
            (("else if b".to_string(), at(2)), vec![text("B", 2)]),
            (("else".to_string(), at(3)), vec![]),
        ],
        at(1),
    );
    let mut c = Compiler::new();
    assert_eq!(
        c.compile(&node),
        Ok(ops(vec![
            EmitOp::Header("if a".to_string()),
            EmitOp::OpenScope,
            write("A"),
            EmitOp::CloseScope,
            EmitOp::Header("else if b".to_string()),
            EmitOp::OpenScope,
            write("B"),
            EmitOp::CloseScope,
            EmitOp::Header("else".to_string()),
            EmitOp::OpenScope,
            EmitOp::CloseScope,
        ]))
    );
}

#[test]
fn loop_body_may_hold_loop_control() {
    let node = Node::RustExpr(
        vec![(
            ("for item in items".to_string(), at(1)),
            vec![Node::ContinueDirective(at(2)), text("x", 3), Node::BreakDirective(at(4))],
        )],
        at(1),
    );
    let mut c = Compiler::new();
    assert_eq!(
        c.compile(&node),
        Ok(ops(vec![
            EmitOp::Header("for item in items".to_string()),
            EmitOp::OpenScope,
            EmitOp::Continue,
            write("x"),
            EmitOp::Break,
            EmitOp::CloseScope,
        ]))
    );
}

#[test]
fn malformed_clause_header_fails_at_the_header() {
    let node = Node::RustExpr(
        vec![
            (("if a".to_string(), at(1)), vec![text("A", 1)]),
            (("else if (".to_string(), at(2)), vec![text("B", 2)]),
        ],
        at(1),
    );
    let mut c = Compiler::new();
    assert_eq!(
        c.compile(&node),
        Err(CompileError { reason: Reason::MalformedFragment, position: at(2) })
    );
}

#[test]
fn match_keeps_arms_in_order() {
    let node = Node::MatchExpr(
        ("value".to_string(), at(1)),
        vec![
            (("Some(x)".to_string(), at(2)), vec![Node::RustExprSimple("x".to_string(), true, at(2))]),
            (("None".to_string(), at(3)), vec![text("none", 3)]),
        ],
        at(1),
    );
    let mut c = Compiler::new();
    assert_eq!(
        c.compile(&node),
        Ok(ops(vec![
            EmitOp::Match("value".to_string()),
            EmitOp::OpenScope,
            EmitOp::Arm("Some(x)".to_string()),
            EmitOp::OpenScope,
            EmitOp::WriteExpr("x".to_string(), true),
            EmitOp::CloseScope,
            EmitOp::Arm("None".to_string()),
            EmitOp::OpenScope,
            write("none"),
            EmitOp::CloseScope,
            EmitOp::CloseScope,
        ]))
    );
}

#[test]
fn match_without_arms_gets_no_default_arm() {
    let node = Node::MatchExpr(("value".to_string(), at(1)), vec![], at(1));
    let mut c = Compiler::new();
    assert_eq!(
        c.compile(&node),
        Ok(ops(vec![EmitOp::Match("value".to_string()), EmitOp::OpenScope, EmitOp::CloseScope]))
    );
}

#[test]
fn malformed_scrutinee_fails_at_the_scrutinee() {
    let node = Node::MatchExpr(
        ("value[".to_string(), at(5)),
        vec![(("_".to_string(), at(6)), vec![])],
        at(4),
    );
    let mut c = Compiler::new();
    assert_eq!(
        c.compile(&node),
        Err(CompileError { reason: Reason::MalformedFragment, position: at(5) })
    );
}

#[test]
fn malformed_arm_pattern_fails_at_the_pattern() {
    let node = Node::MatchExpr(
        ("value".to_string(), at(5)),
        vec![(("Some(".to_string(), at(6)), vec![])],
        at(4),
    );
    let mut c = Compiler::new();
    assert_eq!(
        c.compile(&node),
        Err(CompileError { reason: Reason::MalformedFragment, position: at(6) })
    );
}

#[test]
fn nesting_beyond_the_limit_fails() {
    let node = Node::Template(vec![Node::Template(vec![text("deep", 3)], at(2))], at(1));
    let mut shallow = Compiler::with_depth_limit(2);
    assert_eq!(
        shallow.compile(&node),
        Err(CompileError { reason: Reason::NestingTooDeep, position: at(3) })
    );
    let mut enough = Compiler::with_depth_limit(3);
    assert_eq!(enough.compile(&node), Ok(ops(vec![write("deep")])));
}

#[test]
fn no_nesting_allowed_fails_at_the_root() {
    let node = text("x", 7);
    let mut c = Compiler::with_depth_limit(0);
    assert_eq!(c.depth_limit(), 0);
    assert_eq!(
        c.compile(&node),
        Err(CompileError { reason: Reason::NestingTooDeep, position: at(7) })
    );
}

#[test]
fn failure_stops_at_the_first_error() {
    let node = Node::Template(
        vec![
            Node::RustExprSimple("(".to_string(), true, at(1)),
            Node::RustExprSimple(")".to_string(), true, at(2)),
        ],
        at(1),
    );
    let mut c = Compiler::new();
    assert_eq!(
        c.compile(&node),
        Err(CompileError { reason: Reason::MalformedFragment, position: at(1) })
    );
}

#[test]
fn same_input_gives_same_error() {
    let node = Node::RustExprSimple("(".to_string(), true, at(1));
    let first = Compiler::new().compile(&node);
    let second = Compiler::new().compile(&node);
    assert!(first.is_err());
    assert_eq!(first, second);
}

#[test]
fn node_position_is_the_attached_span() {
    assert_eq!(text("x", 3).position(), at(3));
    assert_eq!(Node::RenderBody(at(4)).position(), at(4));
    assert_eq!(Node::Template(vec![], at(5)).position(), at(5));
}

#[test]
fn default_position_is_the_origin() {
    assert_eq!(Position::default(), Position((0, 0), (0, 0)));
}

fn nested(levels: usize) -> Node {
    let mut node = text("core", 1);
    for _ in 1..levels {
        node = Node::Template(vec![node], at(1));
    }
    node
}

#[test]
fn default_limit_accepts_its_own_depth() {
    let node = nested(DEFAULT_DEPTH_LIMIT);
    let mut c = Compiler::new();
    assert_eq!(c.compile(&node), Ok(ops(vec![write("core")])));
}

#[test]
fn default_limit_refuses_one_level_more() {
    let node = nested(DEFAULT_DEPTH_LIMIT + 1);
    let mut c = Compiler::new();
    assert_eq!(
        c.compile(&node),
        Err(CompileError { reason: Reason::NestingTooDeep, position: at(1) })
    );
}
