use rshtml_core::compiler::walk::find_repeat;
use rshtml_core::compiler::Compiler;
use rshtml_core::emit::{EmissionOps, EmitOp};
use rshtml_core::error::{CompileError, Reason};
use rshtml_core::node::{ComponentParameter, ComponentParameterValue, Node, Position};
use std::path::PathBuf;

fn at(line: usize) -> Position {
    Position((line, 1), (line, 9))
}

fn text(s: &str, line: usize) -> Node {
    Node::Text(s.to_string(), at(line))
}

fn ops(list: Vec<EmitOp>) -> EmissionOps {
    EmissionOps { ops: list }
}

fn write(s: &str) -> EmitOp {
    EmitOp::Write(s.to_string())
}

fn import(alias: &str, path: &str, component: Node, line: usize) -> Node {
    Node::UseDirective(alias.to_string(), (PathBuf::from(path), at(line)), Box::new(component), at(line))
}

fn call(name: &str, params: Vec<(ComponentParameter, Position)>, body: Vec<Node>, line: usize) -> Node {
    Node::Component((name.to_string(), at(line)), params, body, at(line))
}

fn param(name: &str, value: ComponentParameterValue, line: usize) -> (ComponentParameter, Position) {
    (ComponentParameter { name: name.to_string(), value }, at(line))
}

#[test]
fn use_directive_emits_nothing() {
    let node = import("Card", "card.rs.html", Node::Template(vec![text("card", 1)], at(1)), 1);
    let mut c = Compiler::new();
    assert_eq!(c.compile(&node), Ok(ops(vec![])));
    assert_eq!(c.text_size(), 0);
}

#[test]
fn component_before_its_use_is_unresolved() {
    let template = Node::Template(
        vec![
            call("Card", vec![], vec![], 1),
            import("Card", "card.rs.html", Node::Template(vec![text("card", 1)], at(1)), 2),
        ],
        at(1),
    );
    let mut c = Compiler::new();
    assert_eq!(
        c.compile(&template),
        Err(CompileError { reason: Reason::UnresolvedComponent, position: at(1) })
    );
}

#[test]
fn component_without_any_use_is_unresolved() {
    let template = call("Missing", vec![], vec![text("x", 2)], 3);
    let mut c = Compiler::new();
    assert_eq!(
        c.compile(&template),
        Err(CompileError { reason: Reason::UnresolvedComponent, position: at(3) })
    );
}

#[test]
fn component_after_its_use_expands_in_a_scope() {
    let template = Node::Template(
        vec![
            import("Card", "card.rs.html", Node::Template(vec![text("<card/>", 1)], at(1)), 1),
            text("a", 2),
            call("Card", vec![], vec![], 3),
            text("b", 4),
        ],
        at(1),
    );
    let mut c = Compiler::new();
    assert_eq!(
        c.compile(&template),
        Ok(ops(vec![
            write("a"),
            EmitOp::OpenScope,
            write("<card/>"),
            EmitOp::CloseScope,
            write("b"),
        ]))
    );
}

#[test]
fn child_content_stands_at_the_placeholder_only() {
    let card = Node::Template(
        vec![text("<div>", 1), Node::ChildContent(at(2)), text("</div>", 3)],
        at(1),
    );
    let template = Node::Template(
        vec![
            import("Card", "card.rs.html", card, 1),
            call(
                "Card",
                vec![],
                vec![text("one", 5), Node::RustExprSimple("two".to_string(), true, at(6)), text("three", 7)],
                4,
            ),
        ],
        at(1),
    );
    let mut c = Compiler::new();
    let compiled = c.compile(&template).unwrap();
    assert_eq!(
        compiled,
        ops(vec![
            EmitOp::OpenScope,
            write("<div>"),
            write("one"),
            EmitOp::WriteExpr("two".to_string(), true),
            write("three"),
            write("</div>"),
            EmitOp::CloseScope,
        ])
    );
    let count = compiled.ops.iter().filter(|op| **op == write("one")).count();
    assert_eq!(count, 1);
}

#[test]
fn component_without_placeholder_drops_the_child_content() {
    let card = Node::Template(vec![text("fixed", 1)], at(1));
    let template = Node::Template(
        vec![import("Card", "card.rs.html", card, 1), call("Card", vec![], vec![text("unused", 3)], 2)],
        at(1),
    );
    let mut c = Compiler::new();
    assert_eq!(
        c.compile(&template),
        Ok(ops(vec![EmitOp::OpenScope, write("fixed"), EmitOp::CloseScope]))
    );
}

#[test]
fn child_content_outside_a_component_is_empty() {
    let template = Node::Template(vec![text("a", 1), Node::ChildContent(at(2)), text("b", 3)], at(1));
    let mut c = Compiler::new();
    assert_eq!(c.compile(&template), Ok(ops(vec![write("a"), write("b")])));
}

#[test]
fn parameters_become_bindings_in_order() {
    let card = Node::Template(vec![Node::RustExprSimple("title".to_string(), true, at(1))], at(1));
    let template = Node::Template(
        vec![
            import("Card", "card.rs.html", card, 1),
            call(
                "Card",
                vec![
                    param("open", ComponentParameterValue::Bool(true), 2),
                    param("count", ComponentParameterValue::Number("1.50".to_string()), 3),
                    param("title", ComponentParameterValue::String("Hi".to_string()), 4),
                    param("user", ComponentParameterValue::RustExprParen("self.user()".to_string()), 5),
                    param("id", ComponentParameterValue::RustExprSimple("id".to_string()), 6),
                    param("footer", ComponentParameterValue::Block(vec![text("foot", 7)]), 7),
                ],
                vec![],
                2,
            ),
        ],
        at(1),
    );
    let mut c = Compiler::new();
    assert_eq!(
        c.compile(&template),
        Ok(ops(vec![
            EmitOp::OpenScope,
            EmitOp::BindBool("open".to_string(), true),
            EmitOp::BindNumber("count".to_string(), "1.50".to_string()),
            EmitOp::BindText("title".to_string(), "Hi".to_string()),
            EmitOp::BindCode("user".to_string(), "self.user()".to_string()),
            EmitOp::BindCode("id".to_string(), "id".to_string()),
            EmitOp::BindBlock("footer".to_string()),
            EmitOp::OpenScope,
            write("foot"),
            EmitOp::CloseScope,
            EmitOp::WriteExpr("title".to_string(), true),
            EmitOp::CloseScope,
        ]))
    );
}

#[test]
fn malformed_parameter_fragment_fails_at_the_parameter() {
    let card = Node::Template(vec![], at(1));
    let template = Node::Template(
        vec![
            import("Card", "card.rs.html", card, 1),
            call(
                "Card",
                vec![
                    param("a", ComponentParameterValue::Bool(false), 2),
                    param("b", ComponentParameterValue::RustExprParen("x[".to_string()), 3),
                ],
                vec![],
                2,
            ),
        ],
        at(1),
    );
    let mut c = Compiler::new();
    assert_eq!(
        c.compile(&template),
        Err(CompileError { reason: Reason::MalformedFragment, position: at(3) })
    );
}

#[test]
fn repeated_parameter_name_is_a_protocol_violation() {
    let card = Node::Template(vec![], at(1));
    let template = Node::Template(
        vec![
            import("Card", "card.rs.html", card, 1),
            call(
                "Card",
                vec![
                    param("a", ComponentParameterValue::Bool(false), 2),
                    param("b", ComponentParameterValue::Bool(false), 3),
                    param("a", ComponentParameterValue::Bool(true), 4),
                    param("b", ComponentParameterValue::Bool(true), 5),
                ],
                vec![],
                2,
            ),
        ],
        at(1),
    );
    let mut c = Compiler::new();
    assert_eq!(
        c.compile(&template),
        Err(CompileError { reason: Reason::ProtocolViolation, position: at(4) })
    );
}

#[test]
fn find_repeat_gives_the_first_repeated_parameter() {
    let none = vec![
        param("a", ComponentParameterValue::Bool(false), 1),
        param("b", ComponentParameterValue::Bool(false), 2),
    ];
    assert_eq!(find_repeat(&none), None);
    assert_eq!(find_repeat(&vec![]), None);
    let some = vec![
        param("a", ComponentParameterValue::Bool(false), 1),
        param("b", ComponentParameterValue::Bool(false), 2),
        param("c", ComponentParameterValue::Bool(false), 3),
        param("b", ComponentParameterValue::Bool(false), 4),
        param("a", ComponentParameterValue::Bool(false), 5),
    ];
    assert_eq!(find_repeat(&some), Some(3));
}

#[test]
fn nested_components_get_their_own_child_content() {
    let inner = Node::Template(vec![text("(", 1), Node::ChildContent(at(1)), text(")", 1)], at(1));
    let outer = Node::Template(
        vec![
            text("[", 2),
            call("Inner", vec![], vec![text("in", 3), Node::ChildContent(at(3))], 3),
            text("]", 4),
        ],
        at(2),
    );
    let template = Node::Template(
        vec![
            import("Inner", "inner.rs.html", inner, 1),
            import("Outer", "outer.rs.html", outer, 2),
            call("Outer", vec![], vec![text("out", 6)], 5),
        ],
        at(1),
    );
    let mut c = Compiler::new();
    assert_eq!(
        c.compile(&template),
        Ok(ops(vec![
            EmitOp::OpenScope,
            write("["),
            EmitOp::OpenScope,
            write("("),
            write("in"),
            write("out"),
            write(")"),
            EmitOp::CloseScope,
            write("]"),
            EmitOp::CloseScope,
        ]))
    );
}

#[test]
fn later_use_of_the_same_alias_replaces_the_component() {
    let first = Node::Template(vec![text("first", 1)], at(1));
    let second = Node::Template(vec![text("second", 2)], at(2));
    let template = Node::Template(
        vec![
            import("Card", "a.rs.html", first, 1),
            import("Card", "b.rs.html", second, 2),
            call("Card", vec![], vec![], 3),
        ],
        at(1),
    );
    let mut c = Compiler::new();
    assert_eq!(
        c.compile(&template),
        Ok(ops(vec![EmitOp::OpenScope, write("second"), EmitOp::CloseScope]))
    );
}

#[test]
fn component_that_calls_itself_runs_into_the_limit() {
    let card = Node::Template(vec![call("Card", vec![], vec![], 9)], at(8));
    let template = Node::Template(
        vec![import("Card", "card.rs.html", card, 1), call("Card", vec![], vec![], 2)],
        at(1),
    );
    let mut c = Compiler::with_depth_limit(16);
    let r = c.compile(&template);
    assert!(matches!(r, Err(CompileError { reason: Reason::NestingTooDeep, .. })));
}

#[test]
fn component_may_register_a_section() {
    let card = Node::Template(
        vec![Node::SectionBlock(("side".to_string(), at(1)), vec![Node::ChildContent(at(1))], at(1))],
        at(1),
    );
    let template = Node::Template(
        vec![
            import("Card", "card.rs.html", card, 1),
            call("Card", vec![], vec![text("menu", 3)], 2),
            Node::RenderDirective("side".to_string(), at(4)),
        ],
        at(1),
    );
    let mut c = Compiler::new();
    assert_eq!(
        c.compile(&template),
        Ok(ops(vec![EmitOp::OpenScope, EmitOp::CloseScope, write("menu")]))
    );
}

#[test]
fn use_directives_are_recorded_in_order() {
    let first = Node::Template(vec![], at(1));
    let second = Node::Template(vec![], at(2));
    let template = Node::Template(
        vec![import("Card", "a.rs.html", first, 1), import("List", "b.rs.html", second, 2)],
        at(1),
    );
    let mut c = Compiler::new();
    assert!(c.use_directives().is_empty());
    c.compile(&template).unwrap();
    let record: Vec<(String, PathBuf)> =
        c.use_directives().iter().map(|(alias, path)| (alias.clone(), (*path).clone())).collect();
    assert_eq!(
        record,
        vec![
            ("Card".to_string(), PathBuf::from("a.rs.html")),
            ("List".to_string(), PathBuf::from("b.rs.html")),
        ]
    );
}

#[test]
fn compiled_scopes_are_well_nested() {
    let card = Node::Template(
        vec![
            text("<div>", 1),
            Node::RustExpr(
                vec![
                    (("if open".to_string(), at(2)), vec![Node::ChildContent(at(2))]),
                    (("else".to_string(), at(3)), vec![text("closed", 3)]),
                ],
                at(2),
            ),
            text("</div>", 4),
        ],
        at(1),
    );
    let template = Node::Template(
        vec![
            import("Card", "card.rs.html", card, 1),
            call(
                "Card",
                vec![param("footer", ComponentParameterValue::Block(vec![text("f", 2)]), 2)],
                vec![Node::MatchExpr(
                    ("kind".to_string(), at(3)),
                    vec![(("_".to_string(), at(4)), vec![text("any", 4)])],
                    at(3),
                )],
                2,
            ),
        ],
        at(1),
    );
    let mut c = Compiler::new();
    let compiled = c.compile(&template).unwrap();
    let mut open: usize = 0;
    for op in &compiled.ops {
        match op {
            EmitOp::OpenScope => open += 1,
            EmitOp::CloseScope => {
                assert!(open > 0);
                open -= 1;
            }
            _ => {}
        }
    }
    assert_eq!(open, 0);
    assert_eq!(compiled.ops.iter().filter(|op| **op == EmitOp::OpenScope).count(), 6);
}
