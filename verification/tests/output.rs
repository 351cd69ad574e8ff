use rshtml_core::emit::{EmissionOps, EmitOp};
use rshtml_core::error::{CompileError, Reason};
use rshtml_core::fragment::{check_fragment, fragment_verdict};
use rshtml_core::names::NameMap;
use rshtml_core::node::{Node, Position, SectionDirectiveContent};
use rshtml_core::{buffer_capacity, failure_message, process_template};
use std::path::PathBuf;

fn at(line: usize) -> Position {
    Position((line, 1), (line, 9))
}

fn write(s: &str) -> EmitOp {
    EmitOp::Write(s.to_string())
}

#[test]
fn buffer_capacity_adds_a_tenth_within_bounds() {
    assert_eq!(buffer_capacity(0), 32);
    assert_eq!(buffer_capacity(100), 132);
    assert_eq!(buffer_capacity(319), 351);
    assert_eq!(buffer_capacity(320), 352);
    assert_eq!(buffer_capacity(330), 363);
    assert_eq!(buffer_capacity(1000), 1100);
    assert_eq!(buffer_capacity(5120), 5632);
    assert_eq!(buffer_capacity(5130), 5642);
    assert_eq!(buffer_capacity(10000), 10512);
}

#[test]
fn buffer_capacity_stops_at_the_largest_size() {
    assert_eq!(buffer_capacity(usize::MAX), usize::MAX);
    assert_eq!(buffer_capacity(usize::MAX - 512), usize::MAX);
    assert_eq!(buffer_capacity(usize::MAX - 513), usize::MAX - 1);
}

#[test]
fn failure_message_names_struct_and_template() {
    assert_eq!(
        failure_message("HomePage", "home.rs.html", "Lex Error: cannot parse string into token stream"),
        "Template processing failed for struct `HomePage` with template `home.rs.html`:\nLex Error: cannot parse string into token stream"
    );
}

#[test]
fn reason_messages_are_distinct() {
    assert_eq!(Reason::MalformedFragment.message(), "Lex Error: cannot parse string into token stream");
    assert_eq!(Reason::ProtocolViolation.message(), "Protocol Error: conflicting use of a directive");
    assert_eq!(
        Reason::UnresolvedComponent.message(),
        "Component Error: component is used before its use directive"
    );
    assert_eq!(Reason::NestingTooDeep.message(), "Depth Error: template is nested too deeply");
}

#[test]
fn check_fragment_accepts_what_tokenizes() {
    assert_eq!(check_fragment("a.b(c)", at(1)), Ok(()));
    assert_eq!(check_fragment("", at(1)), Ok(()));
    assert_eq!(check_fragment("for x in 0..10", at(1)), Ok(()));
}

#[test]
fn check_fragment_refuses_what_does_not_tokenize() {
    let refused = Err(CompileError { reason: Reason::MalformedFragment, position: at(2) });
    assert_eq!(check_fragment("a.b(c", at(2)), refused);
    assert_eq!(check_fragment("]", at(2)), refused);
    assert_eq!(check_fragment("\"unterminated", at(2)), refused);
}

#[test]
fn fragment_verdict_follows_the_lexer() {
    assert_eq!(fragment_verdict(true, at(1)), Ok(()));
    assert_eq!(
        fragment_verdict(false, at(3)),
        Err(CompileError { reason: Reason::MalformedFragment, position: at(3) })
    );
}

#[test]
fn process_template_gives_ops_sections_and_capacity() {
    let layout = Node::Template(
        vec![
            Node::Text("<title>".to_string(), at(1)),
            Node::RenderDirective("title".to_string(), at(1)),
            Node::Text("</title>".to_string(), at(1)),
            Node::RenderBody(at(2)),
        ],
        at(1),
    );
    let template = Node::Template(
        vec![
            Node::ExtendsDirective((PathBuf::from("layout.html"), at(1)), Box::new(layout), at(1)),
            Node::SectionDirective(
                ("title".to_string(), at(2)),
                (SectionDirectiveContent::Text("Home".to_string()), at(2)),
                at(2),
            ),
            Node::Text("<p>body</p>".to_string(), at(3)),
        ],
        at(1),
    );
    let compiled = process_template(&template).unwrap();
    assert_eq!(
        compiled.ops,
        EmissionOps {
            ops: vec![write("<title>"), write("Home"), write("</title>"), write("<p>body</p>")],
        }
    );
    assert_eq!(compiled.sections, vec!["title".to_string()]);
    // literals met: "Home" 4, "<p>body</p>" 11, "<title>" 7, "</title>" 8
    assert_eq!(compiled.capacity, 30 + 32);
}

#[test]
fn process_template_reports_the_failure() {
    let template = Node::Component(("Card".to_string(), at(4)), vec![], vec![], at(4));
    assert_eq!(
        process_template(&template).err(),
        Some(CompileError { reason: Reason::UnresolvedComponent, position: at(4) })
    );
}

#[test]
fn emission_ops_grow_in_order() {
    let mut ops = EmissionOps::new();
    assert_eq!(ops.len(), 0);
    ops.push(write("a"));
    ops.append(EmissionOps::single(EmitOp::OpenScope));
    let tail = EmissionOps { ops: vec![write("b"), EmitOp::CloseScope] };
    ops.extend(&tail);
    assert_eq!(ops.len(), 4);
    assert_eq!(ops, EmissionOps { ops: vec![write("a"), EmitOp::OpenScope, write("b"), EmitOp::CloseScope] });
    assert_eq!(ops.clone(), ops);
    assert_eq!(tail.len(), 2);
}

#[test]
fn emit_op_clone_is_equal() {
    let all = vec![
        write("w"),
        EmitOp::WriteExpr("e".to_string(), true),
        EmitOp::Code("c".to_string()),
        EmitOp::OpenScope,
        EmitOp::CloseScope,
        EmitOp::Header("h".to_string()),
        EmitOp::Match("m".to_string()),
        EmitOp::Arm("a".to_string()),
        EmitOp::Continue,
        EmitOp::Break,
        EmitOp::BindBool("n".to_string(), false),
        EmitOp::BindNumber("n".to_string(), "1".to_string()),
        EmitOp::BindText("n".to_string(), "t".to_string()),
        EmitOp::BindCode("n".to_string(), "f()".to_string()),
        EmitOp::BindBlock("n".to_string()),
    ];
    for op in &all {
        assert_eq!(&op.clone(), op);
    }
}

#[test]
fn name_map_replaces_and_keeps_first_order() {
    let mut map: NameMap<u32> = NameMap::new();
    assert!(map.names().is_empty());
    assert_eq!(map.get(&"a".to_string()), None);
    map.insert("a".to_string(), 1);
    map.insert("b".to_string(), 2);
    map.insert("a".to_string(), 3);
    assert_eq!(map.get(&"a".to_string()), Some(&3));
    assert_eq!(map.get(&"b".to_string()), Some(&2));
    assert_eq!(map.get(&"c".to_string()), None);
    assert!(map.contains(&"a".to_string()));
    assert!(!map.contains(&"".to_string()));
    assert_eq!(map.names(), vec!["a".to_string(), "b".to_string()]);
}
