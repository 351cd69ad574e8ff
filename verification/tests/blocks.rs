use rshtml_core::compiler::rust_block::RustBlockCompiler;
use rshtml_core::compiler::Compiler;
use rshtml_core::emit::{EmissionOps, EmitOp};
use rshtml_core::error::{CompileError, Reason};
use rshtml_core::node::{Node, Position, RustBlockContent, TextBlockItem, TextLineItem};

fn at(line: usize) -> Position {
    Position((line, 1), (line, 9))
}

fn ops(list: Vec<EmitOp>) -> EmissionOps {
    EmissionOps { ops: list }
}

fn write(s: &str) -> EmitOp {
    EmitOp::Write(s.to_string())
}

fn code(s: &str, line: usize) -> RustBlockContent {
    RustBlockContent::Code(s.to_string(), at(line))
}

#[test]
fn code_passes_through_unchanged() {
    let contents = vec![code("let  x = 1 ;", 1), code("// a comment\nlet y = \"</p>\";", 2)];
    let mut c = Compiler::new();
    assert_eq!(
        RustBlockCompiler::compile(&mut c, &contents),
        Ok(ops(vec![
            EmitOp::Code("let  x = 1 ;".to_string()),
            EmitOp::Code("// a comment\nlet y = \"</p>\";".to_string()),
        ]))
    );
    assert_eq!(c.text_size(), 0);
}

#[test]
fn empty_block_compiles_to_nothing() {
    let mut c = Compiler::new();
    assert_eq!(RustBlockCompiler::compile(&mut c, &vec![]), Ok(ops(vec![])));
    let node = Node::RustBlock(vec![], at(1));
    assert_eq!(c.compile(&node), Ok(ops(vec![])));
}

#[test]
fn malformed_code_fails_at_its_position() {
    let contents = vec![code("let x = 1;", 1), code("let y = (;", 2), code("let z = 3;", 3)];
    let mut c = Compiler::new();
    assert_eq!(
        RustBlockCompiler::compile(&mut c, &contents),
        Err(CompileError { reason: Reason::MalformedFragment, position: at(2) })
    );
}

#[test]
fn text_line_lowers_its_items_in_order() {
    let contents = vec![RustBlockContent::TextLine(
        vec![
            TextLineItem::Text("Hello ".to_string(), at(1)),
            TextLineItem::RustExprSimple("name".to_string(), true, at(1)),
            TextLineItem::Text("!".to_string(), at(1)),
        ],
        at(1),
    )];
    let mut c = Compiler::new();
    assert_eq!(
        RustBlockCompiler::compile(&mut c, &contents),
        Ok(ops(vec![write("Hello "), EmitOp::WriteExpr("name".to_string(), true), write("!")]))
    );
    assert_eq!(c.text_size(), 7);
}

#[test]
fn text_block_lowers_like_a_text_line() {
    let line = vec![RustBlockContent::TextLine(
        vec![
            TextLineItem::Text("  a\n".to_string(), at(1)),
            TextLineItem::RustExprSimple("b".to_string(), false, at(1)),
        ],
        at(1),
    )];
    let block = vec![RustBlockContent::TextBlock(
        vec![
            TextBlockItem::Text("  a\n".to_string(), at(1)),
            TextBlockItem::RustExprSimple("b".to_string(), false, at(1)),
        ],
        at(1),
    )];
    let mut c = Compiler::new();
    let from_line = RustBlockCompiler::compile(&mut c, &line);
    let from_block = RustBlockCompiler::compile(&mut c, &block);
    assert_eq!(from_line, Ok(ops(vec![write("  a\n"), EmitOp::WriteExpr("b".to_string(), false)])));
    assert_eq!(from_line, from_block);
}

#[test]
fn malformed_splice_in_text_fails_at_the_splice() {
    let contents = vec![RustBlockContent::TextBlock(
        vec![
            TextBlockItem::Text("a".to_string(), at(1)),
            TextBlockItem::RustExprSimple("b}".to_string(), true, at(2)),
        ],
        at(1),
    )];
    let mut c = Compiler::new();
    assert_eq!(
        RustBlockCompiler::compile(&mut c, &contents),
        Err(CompileError { reason: Reason::MalformedFragment, position: at(2) })
    );
}

#[test]
fn nested_block_gets_its_own_scope() {
    let contents = vec![
        code("let a = 1;", 1),
        RustBlockContent::NestedBlock(
            vec![
                code("let b = 2;", 2),
                RustBlockContent::NestedBlock(vec![], at(3)),
                RustBlockContent::TextLine(vec![TextLineItem::Text("t".to_string(), at(4))], at(4)),
            ],
            at(2),
        ),
        code("let c = 3;", 5),
    ];
    let mut c = Compiler::new();
    assert_eq!(
        RustBlockCompiler::compile(&mut c, &contents),
        Ok(ops(vec![
            EmitOp::Code("let a = 1;".to_string()),
            EmitOp::OpenScope,
            EmitOp::Code("let b = 2;".to_string()),
            EmitOp::OpenScope,
            EmitOp::CloseScope,
            write("t"),
            EmitOp::CloseScope,
            EmitOp::Code("let c = 3;".to_string()),
        ]))
    );
}

#[test]
fn block_node_compiles_like_its_contents() {
    let node = Node::RustBlock(
        vec![
            code("let n = 2;", 1),
            RustBlockContent::TextLine(vec![TextLineItem::Text("n".to_string(), at(2))], at(2)),
        ],
        at(1),
    );
    let mut c = Compiler::new();
    assert_eq!(
        c.compile(&node),
        Ok(ops(vec![EmitOp::Code("let n = 2;".to_string()), write("n")]))
    );
}

#[test]
fn nested_blocks_beyond_the_limit_fail() {
    let contents = vec![RustBlockContent::NestedBlock(
        vec![RustBlockContent::NestedBlock(vec![code("x;", 3)], at(2))],
        at(1),
    )];
    let mut shallow = Compiler::with_depth_limit(2);
    assert_eq!(
        RustBlockCompiler::compile(&mut shallow, &contents),
        Err(CompileError { reason: Reason::NestingTooDeep, position: at(3) })
    );
    let mut enough = Compiler::with_depth_limit(3);
    assert_eq!(
        RustBlockCompiler::compile(&mut enough, &contents),
        Ok(ops(vec![
            EmitOp::OpenScope,
            EmitOp::OpenScope,
            EmitOp::Code("x;".to_string()),
            EmitOp::CloseScope,
            EmitOp::CloseScope,
        ]))
    );
}

#[test]
fn block_content_position_is_the_attached_span() {
    assert_eq!(code("x", 3).position(), at(3));
    assert_eq!(RustBlockContent::NestedBlock(vec![], at(4)).position(), at(4));
    assert_eq!(RustBlockContent::TextLine(vec![], at(5)).position(), at(5));
    assert_eq!(RustBlockContent::TextBlock(vec![], at(6)).position(), at(6));
}
