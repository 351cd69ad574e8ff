//! Lowering a code block touches nothing of the state but the size hint, and
//! treats text lines and text blocks alike.

use crate::model::{
    lower_block_item, lower_block_items, lower_content, lower_contents, lower_line_item,
    lower_line_items, State,
};
use crate::node::{RustBlockContent, TextBlockItem, TextLineItem};
use vstd::prelude::*;

verus! {

/// The two states differ at most in the size hint.
pub open spec fn same_but_size(a: State, b: State) -> bool {
    b == (State { text_size: b.text_size, ..a })
}

/// Lowering the items of a text line changes at most the size hint.
pub proof fn lemma_line_items_frame(st: State, items: Seq<TextLineItem>)
    ensures
        same_but_size(st, lower_line_items(st, items).state),
    decreases items.len(),
{
    if items.len() > 0 {
        let first = lower_line_item(st, items.first());
        if first.result is Ok {
            lemma_line_items_frame(first.state, items.drop_first());
        }
    }
}

/// Lowering the items of a text block changes at most the size hint.
pub proof fn lemma_block_items_frame(st: State, items: Seq<TextBlockItem>)
    ensures
        same_but_size(st, lower_block_items(st, items).state),
    decreases items.len(),
{
    if items.len() > 0 {
        let first = lower_block_item(st, items.first());
        if first.result is Ok {
            lemma_block_items_frame(first.state, items.drop_first());
        }
    }
}

/// Lowering one piece of a code block changes at most the size hint.
pub proof fn lemma_content_frame(st: State, content: RustBlockContent, depth: nat)
    ensures
        same_but_size(st, lower_content(st, content, depth).state),
    decreases depth, 0nat,
{
    if depth > 0 {
        match content {
            RustBlockContent::Code(_, _) => {},
            RustBlockContent::TextLine(items, _) => lemma_line_items_frame(st, items@),
            RustBlockContent::TextBlock(items, _) => lemma_block_items_frame(st, items@),
            RustBlockContent::NestedBlock(inner, _) => lemma_contents_frame(
                st,
                inner@,
                (depth - 1) as nat,
            ),
        }
    }
}

/// Lowering the pieces of a code block changes at most the size hint.
pub proof fn lemma_contents_frame(st: State, contents: Seq<RustBlockContent>, depth: nat)
    ensures
        same_but_size(st, lower_contents(st, contents, depth).state),
    decreases depth, 1 + contents.len(),
{
    if contents.len() > 0 {
        lemma_content_frame(st, contents.first(), depth);
        let first = lower_content(st, contents.first(), depth);
        if first.result is Ok {
            lemma_contents_frame(first.state, contents.drop_first(), depth);
        }
    }
}

/// The item of a text line and the item of a text block say the same.
pub open spec fn same_item(line: TextLineItem, block: TextBlockItem) -> bool {
    match (line, block) {
        (TextLineItem::Text(a, _), TextBlockItem::Text(b, _)) => a@ == b@,
        (
            TextLineItem::RustExprSimple(a, escape_a, at_a),
            TextBlockItem::RustExprSimple(b, escape_b, at_b),
        ) => a@ == b@ && escape_a == escape_b && at_a == at_b,
        _ => false,
    }
}

/// A text line and a text block whose items say the same lower to the same.
pub proof fn lemma_line_and_block_agree(
    st: State,
    line: Seq<TextLineItem>,
    block: Seq<TextBlockItem>,
)
    requires
        line.len() == block.len(),
        forall|i: int| 0 <= i < line.len() ==> same_item(#[trigger] line[i], block[i]),
    ensures
        lower_line_items(st, line) == lower_block_items(st, block),
    decreases line.len(),
{
    if line.len() > 0 {
        assert(same_item(line[0], block[0]));
        let first = lower_line_item(st, line.first());
        assert(first == lower_block_item(st, block.first()));
        if first.result is Ok {
            let rest_line = line.drop_first();
            let rest_block = block.drop_first();
            assert forall|i: int| 0 <= i < rest_line.len() implies same_item(
                #[trigger] rest_line[i],
                rest_block[i],
            ) by {
                assert(same_item(line[i + 1], block[i + 1]));
            }
            lemma_line_and_block_agree(first.state, rest_line, rest_block);
        }
    }
}

} // verus!
