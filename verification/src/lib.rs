//! Compiler core of a templating language: lowers a parsed template tree into
//! an ordered sequence of emission operations.
//!
//! - [`node`] is the tree that a parser hands over.
//! - [`emit`] is what comes out: emission operations.
//! - [`model`] says what each construct of the tree compiles to.
//! - [`compiler`] is the compiler, proved against the model.
//! - [`lemmas`] holds what follows for every compilation: last write wins for
//!   sections, child content stands where a component asks for it, scopes
//!   are well nested, and the body of the child is set by the layout pass only.
//! - [`escape`] is the HTML escaping of dynamic values.
//! - [`fragment`] checks that a code fragment can be tokenized.
//! - [`names`] and [`error`] are the name table and the failures.

pub mod compiler;
pub mod emit;
pub mod error;
pub mod escape;
pub mod fragment;
pub mod lemmas;
pub mod model;
pub mod names;
pub mod node;

use crate::compiler::{Compiler, DEFAULT_DEPTH_LIMIT};
use crate::emit::EmissionOps;
use crate::error::CompileError;
use crate::lemmas::scopes::{lemma_template_neat, well_nested};
use crate::model::{compile_template, grown, initial_state};
use crate::names::distinct_names;
use crate::node::Node;
use vstd::prelude::*;

verus! {

/// What a template compiled to, as the code generator needs it.
pub struct Compiled {
    /// The operations that write the output, in order.
    pub ops: EmissionOps,
    /// The names of the sections that were registered, each once.
    pub sections: Vec<String>,
    /// The capacity to give the output buffer: the size hint and its margin.
    pub capacity: usize,
}

/// The slack added to a size hint: a tenth of it, but no less than 32 and no
/// more than 512.
pub open spec fn margin(size: nat) -> nat {
    if size / 10 < 32 {
        32
    } else if size / 10 > 512 {
        512
    } else {
        size / 10
    }
}

/// The capacity for a size hint: the hint and its margin, held at the largest
/// `usize`.
pub open spec fn capacity_for(size: nat) -> nat {
    grown(size, margin(size))
}

/// The capacity to give the output buffer of a template whose literal texts
/// add up to `text_size`.
pub fn buffer_capacity(text_size: usize) -> (capacity: usize)
    ensures
        capacity == capacity_for(text_size as nat),
{
    let tenth = text_size / 10;
    let slack: usize = if tenth < 32 {
        32
    } else if tenth > 512 {
        512
    } else {
        tenth
    };
    if slack > usize::MAX - text_size {
        usize::MAX
    } else {
        text_size + slack
    }
}

/// The text of the diagnostic for a template that could not be processed.
pub open spec fn failure_text(
    struct_name: Seq<char>,
    template_name: Seq<char>,
    error: Seq<char>,
) -> Seq<char> {
    "Template processing failed for struct `"@ + struct_name + "` with template `"@
        + template_name + "`:\n"@ + error
}

/// Builds the diagnostic for a template that could not be processed.
pub fn failure_message(struct_name: &str, template_name: &str, error: &str) -> (message: String)
    ensures
        message@ == failure_text(struct_name@, template_name@, error@),
{
    let mut message = String::from_str("Template processing failed for struct `");
    message.append(struct_name);
    message.append("` with template `");
    message.append(template_name);
    message.append("`:\n");
    message.append(error);
    message
}

/// Compiles a parsed template from scratch: the template itself and, if it
/// extends one, its layout. On success the result holds the operations of the
/// final pass, which close every scope they open, the names of the sections
/// registered on the way, and the capacity for the output buffer.
pub fn process_template(template: &Node) -> (r: Result<Compiled, CompileError>)
    ensures
        ({
            let done = compile_template(initial_state(), *template, DEFAULT_DEPTH_LIMIT as nat);
            match r {
                Ok(compiled) => {
                    &&& done.result == Ok::<Seq<crate::emit::Op>, CompileError>(compiled.ops@)
                    &&& distinct_names(compiled.sections@)
                    &&& forall|name: Seq<char>|
                        done.state.sections.contains_key(name) <==> exists|i: int|
                            0 <= i < compiled.sections.len() && #[trigger] compiled.sections[i]@
                                == name
                    &&& compiled.capacity == capacity_for(done.state.text_size)
                    &&& well_nested(compiled.ops@)
                },
                Err(e) => done.result == Err::<Seq<crate::emit::Op>, CompileError>(e),
            }
        }),
{
    let mut compiler = Compiler::new();
    proof {
        lemma_template_neat(*template, DEFAULT_DEPTH_LIMIT as nat);
    }
    match compiler.compile_template(template) {
        Ok(ops) => {
            let sections = compiler.section_names();
            let capacity = buffer_capacity(compiler.text_size());
            Ok(Compiled { ops, sections, capacity })
        },
        Err(e) => Err(e),
    }
}

} // verus!
