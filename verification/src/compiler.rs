//! The compiler: owns the state of one compilation and walks the tree.

pub mod rust_block;
pub mod section_directive;
pub mod walk;

use crate::emit::{EmissionOps, EmitOp, Op};
use crate::error::{CompileError, Reason};
use crate::fragment::check_fragment;
use crate::lemmas::body::lemma_node_keeps_body;
use crate::model::{
    compile_node, compile_template, emit, fail, initial_state, splice, with_section, write_expr,
    write_literal, Outcome, State,
};
use crate::names::{distinct_names, NameMap};
use crate::node::{Node, Position};
use std::path::PathBuf;
use vstd::prelude::*;

verus! {

/// How many levels of nesting a compiler accepts unless it is told otherwise.
pub const DEFAULT_DEPTH_LIMIT: usize = 128;

/// The state of one compilation. It borrows from the tree what it has to keep:
/// the layout and the registered components.
pub struct Compiler<'a> {
    use_directives: Vec<(String, &'a PathBuf)>,
    components: NameMap<&'a Node>,
    layout_directive: Option<&'a PathBuf>,
    layout: Option<&'a Node>,
    sections: NameMap<EmissionOps>,
    section_body: Option<EmissionOps>,
    text_size: usize,
    depth_limit: usize,
}

/// What compiling a construct gives: its operations, or the failure.
pub type Emitted = Result<EmissionOps, CompileError>;

/// An executable result next to the state it left, as an outcome of the model.
pub open spec fn outcome(st: State, r: Emitted) -> Outcome {
    Outcome {
        state: st,
        result: match r {
            Ok(ops) => Ok(ops@),
            Err(e) => Err(e),
        },
    }
}

/// The child content in force, in its mathematical form.
pub open spec fn slot_view(slot: Option<&EmissionOps>) -> Option<Seq<Op>> {
    match slot {
        Some(ops) => Some(ops@),
        None => None,
    }
}

impl<'a> Compiler<'a> {
    /// The tables of the compiler are in order.
    pub closed spec fn wf(&self) -> bool {
        self.sections.wf() && self.components.wf()
    }

    /// The state of the compilation.
    pub closed spec fn view(&self) -> State {
        State {
            sections: self.sections@.map_values(|ops: EmissionOps| ops@),
            layout: match self.layout {
                Some(node) => Some(*node),
                None => None,
            },
            layout_directive: match self.layout_directive {
                Some(path) => Some(*path),
                None => None,
            },
            section_body: match self.section_body {
                Some(ops) => Some(ops@),
                None => None,
            },
            components: self.components@.map_values(|node: &Node| *node),
            use_directives: Seq::new(
                self.use_directives.len() as nat,
                |i: int| (self.use_directives[i].0@, *self.use_directives[i].1),
            ),
            text_size: self.text_size as nat,
        }
    }

    /// How many levels of nesting the compiler accepts.
    pub closed spec fn nesting_limit(&self) -> nat {
        self.depth_limit as nat
    }

    /// How many levels of nesting the compiler accepts.
    pub fn depth_limit(&self) -> (limit: usize)
        ensures
            limit == self.nesting_limit(),
    {
        self.depth_limit
    }

    /// A compiler that has met nothing yet, with the default nesting limit.
    pub fn new() -> (c: Compiler<'a>)
        ensures
            c.wf(),
            c@ == initial_state(),
            c.nesting_limit() == DEFAULT_DEPTH_LIMIT,
    {
        Compiler::with_depth_limit(DEFAULT_DEPTH_LIMIT)
    }

    /// A compiler that has met nothing yet and accepts `limit` levels of nesting.
    pub fn with_depth_limit(limit: usize) -> (c: Compiler<'a>)
        ensures
            c.wf(),
            c@ == initial_state(),
            c.nesting_limit() == limit,
    {
        let c = Compiler {
            use_directives: Vec::new(),
            components: NameMap::new(),
            layout_directive: None,
            layout: None,
            sections: NameMap::new(),
            section_body: None,
            text_size: 0,
            depth_limit: limit,
        };
        assert(c@.sections =~= initial_state().sections);
        assert(c@.components =~= initial_state().components);
        assert(c@.use_directives =~= initial_state().use_directives);
        assert(c@.layout == initial_state().layout);
        assert(c@.section_body == initial_state().section_body);
        assert(c@ =~= initial_state());
        c
    }

    /// Compiles a node in the current state, within the nesting limit. Sections,
    /// the layout and components that the node declares are recorded in the
    /// compiler; the first failure ends the compilation where it stands. The
    /// body of the child template is not touched: only `compile_template` sets
    /// it, between its two passes.
    pub fn compile(&mut self, node: &'a Node) -> (r: Emitted)
        requires
            old(self).wf(),
        ensures
            final(self).wf(),
            final(self).nesting_limit() == old(self).nesting_limit(),
            outcome(final(self)@, r) == compile_node(
                old(self)@,
                None,
                *node,
                old(self).nesting_limit(),
            ),
            final(self)@.section_body == old(self)@.section_body,
    {
        let depth = self.depth_limit;
        proof {
            lemma_node_keeps_body(self@, None, *node, depth as nat);
        }
        self.compile_at(node, None, depth)
    }

    /// Compiles a whole template. If the template extends a layout, the output
    /// of the template becomes the body and the layout is compiled in a second
    /// pass over the same state; the result is then that of the second pass.
    pub fn compile_template(&mut self, node: &'a Node) -> (r: Emitted)
        requires
            old(self).wf(),
        ensures
            final(self).wf(),
            final(self).nesting_limit() == old(self).nesting_limit(),
            outcome(final(self)@, r) == compile_template(
                old(self)@,
                *node,
                old(self).nesting_limit(),
            ),
    {
        let depth = self.depth_limit;
        match self.compile_at(node, None, depth) {
            Ok(ops) => match self.layout {
                Some(layout) => {
                    let ghost first = self@;
                    self.section_body = Some(ops);
                    assert(self@ =~= (State { section_body: Some(ops@), ..first }));
                    self.compile_at(layout, None, depth)
                },
                None => Ok(ops),
            },
            Err(e) => Err(e),
        }
    }

    /// The names of the sections registered so far, each once.
    pub fn section_names(&self) -> (names: Vec<String>)
        requires
            self.wf(),
        ensures
            distinct_names(names@),
            forall|name: Seq<char>|
                self@.sections.contains_key(name) <==> exists|i: int|
                    0 <= i < names.len() && #[trigger] names[i]@ == name,
    {
        self.sections.names()
    }

    /// Whether a section of that name has been registered.
    pub fn has_section(&self, name: &str) -> (found: bool)
        requires
            self.wf(),
        ensures
            found == self@.sections.contains_key(name@),
    {
        let key = String::from_str(name);
        self.sections.contains(&key)
    }

    /// The size hint: the sum of the sizes of the literal texts met so far.
    pub fn text_size(&self) -> (size: usize)
        ensures
            size == self@.text_size,
    {
        self.text_size
    }

    /// The layout that the template extends, once it has said so.
    pub fn layout(&self) -> (layout: Option<&'a Node>)
        ensures
            match layout {
                Some(node) => self@.layout == Some(*node),
                None => self@.layout is None,
            },
    {
        self.layout
    }

    /// The path that the `extends` directive named.
    pub fn layout_directive(&self) -> (path: Option<&'a PathBuf>)
        ensures
            match path {
                Some(p) => self@.layout_directive == Some(*p),
                None => self@.layout_directive is None,
            },
    {
        self.layout_directive
    }

    /// Every `use` directive met so far, alias and path, in source order.
    pub fn use_directives(&self) -> (record: &Vec<(String, &'a PathBuf)>)
        ensures
            record.len() == self@.use_directives.len(),
            forall|i: int|
                0 <= i < record.len() ==> (#[trigger] record[i].0@, *record[i].1)
                    == self@.use_directives[i],
    {
        &self.use_directives
    }

    /// A literal text: one write, and the size hint grows by the text's size.
    pub(crate) fn write_literal(&mut self, text: &String) -> (r: Emitted)
        requires
            old(self).wf(),
        ensures
            final(self).wf(),
            final(self).nesting_limit() == old(self).nesting_limit(),
            outcome(final(self)@, r) == write_literal(old(self)@, text@),
    {
        let size = text.as_str().as_bytes().len();
        if size > usize::MAX - self.text_size {
            self.text_size = usize::MAX;
        } else {
            self.text_size = self.text_size + size;
        }
        let r = Ok(EmissionOps::single(EmitOp::Write(text.clone())));
        assert(outcome(self@, r) =~= write_literal(old(self)@, text@));
        r
    }

    /// A code fragment yields the given operation if it can be tokenized.
    pub(crate) fn splice(
        &self,
        fragment: &String,
        position: Position,
        op: EmitOp,
    ) -> (r: Emitted)
        ensures
            outcome(self@, r) == splice(self@, fragment@, position, op@),
    {
        match check_fragment(fragment.as_str(), position) {
            Ok(_) => Ok(EmissionOps::single(op)),
            Err(e) => Err(e),
        }
    }

    /// An embedded expression: one operation that writes its value.
    pub(crate) fn write_expr(
        &self,
        fragment: &String,
        is_escaped: bool,
        position: Position,
    ) -> (r: Emitted)
        ensures
            outcome(self@, r) == write_expr(self@, fragment@, is_escaped, position),
    {
        self.splice(fragment, position, EmitOp::WriteExpr(fragment.clone(), is_escaped))
    }

    /// Registers the operations as the section of that name; nothing is emitted.
    pub(crate) fn register_section(&mut self, name: String, ops: EmissionOps) -> (r: EmissionOps)
        requires
            old(self).wf(),
        ensures
            final(self).wf(),
            final(self).nesting_limit() == old(self).nesting_limit(),
            final(self)@ == with_section(old(self)@, name@, ops@),
            r@ == Seq::<Op>::empty(),
    {
        self.sections.insert(name, ops);
        assert(self@.sections =~= old(self)@.sections.insert(name@, ops@));
        assert(self@.components =~= old(self)@.components);
        assert(self@.use_directives =~= old(self)@.use_directives);
        EmissionOps::new()
    }

    /// The compiled content of the section of that name, or nothing.
    pub(crate) fn render_section(&self, name: &String) -> (r: EmissionOps)
        requires
            self.wf(),
        ensures
            r@ == if self@.sections.contains_key(name@) {
                self@.sections[name@]
            } else {
                Seq::<Op>::empty()
            },
    {
        match self.sections.get(name) {
            Some(ops) => ops.clone(),
            None => EmissionOps::new(),
        }
    }

    /// The compiled output of the child template, or nothing.
    pub(crate) fn render_body(&self) -> (r: EmissionOps)
        ensures
            r@ == match self@.section_body {
                Some(ops) => ops,
                None => Seq::<Op>::empty(),
            },
    {
        match &self.section_body {
            Some(ops) => ops.clone(),
            None => EmissionOps::new(),
        }
    }

    /// Records the layout that the template extends; a second one is refused.
    pub(crate) fn declare_layout(
        &mut self,
        path: &'a PathBuf,
        layout: &'a Node,
        position: Position,
    ) -> (r: Emitted)
        requires
            old(self).wf(),
        ensures
            final(self).wf(),
            final(self).nesting_limit() == old(self).nesting_limit(),
            outcome(final(self)@, r) == if old(self)@.layout is Some {
                fail(old(self)@, Reason::ProtocolViolation, position)
            } else {
                emit(
                    (State { layout: Some(*layout), layout_directive: Some(*path), ..old(self)@ }),
                    Seq::empty(),
                )
            },
    {
        if self.layout.is_some() {
            Err(CompileError { reason: Reason::ProtocolViolation, position })
        } else {
            self.layout = Some(layout);
            self.layout_directive = Some(path);
            let r = Ok(EmissionOps::new());
            assert(self@.sections =~= old(self)@.sections);
            assert(self@.components =~= old(self)@.components);
            assert(self@.use_directives =~= old(self)@.use_directives);
            r
        }
    }

    /// The component registered under the alias, if there is one.
    pub(crate) fn component(&self, alias: &String) -> (r: Option<&'a Node>)
        requires
            self.wf(),
        ensures
            match r {
                Some(node) => self@.components.contains_key(alias@) && *node
                    == self@.components[alias@],
                None => !self@.components.contains_key(alias@),
            },
    {
        match self.components.get(alias) {
            Some(node) => Some(*node),
            None => None,
        }
    }

    /// Registers a component under its alias and records the directive.
    pub(crate) fn register_component(
        &mut self,
        alias: &String,
        path: &'a PathBuf,
        component: &'a Node,
    ) -> (r: EmissionOps)
        requires
            old(self).wf(),
        ensures
            final(self).wf(),
            final(self).nesting_limit() == old(self).nesting_limit(),
            final(self)@ == (State {
                components: old(self)@.components.insert(alias@, *component),
                use_directives: old(self)@.use_directives.push((alias@, *path)),
                ..old(self)@
            }),
            r@ == Seq::<Op>::empty(),
    {
        self.components.insert(alias.clone(), component);
        self.use_directives.push((alias.clone(), path));
        assert(self@.sections =~= old(self)@.sections);
        assert(self@.components =~= old(self)@.components.insert(alias@, *component));
        assert(self@.use_directives =~= old(self)@.use_directives.push((alias@, *path)));
        EmissionOps::new()
    }
}

/// The operations of `body` in a scope of their own, behind those of `head`.
pub(crate) fn in_scope(head: EmissionOps, body: EmissionOps) -> (r: EmissionOps)
    ensures
        r@ == head@ + seq![Op::OpenScope] + body@ + seq![Op::CloseScope],
{
    let mut r = head;
    r.push(EmitOp::OpenScope);
    r.append(body);
    r.push(EmitOp::CloseScope);
    assert(r@ =~= head@ + seq![Op::OpenScope] + body@ + seq![Op::CloseScope]);
    r
}

} // verus!
