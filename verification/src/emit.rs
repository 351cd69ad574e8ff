//! The emission operations that compilation produces.

use vstd::prelude::*;

verus! {

/// One emission operation, as the consumer of the compiled output sees it.
///
/// The sequence is flat: a lexical scope is the run of operations between an
/// `OpenScope` and the `CloseScope` that matches it.
#[derive(Debug, PartialEq, Eq)]
pub enum EmitOp {
    /// Write this literal text.
    Write(String),
    /// Evaluate the fragment and write its text, escaped when the flag is set.
    WriteExpr(String, bool),
    /// Splice the fragment into the output code as it stands.
    Code(String),
    /// Enter a lexical scope.
    OpenScope,
    /// Leave the innermost lexical scope.
    CloseScope,
    /// The header of a control clause; its body is the scope that follows.
    Header(String),
    /// The header of a match over the scrutinee; its arms are the scope that follows.
    Match(String),
    /// The pattern of a match arm; its body is the scope that follows.
    Arm(String),
    /// Go on with the next iteration of the enclosing loop.
    Continue,
    /// Leave the enclosing loop.
    Break,
    /// Bind the name to a boolean.
    BindBool(String, bool),
    /// Bind the name to a number, given by its lexeme.
    BindNumber(String, String),
    /// Bind the name to a text.
    BindText(String, String),
    /// Bind the name to the value of the fragment.
    BindCode(String, String),
    /// Bind the name to a sub-template: the scope that follows.
    BindBlock(String),
}

/// The mathematical form of an emission operation.
pub enum Op {
    Write(Seq<char>),
    WriteExpr(Seq<char>, bool),
    Code(Seq<char>),
    OpenScope,
    CloseScope,
    Header(Seq<char>),
    Match(Seq<char>),
    Arm(Seq<char>),
    Continue,
    Break,
    BindBool(Seq<char>, bool),
    BindNumber(Seq<char>, Seq<char>),
    BindText(Seq<char>, Seq<char>),
    BindCode(Seq<char>, Seq<char>),
    BindBlock(Seq<char>),
}

impl View for EmitOp {
    type V = Op;

    open spec fn view(&self) -> Op {
        match self {
            EmitOp::Write(t) => Op::Write(t@),
            EmitOp::WriteExpr(f, e) => Op::WriteExpr(f@, *e),
            EmitOp::Code(f) => Op::Code(f@),
            EmitOp::OpenScope => Op::OpenScope,
            EmitOp::CloseScope => Op::CloseScope,
            EmitOp::Header(f) => Op::Header(f@),
            EmitOp::Match(f) => Op::Match(f@),
            EmitOp::Arm(f) => Op::Arm(f@),
            EmitOp::Continue => Op::Continue,
            EmitOp::Break => Op::Break,
            EmitOp::BindBool(n, b) => Op::BindBool(n@, *b),
            EmitOp::BindNumber(n, v) => Op::BindNumber(n@, v@),
            EmitOp::BindText(n, v) => Op::BindText(n@, v@),
            EmitOp::BindCode(n, v) => Op::BindCode(n@, v@),
            EmitOp::BindBlock(n) => Op::BindBlock(n@),
        }
    }
}

impl Clone for EmitOp {
    fn clone(&self) -> (r: EmitOp)
        ensures
            r@ == self@,
    {
        match self {
            EmitOp::Write(t) => EmitOp::Write(t.clone()),
            EmitOp::WriteExpr(f, e) => EmitOp::WriteExpr(f.clone(), *e),
            EmitOp::Code(f) => EmitOp::Code(f.clone()),
            EmitOp::OpenScope => EmitOp::OpenScope,
            EmitOp::CloseScope => EmitOp::CloseScope,
            EmitOp::Header(f) => EmitOp::Header(f.clone()),
            EmitOp::Match(f) => EmitOp::Match(f.clone()),
            EmitOp::Arm(f) => EmitOp::Arm(f.clone()),
            EmitOp::Continue => EmitOp::Continue,
            EmitOp::Break => EmitOp::Break,
            EmitOp::BindBool(n, b) => EmitOp::BindBool(n.clone(), *b),
            EmitOp::BindNumber(n, v) => EmitOp::BindNumber(n.clone(), v.clone()),
            EmitOp::BindText(n, v) => EmitOp::BindText(n.clone(), v.clone()),
            EmitOp::BindCode(n, v) => EmitOp::BindCode(n.clone(), v.clone()),
            EmitOp::BindBlock(n) => EmitOp::BindBlock(n.clone()),
        }
    }
}

/// The operations of a sequence, each in its mathematical form.
pub open spec fn ops_view(ops: Seq<EmitOp>) -> Seq<Op> {
    Seq::new(ops.len(), |i: int| ops[i]@)
}

/// Taking the mathematical form goes through appending one operation.
pub proof fn lemma_ops_view_push(ops: Seq<EmitOp>, op: EmitOp)
    ensures
        ops_view(ops.push(op)) == ops_view(ops).push(op@),
{
    assert(ops_view(ops.push(op)) =~= ops_view(ops).push(op@));
}

/// Taking the mathematical form goes through concatenation.
pub proof fn lemma_ops_view_add(a: Seq<EmitOp>, b: Seq<EmitOp>)
    ensures
        ops_view(a + b) == ops_view(a) + ops_view(b),
{
    assert(ops_view(a + b) =~= ops_view(a) + ops_view(b));
}

/// An ordered sequence of emission operations.
#[derive(Debug, PartialEq, Eq)]
pub struct EmissionOps {
    pub ops: Vec<EmitOp>,
}

impl View for EmissionOps {
    type V = Seq<Op>;

    open spec fn view(&self) -> Seq<Op> {
        ops_view(self.ops@)
    }
}

impl EmissionOps {
    /// The empty sequence.
    pub fn new() -> (r: EmissionOps)
        ensures
            r@ == Seq::<Op>::empty(),
    {
        let r = EmissionOps { ops: Vec::new() };
        assert(r@ =~= Seq::<Op>::empty());
        r
    }

    /// The sequence of one operation.
    pub fn single(op: EmitOp) -> (r: EmissionOps)
        ensures
            r@ == seq![op@],
    {
        let mut ops: Vec<EmitOp> = Vec::new();
        ops.push(op);
        let r = EmissionOps { ops };
        assert(r@ =~= seq![op@]);
        r
    }

    /// How many operations the sequence holds.
    pub fn len(&self) -> (n: usize)
        ensures
            n == self@.len(),
    {
        self.ops.len()
    }

    /// Appends one operation.
    pub fn push(&mut self, op: EmitOp)
        ensures
            final(self)@ == old(self)@.push(op@),
    {
        self.ops.push(op);
        proof {
            lemma_ops_view_push(old(self).ops@, op);
        }
    }

    /// Appends the operations of `other`, in order.
    pub fn append(&mut self, other: EmissionOps)
        ensures
            final(self)@ == old(self)@ + other@,
    {
        let mut rest = other;
        self.ops.append(&mut rest.ops);
        proof {
            lemma_ops_view_add(old(self).ops@, other.ops@);
        }
    }

    /// Appends a copy of each operation of `other`, in order.
    pub fn extend(&mut self, other: &EmissionOps)
        ensures
            final(self)@ == old(self)@ + other@,
    {
        let n = other.ops.len();
        let mut i: usize = 0;
        while i < n
            invariant
                n == other.ops.len(),
                i <= n,
                self@ == old(self)@ + other@.take(i as int),
            decreases n - i,
        {
            let op = other.ops[i].clone();
            let ghost before = self.ops@;
            self.ops.push(op);
            proof {
                lemma_ops_view_push(before, op);
                assert(other@.take(i + 1) =~= other@.take(i as int).push(other.ops[i as int]@));
                assert(self@ =~= old(self)@ + other@.take(i + 1));
            }
            i = i + 1;
        }
        assert(other@.take(n as int) =~= other@);
    }
}

impl Clone for EmissionOps {
    fn clone(&self) -> (r: EmissionOps)
        ensures
            r@ == self@,
    {
        let mut r = EmissionOps::new();
        r.extend(self);
        assert(Seq::<Op>::empty() + self@ =~= self@);
        r
    }
}

} // verus!
