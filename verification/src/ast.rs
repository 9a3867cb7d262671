//! The abstract syntax tree produced by the parser, together with its
//! mathematical abstraction.
//!
//! The exec-level tree owns its children exclusively through `Box` and
//! `Vec`. The abstraction (`ExprV` and friends) replaces owned text by
//! `Seq<char>` and every recursive slot by a `Seq` of children, because a
//! ghost sum type cannot hold itself directly: an optional child is a
//! sequence of length at most one, and a binary node's operands are a
//! sequence of length two. Contracts and proofs speak only about the
//! abstraction.

use vstd::prelude::*;

verus! {

// ----------------------------------------------------------------------
// Exec-level tree
// ----------------------------------------------------------------------

/// A name: a letter or `_`, then letters, digits or `_`.
#[derive(Debug, PartialEq, Eq)]
pub struct Ident(pub String);

/// The optional tag on a `let` binding. It carries no semantics here; a
/// downstream consumer interprets it.
#[derive(Debug, Clone, Copy, PartialEq, Eq)]
pub enum LetQual {
    Case,
    Method,
}

/// A numeric literal. The decimal form is kept as its lexical text with
/// digit-group separators stripped; turning it into a machine float is
/// the consumer's step, since this core stores only exact values.
#[derive(Debug, PartialEq, Eq)]
pub enum Literal {
    Int(u64),
    Float(String),
}

/// The value(s) produced by a scope: either a single trailing expression
/// (arrow form) or an ordered brace-enclosed sequence (body form).
#[derive(Debug, PartialEq, Eq)]
pub enum Block {
    Arrow(Box<Expr>),
    Body(Vec<Expr>),
}

/// A type/value annotation written after `:`.
#[derive(Debug, PartialEq, Eq)]
pub struct Hint {
    pub value: Box<Expr>,
}

/// One binding target: a name, an optional hint, an optional initializer
/// written after `=`.
#[derive(Debug, PartialEq, Eq)]
pub struct Assign {
    pub name: Ident,
    pub hint: Option<Hint>,
    pub value: Option<Box<Expr>>,
}

/// A parenthesized group: at least one positional expression, then zero
/// or more named assignments.
#[derive(Debug, PartialEq, Eq)]
pub struct Record {
    pub pos: Vec<Expr>,
    pub named: Vec<Assign>,
}

/// A function literal: optional parameter record, optional return-type
/// expression, and a body block.
#[derive(Debug, PartialEq, Eq)]
pub struct Func {
    pub args: Option<Record>,
    pub ret: Option<Box<Expr>>,
    pub body: Block,
}

/// A binding statement: optional qualifier, one assignment, and the
/// optional rest of the enclosing sequence. An absent rest means the
/// binding is the final form of its sequence.
#[derive(Debug, PartialEq, Eq)]
pub struct Let {
    pub qualifier: Option<LetQual>,
    pub assign: Assign,
    pub rest: Option<Box<Expr>>,
}

/// A compiler directive: structurally a binding plus the optional rest of
/// the enclosing sequence.
#[derive(Debug, PartialEq, Eq)]
pub struct Pragma {
    pub assign: Assign,
    pub rest: Option<Box<Expr>>,
}

/// The top-level recursive sum type of the tree.
///
/// The grammar declares the subtraction rule with the same operator
/// symbol as addition, so `+` always parses as `Add` and the parser never
/// produces `Sub`; the variant is kept because it belongs to the declared
/// node set.
#[derive(Debug, PartialEq, Eq)]
pub enum Expr {
    Literal(Literal),
    Let(Let),
    Lookup(Ident),
    Block(Block),
    Pragma(Pragma),
    Func(Func),
    FunCall(Ident, Record),
    Record(Record),
    Struct(Block),
    Add(Box<Expr>, Box<Expr>),
    Sub(Box<Expr>, Box<Expr>),
    Mul(Box<Expr>, Box<Expr>),
    Div(Box<Expr>, Box<Expr>),
    Mod(Box<Expr>, Box<Expr>),
    Exp(Box<Expr>, Box<Expr>),
}

// ----------------------------------------------------------------------
// Abstraction
// ----------------------------------------------------------------------

/// The binary arithmetic operators, for the abstraction.
#[derive(Debug, Clone, Copy, PartialEq, Eq)]
pub enum Op {
    Add,
    Sub,
    Mul,
    Div,
    Mod,
    Exp,
}

/// Abstraction of a numeric literal.
pub enum LitV {
    Int(u64),
    Float(Seq<char>),
}

/// Abstraction of a binding target. `hint` and `value` hold at most one
/// element.
pub struct AssignV {
    pub name: Seq<char>,
    pub hint: Seq<ExprV>,
    pub value: Seq<ExprV>,
}

/// Abstraction of a record.
pub struct RecordV {
    pub pos: Seq<ExprV>,
    pub named: Seq<AssignV>,
}

/// Abstraction of a block. `Arrow` holds exactly one element.
pub enum BlockV {
    Arrow(Seq<ExprV>),
    Body(Seq<ExprV>),
}

/// Abstraction of a function literal. `ret` holds at most one element.
pub struct FuncV {
    pub args: Option<RecordV>,
    pub ret: Seq<ExprV>,
    pub body: BlockV,
}

/// Abstraction of a binding statement. `rest` holds at most one element.
pub struct LetV {
    pub qualifier: Option<LetQual>,
    pub assign: AssignV,
    pub rest: Seq<ExprV>,
}

/// Abstraction of a directive. `rest` holds at most one element.
pub struct PragmaV {
    pub assign: AssignV,
    pub rest: Seq<ExprV>,
}

/// Abstraction of an expression. All six binary variants collapse into
/// `Bin`, whose operand sequence holds exactly two elements.
pub enum ExprV {
    Literal(LitV),
    Let(LetV),
    Lookup(Seq<char>),
    Block(BlockV),
    Pragma(PragmaV),
    Func(FuncV),
    FunCall(Seq<char>, RecordV),
    Record(RecordV),
    Struct(BlockV),
    Bin(Op, Seq<ExprV>),
}

/// Builds a binary abstraction node.
pub open spec fn bin_v(op: Op, l: ExprV, r: ExprV) -> ExprV {
    ExprV::Bin(op, seq![l, r])
}

// ----------------------------------------------------------------------
// Views: exec tree to abstraction
// ----------------------------------------------------------------------

/// Abstraction of a literal.
pub open spec fn lit_view(l: Literal) -> LitV {
    match l {
        Literal::Int(v) => LitV::Int(v),
        Literal::Float(t) => LitV::Float(t@),
    }
}

/// Abstraction of a sequence of expressions.
pub open spec fn exprs_view(s: Seq<Expr>) -> Seq<ExprV>
    decreases s,
{
    if s.len() == 0 {
        Seq::empty()
    } else {
        exprs_view(s.drop_last()).push(expr_view(s.last()))
    }
}

/// Abstraction of an optional child expression.
pub open spec fn opt_expr_view(o: Option<Box<Expr>>) -> Seq<ExprV>
    decreases o,
{
    match o {
        Option::None => Seq::empty(),
        Option::Some(b) => seq![expr_view(*b)],
    }
}

/// Abstraction of a binding target.
pub open spec fn assign_view(a: Assign) -> AssignV
    decreases a,
{
    AssignV {
        name: a.name.0@,
        hint: match a.hint {
            Option::None => Seq::empty(),
            Option::Some(h) => seq![expr_view(*h.value)],
        },
        value: opt_expr_view(a.value),
    }
}

/// Abstraction of a sequence of binding targets.
pub open spec fn assigns_view(s: Seq<Assign>) -> Seq<AssignV>
    decreases s,
{
    if s.len() == 0 {
        Seq::empty()
    } else {
        assigns_view(s.drop_last()).push(assign_view(s.last()))
    }
}

/// Abstraction of a record.
pub open spec fn record_view(r: Record) -> RecordV
    decreases r,
{
    RecordV { pos: exprs_view(r.pos@), named: assigns_view(r.named@) }
}

/// Abstraction of a block.
pub open spec fn block_view(b: Block) -> BlockV
    decreases b,
{
    match b {
        Block::Arrow(e) => BlockV::Arrow(seq![expr_view(*e)]),
        Block::Body(es) => BlockV::Body(exprs_view(es@)),
    }
}

/// Abstraction of an expression.
pub open spec fn expr_view(e: Expr) -> ExprV
    decreases e,
{
    match e {
        Expr::Literal(l) => ExprV::Literal(lit_view(l)),
        Expr::Let(l) => ExprV::Let(
            LetV {
                qualifier: l.qualifier,
                assign: assign_view(l.assign),
                rest: opt_expr_view(l.rest),
            },
        ),
        Expr::Lookup(id) => ExprV::Lookup(id.0@),
        Expr::Block(b) => ExprV::Block(block_view(b)),
        Expr::Pragma(p) => ExprV::Pragma(
            PragmaV { assign: assign_view(p.assign), rest: opt_expr_view(p.rest) },
        ),
        Expr::Func(f) => ExprV::Func(
            FuncV {
                args: match f.args {
                    Option::None => Option::None,
                    Option::Some(r) => Option::Some(record_view(r)),
                },
                ret: opt_expr_view(f.ret),
                body: block_view(f.body),
            },
        ),
        Expr::FunCall(id, r) => ExprV::FunCall(id.0@, record_view(r)),
        Expr::Record(r) => ExprV::Record(record_view(r)),
        Expr::Struct(b) => ExprV::Struct(block_view(b)),
        Expr::Add(l, r) => bin_v(Op::Add, expr_view(*l), expr_view(*r)),
        Expr::Sub(l, r) => bin_v(Op::Sub, expr_view(*l), expr_view(*r)),
        Expr::Mul(l, r) => bin_v(Op::Mul, expr_view(*l), expr_view(*r)),
        Expr::Div(l, r) => bin_v(Op::Div, expr_view(*l), expr_view(*r)),
        Expr::Mod(l, r) => bin_v(Op::Mod, expr_view(*l), expr_view(*r)),
        Expr::Exp(l, r) => bin_v(Op::Exp, expr_view(*l), expr_view(*r)),
    }
}

/// Abstraction of a sequence grows elementwise.
pub proof fn lemma_exprs_view_push(q: Seq<Expr>, e: Expr)
    ensures
        exprs_view(q.push(e)) == exprs_view(q).push(expr_view(e)),
{
    assert(q.push(e).drop_last() =~= q);
}

/// Abstraction of a binding-target sequence grows elementwise.
pub proof fn lemma_assigns_view_push(q: Seq<Assign>, a: Assign)
    ensures
        assigns_view(q.push(a)) == assigns_view(q).push(assign_view(a)),
{
    assert(q.push(a).drop_last() =~= q);
}

// ----------------------------------------------------------------------
// Well-formedness
// ----------------------------------------------------------------------

/// Every expression of the sequence is well formed.
pub open spec fn wf_exprs(s: Seq<Expr>) -> bool
    decreases s,
{
    forall|k: int| 0 <= k < s.len() ==> wf_expr(#[trigger] s[k])
}

/// An optional child is well formed.
pub open spec fn wf_opt_expr(o: Option<Box<Expr>>) -> bool
    decreases o,
{
    match o {
        Option::None => true,
        Option::Some(b) => wf_expr(*b),
    }
}

/// A binding target is well formed.
pub open spec fn wf_assign(a: Assign) -> bool
    decreases a,
{
    &&& match a.hint {
        Option::None => true,
        Option::Some(h) => wf_expr(*h.value),
    }
    &&& wf_opt_expr(a.value)
}

/// Every binding target of the sequence is well formed.
pub open spec fn wf_assigns(s: Seq<Assign>) -> bool
    decreases s,
{
    forall|k: int| 0 <= k < s.len() ==> wf_assign(#[trigger] s[k])
}

/// A record is well formed: it holds at least one positional expression,
/// and all children are well formed.
pub open spec fn wf_record(r: Record) -> bool
    decreases r,
{
    &&& r.pos@.len() >= 1
    &&& wf_exprs(r.pos@)
    &&& wf_assigns(r.named@)
}

/// A block is well formed.
pub open spec fn wf_block(b: Block) -> bool
    decreases b,
{
    match b {
        Block::Arrow(e) => wf_expr(*e),
        Block::Body(es) => wf_exprs(es@),
    }
}

/// Well-formedness extends over a grown sequence.
pub proof fn lemma_wf_exprs_push(q: Seq<Expr>, e: Expr)
    requires
        wf_exprs(q),
        wf_expr(e),
    ensures
        wf_exprs(q.push(e)),
{
    assert forall|k: int| 0 <= k < q.push(e).len() implies wf_expr(#[trigger] q.push(e)[k]) by {
        if k < q.len() {
            assert(q.push(e)[k] == q[k]);
        } else {
            assert(q.push(e)[k] == e);
        }
    }
}

/// Well-formedness extends over a grown binding-target sequence.
pub proof fn lemma_wf_assigns_push(q: Seq<Assign>, a: Assign)
    requires
        wf_assigns(q),
        wf_assign(a),
    ensures
        wf_assigns(q.push(a)),
{
    assert forall|k: int| 0 <= k < q.push(a).len() implies wf_assign(#[trigger] q.push(a)[k]) by {
        if k < q.len() {
            assert(q.push(a)[k] == q[k]);
        } else {
            assert(q.push(a)[k] == a);
        }
    }
}

/// The structural invariant of the tree: every record anywhere in it
/// holds at least one positional expression.
pub open spec fn wf_expr(e: Expr) -> bool
    decreases e,
{
    match e {
        Expr::Literal(_) => true,
        Expr::Let(l) => wf_assign(l.assign) && wf_opt_expr(l.rest),
        Expr::Lookup(_) => true,
        Expr::Block(b) => wf_block(b),
        Expr::Pragma(p) => wf_assign(p.assign) && wf_opt_expr(p.rest),
        Expr::Func(f) => {
            &&& match f.args {
                Option::None => true,
                Option::Some(r) => wf_record(r),
            }
            &&& wf_opt_expr(f.ret)
            &&& wf_block(f.body)
        },
        Expr::FunCall(_, r) => wf_record(r),
        Expr::Record(r) => wf_record(r),
        Expr::Struct(b) => wf_block(b),
        Expr::Add(l, r) => wf_expr(*l) && wf_expr(*r),
        Expr::Sub(l, r) => wf_expr(*l) && wf_expr(*r),
        Expr::Mul(l, r) => wf_expr(*l) && wf_expr(*r),
        Expr::Div(l, r) => wf_expr(*l) && wf_expr(*r),
        Expr::Mod(l, r) => wf_expr(*l) && wf_expr(*r),
        Expr::Exp(l, r) => wf_expr(*l) && wf_expr(*r),
    }
}

} // verus!
