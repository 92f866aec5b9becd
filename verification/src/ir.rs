//! The intermediate representation that translation produces: types,
//! constants, variables, expressions, statements and functions, all held in
//! arenas and referenced by handles.

use vstd::prelude::*;
use crate::arena::{Alike, Arena, Handle, lemma_handle_ext};

verus! {

/// A width in bytes.
pub type Bytes = u8;

#[derive(Clone, Copy, PartialEq, Eq, Structural, Debug)]
pub enum ScalarKind {
    Bool,
    Sint,
    Uint,
    Float,
}

#[derive(Clone, Copy, PartialEq, Eq, Structural, Debug)]
pub enum VectorSize {
    Bi,
    Tri,
    Quad,
}

#[derive(Clone, Copy, PartialEq, Eq, Structural, Debug)]
pub enum ImageDimension {
    D1,
    D2,
    D3,
    Cube,
}

/// How an image is accessed; flags compose.
#[derive(Clone, Copy, PartialEq, Eq, Structural, Debug)]
pub struct ImageFlags {
    pub sampled: bool,
    pub arrayed: bool,
    pub multisampled: bool,
}

#[derive(Clone, Copy, PartialEq, Eq, Structural, Debug)]
pub enum StorageClass {
    Constant,
    Function,
    Input,
    Output,
    Private,
    Uniform,
}

#[derive(Clone, Copy, PartialEq, Eq, Structural, Debug)]
pub enum Interpolation {
    Perspective,
    Linear,
    Flat,
    Centroid,
    Sample,
}

#[derive(Clone, Copy, PartialEq, Eq, Structural, Debug)]
pub enum BuiltIn {
    Position,
    PointSize,
    VertexIndex,
    InstanceIndex,
    FragCoord,
    FragDepth,
}

#[derive(Clone, Copy, PartialEq, Eq, Structural, Debug)]
pub enum ShaderStage {
    Vertex,
    Fragment,
    Compute,
}

#[derive(Clone, Copy, PartialEq, Eq, Structural, Debug)]
pub enum Profile {
    Core,
}

/// Where a global variable is bound.
#[derive(Clone, Copy, PartialEq, Eq, Structural, Debug)]
pub enum Binding {
    Location(u32),
    BuiltIn(BuiltIn),
}

#[derive(Clone, Copy, PartialEq, Eq, Structural, Debug)]
pub enum UnaryOperator {
    Negate,
    Not,
}

#[derive(Clone, Copy, PartialEq, Eq, Structural, Debug)]
pub enum BinaryOperator {
    Add,
    Subtract,
    Multiply,
    Divide,
    Modulo,
    Equal,
    NotEqual,
    Less,
    LessEqual,
    Greater,
    GreaterEqual,
    And,
    ExclusiveOr,
    InclusiveOr,
    LogicalAnd,
    LogicalOr,
    ShiftLeftLogical,
    ShiftRightLogical,
    ShiftRightArithmetic,
}

/// The shape of a type.
pub enum TypeInner {
    Scalar { kind: ScalarKind, width: Bytes },
    Vector { size: VectorSize, kind: ScalarKind, width: Bytes },
    Matrix { columns: VectorSize, rows: VectorSize, kind: ScalarKind, width: Bytes },
    Image { base: Handle<Type>, dim: ImageDimension, flags: ImageFlags },
    Sampler { comparison: bool },
}

/// A type: an optional name and a shape. Types are interned, so structurally
/// equal types share one handle.
pub struct Type {
    pub name: Option<String>,
    pub inner: TypeInner,
}

/// A literal value, tagged by kind. `Float` holds the IEEE-754 bit pattern of
/// a 64-bit value, so the store itself stays free of machine floats.
#[derive(Clone, Copy, PartialEq, Eq, Structural, Debug)]
pub enum ConstantInner {
    Sint(i64),
    Float(u64),
}

/// A constant: interned, so structurally equal constants share one handle.
pub struct Constant {
    pub name: Option<String>,
    pub ty: Handle<Type>,
    pub inner: ConstantInner,
}

/// A module-level variable.
pub struct GlobalVariable {
    pub name: Option<String>,
    pub class: StorageClass,
    pub binding: Option<Binding>,
    pub ty: Handle<Type>,
    pub interpolation: Option<Interpolation>,
}

/// A variable owned by exactly one function's local arena.
pub struct LocalVariable {
    pub name: Option<String>,
    pub ty: Handle<Type>,
    pub init: Option<Handle<Expression>>,
}

/// A node in a function-local expression arena; children are handles into the
/// same arena, always at strictly smaller indices.
pub enum Expression {
    Constant(Handle<Constant>),
    GlobalVariable(Handle<GlobalVariable>),
    LocalVariable(Handle<LocalVariable>),
    Binary { op: BinaryOperator, left: Handle<Expression>, right: Handle<Expression> },
    Compose { ty: Handle<Type>, components: Vec<Handle<Expression>> },
}

/// One step of a function body.
pub enum Statement {
    Empty,
    Block(Vec<Statement>),
    Store { pointer: Handle<Expression>, value: Handle<Expression> },
}

/// How a function touches one global variable.
#[derive(Clone, Copy, PartialEq, Eq, Structural, Debug)]
pub struct GlobalUse {
    pub read: bool,
    pub write: bool,
}

/// A finished function: it owns its local-variable and expression arenas and
/// its structured body.
pub struct Function {
    pub name: Option<String>,
    pub parameter_types: Vec<Handle<Type>>,
    pub return_type: Option<Handle<Type>>,
    /// Per global variable of the program, in arena order: how this function
    /// touches it.
    pub global_usage: Vec<GlobalUse>,
    pub local_variables: Arena<LocalVariable>,
    pub expressions: Arena<Expression>,
    pub body: Vec<Statement>,
}

/// Children of an expression node sit at strictly smaller indices than the
/// node itself; `i` is the node's own index.
pub open spec fn expr_children_lt(e: Expression, i: int) -> bool {
    match e {
        Expression::Binary { op, left, right } => left.idx() < i && right.idx() < i,
        Expression::Compose { ty, components } => forall|k: int|
            0 <= k < components@.len() ==> (#[trigger] components@[k]).idx() < i,
        _ => true,
    }
}

/// Every node of an expression store references only earlier nodes.
pub open spec fn exprs_acyclic(s: Seq<Expression>) -> bool {
    forall|i: int| 0 <= i < s.len() ==> expr_children_lt(#[trigger] s[i], i)
}

/// The global handle of a node, if it has one, is within `ng`.
pub open spec fn expr_globals_lt(e: Expression, ng: int) -> bool {
    match e {
        Expression::GlobalVariable(h) => h.idx() < ng,
        _ => true,
    }
}

pub open spec fn exprs_globals_lt(s: Seq<Expression>, ng: int) -> bool {
    forall|i: int| 0 <= i < s.len() ==> expr_globals_lt(#[trigger] s[i], ng)
}

/// The remaining handles of a node are within the stores they point into:
/// `nt` types, `nc` constants, `nl` local variables.
pub open spec fn expr_leaves_lt(e: Expression, nt: int, nc: int, nl: int) -> bool {
    match e {
        Expression::Constant(h) => h.idx() < nc,
        Expression::LocalVariable(h) => h.idx() < nl,
        Expression::Compose { ty, components } => ty.idx() < nt,
        _ => true,
    }
}

pub open spec fn exprs_leaves_lt(s: Seq<Expression>, nt: int, nc: int, nl: int) -> bool {
    forall|i: int| 0 <= i < s.len() ==> expr_leaves_lt(#[trigger] s[i], nt, nc, nl)
}

/// A whole expression store is well formed against the given store sizes.
pub open spec fn exprs_wf(s: Seq<Expression>, nt: int, nc: int, ng: int, nl: int) -> bool {
    exprs_acyclic(s) && exprs_globals_lt(s, ng) && exprs_leaves_lt(s, nt, nc, nl)
}

/// A statement references only expressions below `ne`.
pub open spec fn stmt_wf(st: Statement, ne: int) -> bool
    decreases st,
{
    match st {
        Statement::Empty => true,
        Statement::Store { pointer, value } => pointer.idx() < ne && value.idx() < ne,
        Statement::Block(l) => forall|i: int| 0 <= i < l@.len() ==> stmt_wf(#[trigger] l@[i], ne),
    }
}

pub open spec fn stmts_wf(body: Seq<Statement>, ne: int) -> bool {
    forall|i: int| 0 <= i < body.len() ==> stmt_wf(#[trigger] body[i], ne)
}

/// A well-formed expression store stays well formed as the stores it points
/// into grow.
pub proof fn lemma_exprs_wf_mono(
    s: Seq<Expression>,
    nt0: int,
    nc0: int,
    ng0: int,
    nl0: int,
    nt1: int,
    nc1: int,
    ng1: int,
    nl1: int,
)
    requires
        exprs_wf(s, nt0, nc0, ng0, nl0),
        nt0 <= nt1,
        nc0 <= nc1,
        ng0 <= ng1,
        nl0 <= nl1,
    ensures
        exprs_wf(s, nt1, nc1, ng1, nl1),
{
    assert forall|i: int| 0 <= i < s.len() implies expr_globals_lt(#[trigger] s[i], ng1)
        && expr_leaves_lt(s[i], nt1, nc1, nl1) by {
        assert(expr_globals_lt(s[i], ng0) && expr_leaves_lt(s[i], nt0, nc0, nl0));
    }
}

/// A statement well formed against a store stays so as the store grows.
pub proof fn lemma_stmt_wf_mono(st: Statement, ne0: int, ne1: int)
    requires
        stmt_wf(st, ne0),
        ne0 <= ne1,
    ensures
        stmt_wf(st, ne1),
    decreases st,
{
    match st {
        Statement::Block(l) => {
            assert forall|i: int| 0 <= i < l@.len() implies stmt_wf(#[trigger] l@[i], ne1) by {
                lemma_stmt_wf_mono(l@[i], ne0, ne1);
            }
        },
        _ => {},
    }
}

pub proof fn lemma_stmts_wf_mono(body: Seq<Statement>, ne0: int, ne1: int)
    requires
        stmts_wf(body, ne0),
        ne0 <= ne1,
    ensures
        stmts_wf(body, ne1),
{
    assert forall|i: int| 0 <= i < body.len() implies stmt_wf(#[trigger] body[i], ne1) by {
        lemma_stmt_wf_mono(body[i], ne0, ne1);
    }
}

/// Likeness of optional names: both absent, or the same characters.
pub open spec fn opt_name_alike(a: Option<String>, b: Option<String>) -> bool {
    match (a, b) {
        (Option::None, Option::None) => true,
        (Option::Some(x), Option::Some(y)) => x@ == y@,
        _ => false,
    }
}

fn opt_name_eq(a: &Option<String>, b: &Option<String>) -> (r: bool)
    ensures
        r == opt_name_alike(*a, *b),
{
    match (a, b) {
        (Option::None, Option::None) => true,
        (Option::Some(x), Option::Some(y)) => *x == *y,
        _ => false,
    }
}

fn opt_binding_eq(a: &Option<Binding>, b: &Option<Binding>) -> (r: bool)
    ensures
        r == (*a == *b),
{
    match (a, b) {
        (Option::None, Option::None) => true,
        (Option::Some(x), Option::Some(y)) => *x == *y,
        _ => false,
    }
}

fn opt_interpolation_eq(a: &Option<Interpolation>, b: &Option<Interpolation>) -> (r: bool)
    ensures
        r == (*a == *b),
{
    match (a, b) {
        (Option::None, Option::None) => true,
        (Option::Some(x), Option::Some(y)) => *x == *y,
        _ => false,
    }
}

fn type_inner_eq(a: &TypeInner, b: &TypeInner) -> (r: bool)
    ensures
        r == (*a == *b),
{
    match (a, b) {
        (TypeInner::Scalar { kind: k1, width: w1 }, TypeInner::Scalar { kind: k2, width: w2 }) => {
            *k1 == *k2 && *w1 == *w2
        },
        (
            TypeInner::Vector { size: s1, kind: k1, width: w1 },
            TypeInner::Vector { size: s2, kind: k2, width: w2 },
        ) => *s1 == *s2 && *k1 == *k2 && *w1 == *w2,
        (
            TypeInner::Matrix { columns: c1, rows: r1, kind: k1, width: w1 },
            TypeInner::Matrix { columns: c2, rows: r2, kind: k2, width: w2 },
        ) => *c1 == *c2 && *r1 == *r2 && *k1 == *k2 && *w1 == *w2,
        (
            TypeInner::Image { base: b1, dim: d1, flags: f1 },
            TypeInner::Image { base: b2, dim: d2, flags: f2 },
        ) => {
            let same_base = b1.index() == b2.index();
            proof {
                if b1.idx() == b2.idx() {
                    lemma_handle_ext(*b1, *b2);
                }
            }
            same_base && *d1 == *d2 && *f1 == *f2
        },
        (TypeInner::Sampler { comparison: c1 }, TypeInner::Sampler { comparison: c2 }) => {
            *c1 == *c2
        },
        _ => false,
    }
}

impl Alike for Type {
    open spec fn alike(self, other: Self) -> bool {
        opt_name_alike(self.name, other.name) && self.inner == other.inner
    }

    proof fn alike_equivalence(a: Self, b: Self, c: Self) {
    }

    fn alike_check(&self, other: &Self) -> (r: bool) {
        opt_name_eq(&self.name, &other.name) && type_inner_eq(&self.inner, &other.inner)
    }
}

impl Alike for Constant {
    open spec fn alike(self, other: Self) -> bool {
        opt_name_alike(self.name, other.name) && self.ty == other.ty && self.inner == other.inner
    }

    proof fn alike_equivalence(a: Self, b: Self, c: Self) {
    }

    fn alike_check(&self, other: &Self) -> (r: bool) {
        let same_ty = self.ty.index() == other.ty.index();
        proof {
            if self.ty.idx() == other.ty.idx() {
                lemma_handle_ext(self.ty, other.ty);
            }
        }
        opt_name_eq(&self.name, &other.name) && same_ty && self.inner == other.inner
    }
}

impl Alike for GlobalVariable {
    open spec fn alike(self, other: Self) -> bool {
        &&& opt_name_alike(self.name, other.name)
        &&& self.class == other.class
        &&& self.binding == other.binding
        &&& self.ty == other.ty
        &&& self.interpolation == other.interpolation
    }

    proof fn alike_equivalence(a: Self, b: Self, c: Self) {
    }

    fn alike_check(&self, other: &Self) -> (r: bool) {
        let same_ty = self.ty.index() == other.ty.index();
        proof {
            if self.ty.idx() == other.ty.idx() {
                lemma_handle_ext(self.ty, other.ty);
            }
        }
        opt_name_eq(&self.name, &other.name) && self.class == other.class
            && opt_binding_eq(&self.binding, &other.binding) && same_ty
            && opt_interpolation_eq(&self.interpolation, &other.interpolation)
    }
}

} // verus!
