//! The global-usage scan: after a function body closes, every statement and
//! every expression reachable from it is visited, and each global variable
//! touched is recorded as read or written. A global reached under a store's
//! pointer operand is a write; any other occurrence is a read.

use vstd::prelude::*;
use crate::arena::Arena;
use crate::ir::{
    Expression, GlobalUse, Statement, expr_children_lt, exprs_acyclic, exprs_globals_lt, stmt_wf,
    stmts_wf,
};

verus! {

broadcast use crate::arena::lemma_handle_idx_nonneg;

/// Global `g` occurs in the expression tree rooted at node `h`.
pub open spec fn expr_mentions(s: Seq<Expression>, h: int, g: int) -> bool
    decreases h,
{
    if 0 <= h < s.len() {
        match s[h] {
            Expression::Constant(_) => false,
            Expression::GlobalVariable(gh) => gh.idx() == g,
            Expression::LocalVariable(_) => false,
            Expression::Binary { op, left, right } => {
                let lm = if left.idx() < h {
                    expr_mentions(s, left.idx(), g)
                } else {
                    false
                };
                let rm = if right.idx() < h {
                    expr_mentions(s, right.idx(), g)
                } else {
                    false
                };
                lm || rm
            },
            Expression::Compose { ty, components } => exists|k: int|
                0 <= k < components@.len() && (if (#[trigger] components@[k]).idx() < h {
                    expr_mentions(s, components@[k].idx(), g)
                } else {
                    false
                }),
        }
    } else {
        false
    }
}

/// Global `g` is written by `st`: it occurs under some store's pointer.
pub open spec fn stmt_writes(s: Seq<Expression>, st: Statement, g: int) -> bool
    decreases st,
{
    match st {
        Statement::Empty => false,
        Statement::Store { pointer, value } => expr_mentions(s, pointer.idx(), g),
        Statement::Block(l) => exists|i: int|
            0 <= i < l@.len() && stmt_writes(s, #[trigger] l@[i], g),
    }
}

/// Global `g` is read by `st`: it occurs under some store's value.
pub open spec fn stmt_reads(s: Seq<Expression>, st: Statement, g: int) -> bool
    decreases st,
{
    match st {
        Statement::Empty => false,
        Statement::Store { pointer, value } => expr_mentions(s, value.idx(), g),
        Statement::Block(l) => exists|i: int|
            0 <= i < l@.len() && stmt_reads(s, #[trigger] l@[i], g),
    }
}

pub open spec fn body_writes(s: Seq<Expression>, body: Seq<Statement>, g: int) -> bool {
    exists|i: int| 0 <= i < body.len() && stmt_writes(s, #[trigger] body[i], g)
}

pub open spec fn body_reads(s: Seq<Expression>, body: Seq<Statement>, g: int) -> bool {
    exists|i: int| 0 <= i < body.len() && stmt_reads(s, #[trigger] body[i], g)
}

/// Marks every global in the tree rooted at `h`: as written when under a
/// store's pointer (`target`), as read otherwise.
fn scan_expression(
    expressions: &Arena<Expression>,
    h: usize,
    target: bool,
    usage: &mut Vec<GlobalUse>,
)
    requires
        exprs_acyclic(expressions@),
        exprs_globals_lt(expressions@, old(usage)@.len() as int),
        h < expressions@.len(),
    ensures
        final(usage)@.len() == old(usage)@.len(),
        forall|g: int|
            0 <= g < old(usage)@.len() ==> (#[trigger] final(usage)@[g]).write == (old(
                usage,
            )@[g].write || (target && expr_mentions(expressions@, h as int, g))),
        forall|g: int|
            0 <= g < old(usage)@.len() ==> (#[trigger] final(usage)@[g]).read == (old(
                usage,
            )@[g].read || (!target && expr_mentions(expressions@, h as int, g))),
    decreases h,
{
    let node = expressions.get(crate::arena::Handle::make(h));
    match node {
        Expression::Constant(_) => {},
        Expression::GlobalVariable(gh) => {
            let gi = gh.index();
            let prev = usage[gi];
            usage[gi] = GlobalUse { read: prev.read || !target, write: prev.write || target };
        },
        Expression::LocalVariable(_) => {},
        Expression::Binary { op, left, right } => {
            assert(expr_children_lt(expressions@[h as int], h as int));
            scan_expression(expressions, left.index(), target, usage);
            scan_expression(expressions, right.index(), target, usage);
        },
        Expression::Compose { ty, components } => {
            assert(expr_children_lt(expressions@[h as int], h as int));
            let ghost entry = usage@;
            let n = components.len();
            let mut k: usize = 0;
            while k < n
                invariant
                    n == components@.len(),
                    0 <= k <= n,
                    exprs_acyclic(expressions@),
                    exprs_globals_lt(expressions@, entry.len() as int),
                    forall|k2: int|
                        0 <= k2 < n ==> (#[trigger] components@[k2]).idx() < h as int,
                    h < expressions@.len(),
                    usage@.len() == entry.len(),
                    forall|g: int|
                        0 <= g < entry.len() ==> (#[trigger] usage@[g]).write == (entry[g].write
                            || (target && exists|k2: int|
                            0 <= k2 < k && expr_mentions(
                                expressions@,
                                (#[trigger] components@[k2]).idx(),
                                g,
                            ))),
                    forall|g: int|
                        0 <= g < entry.len() ==> (#[trigger] usage@[g]).read == (entry[g].read || (
                        !target && exists|k2: int|
                            0 <= k2 < k && expr_mentions(
                                expressions@,
                                (#[trigger] components@[k2]).idx(),
                                g,
                            ))),
                decreases n - k,
            {
                scan_expression(expressions, components[k].index(), target, usage);
                k = k + 1;
            }
        },
    }
}

/// Marks every global the statement touches.
fn scan_statement(expressions: &Arena<Expression>, st: &Statement, usage: &mut Vec<GlobalUse>)
    requires
        exprs_acyclic(expressions@),
        exprs_globals_lt(expressions@, old(usage)@.len() as int),
        stmt_wf(*st, expressions@.len() as int),
    ensures
        final(usage)@.len() == old(usage)@.len(),
        forall|g: int|
            0 <= g < old(usage)@.len() ==> (#[trigger] final(usage)@[g]).write == (old(
                usage,
            )@[g].write || stmt_writes(expressions@, *st, g)),
        forall|g: int|
            0 <= g < old(usage)@.len() ==> (#[trigger] final(usage)@[g]).read == (old(
                usage,
            )@[g].read || stmt_reads(expressions@, *st, g)),
    decreases *st,
{
    match st {
        Statement::Empty => {},
        Statement::Store { pointer, value } => {
            scan_expression(expressions, pointer.index(), true, usage);
            scan_expression(expressions, value.index(), false, usage);
        },
        Statement::Block(l) => {
            let ghost entry = usage@;
            let n = l.len();
            let mut i: usize = 0;
            while i < n
                invariant
                    *st is Block,
                    (*st)->Block_0 == *l,
                    n == l@.len(),
                    0 <= i <= n,
                    exprs_acyclic(expressions@),
                    exprs_globals_lt(expressions@, entry.len() as int),
                    forall|j: int|
                        0 <= j < n ==> stmt_wf(#[trigger] l@[j], expressions@.len() as int),
                    usage@.len() == entry.len(),
                    forall|g: int|
                        0 <= g < entry.len() ==> (#[trigger] usage@[g]).write == (entry[g].write
                            || exists|j: int|
                            0 <= j < i && stmt_writes(expressions@, #[trigger] l@[j], g)),
                    forall|g: int|
                        0 <= g < entry.len() ==> (#[trigger] usage@[g]).read == (entry[g].read
                            || exists|j: int|
                            0 <= j < i && stmt_reads(expressions@, #[trigger] l@[j], g)),
                decreases n - i,
            {
                proof {
                    assert(*st is Block);
                    assert((*st)->Block_0 == *l);
                    assert(decreases_to!(*st => (*st)->Block_0));
                    assert(decreases_to!((*st)->Block_0 => (*st)->Block_0@));
                    assert(decreases_to!((*st)->Block_0@ => (*st)->Block_0@[i as int]));
                    assert(decreases_to!(*st => l@[i as int]));
                }
                scan_statement(expressions, &l[i], usage);
                i = i + 1;
            }
        },
    }
}

/// Scans a whole body and answers, per global variable of the program in
/// store order, whether the body reads it and whether it writes it.
pub fn scan_usage(
    expressions: &Arena<Expression>,
    body: &Vec<Statement>,
    globals_len: usize,
) -> (usage: Vec<GlobalUse>)
    requires
        exprs_acyclic(expressions@),
        exprs_globals_lt(expressions@, globals_len as int),
        stmts_wf(body@, expressions@.len() as int),
    ensures
        usage@.len() == globals_len,
        forall|g: int|
            0 <= g < globals_len ==> (#[trigger] usage@[g]).write == body_writes(
                expressions@,
                body@,
                g,
            ),
        forall|g: int|
            0 <= g < globals_len ==> (#[trigger] usage@[g]).read == body_reads(
                expressions@,
                body@,
                g,
            ),
{
    let mut usage: Vec<GlobalUse> = Vec::new();
    let mut z: usize = 0;
    while z < globals_len
        invariant
            0 <= z <= globals_len,
            usage@.len() == z,
            forall|g: int|
                0 <= g < z ==> (#[trigger] usage@[g]) == (GlobalUse { read: false, write: false }),
        decreases globals_len - z,
    {
        usage.push(GlobalUse { read: false, write: false });
        z = z + 1;
    }
    let n = body.len();
    let mut i: usize = 0;
    while i < n
        invariant
            n == body@.len(),
            0 <= i <= n,
            exprs_acyclic(expressions@),
            exprs_globals_lt(expressions@, globals_len as int),
            stmts_wf(body@, expressions@.len() as int),
            usage@.len() == globals_len,
            forall|g: int|
                0 <= g < globals_len ==> (#[trigger] usage@[g]).write == exists|j: int|
                    0 <= j < i && stmt_writes(expressions@, #[trigger] body@[j], g),
            forall|g: int|
                0 <= g < globals_len ==> (#[trigger] usage@[g]).read == exists|j: int|
                    0 <= j < i && stmt_reads(expressions@, #[trigger] body@[j], g),
        decreases n - i,
    {
        scan_statement(expressions, &body[i], &mut usage);
        i = i + 1;
    }
    usage
}

} // verus!
