//! The action layer: every reduction of the grammar runs one of these
//! functions against the translation state. Expression-producing rules pass
//! around an `ExpressionRule`: a value handle plus the ordered list of
//! statements its side effects became.

use vstd::prelude::*;
use crate::arena::{Alike, Handle, first_alike, intern_post};
use crate::error::ErrorKind;
use crate::ir::{
    Binding, BuiltIn, Constant, ConstantInner, Expression, Function, GlobalVariable, Interpolation, LocalVariable,
    ScalarKind, ShaderStage, Statement, StorageClass, Type, TypeInner, VectorSize,
    expr_children_lt, expr_globals_lt, expr_leaves_lt, stmt_wf, stmts_wf,
};
use crate::program::{Program, resolve_frames};
use crate::text::string_eq_literal;
use crate::token::TokenMetadata;

verus! {

broadcast use crate::arena::lemma_handle_idx_nonneg;

/// What an expression-producing rule yields: the value's handle and the
/// ordered pending statements its side effects became.
pub struct ExpressionRule {
    pub expression: Handle<Expression>,
    pub statements: Vec<Statement>,
}

/// A rule's handles all point into the current stores.
pub open spec fn rule_wf(r: ExpressionRule, ne: int) -> bool {
    r.expression.idx() < ne && stmts_wf(r.statements@, ne)
}

/// What a call target turned out to be.
pub enum FunctionCallKind {
    TypeConstructor(Handle<Type>),
    Function(Handle<Expression>),
}

/// A call being assembled: target kind, argument handles in order, and the
/// arguments' pending statements in order.
pub struct FunctionCall {
    pub kind: FunctionCallKind,
    pub args: Vec<Handle<Expression>>,
    pub statements: Vec<Statement>,
}

pub open spec fn call_wf(fc: FunctionCall, nt: int, ne: int) -> bool {
    &&& match fc.kind {
        FunctionCallKind::TypeConstructor(t) => t.idx() < nt,
        FunctionCallKind::Function(h) => h.idx() < ne,
    }
    &&& forall|i: int| 0 <= i < fc.args@.len() ==> (#[trigger] fc.args@[i]).idx() < ne
    &&& stmts_wf(fc.statements@, ne)
}

/// A rule stays well formed as the expression store grows.
pub proof fn lemma_rule_wf_mono(r: ExpressionRule, ne0: int, ne1: int)
    requires
        rule_wf(r, ne0),
        ne0 <= ne1,
    ensures
        rule_wf(r, ne1),
{
    crate::ir::lemma_stmts_wf_mono(r.statements@, ne0, ne1);
}

/// A declarator list stays well formed as the expression store grows.
pub proof fn lemma_ids_wf_mono(ids: Seq<(String, Option<ExpressionRule>)>, ne0: int, ne1: int)
    requires
        ids_wf(ids, ne0),
        ne0 <= ne1,
    ensures
        ids_wf(ids, ne1),
{
    assert forall|i: int|
        0 <= i < ids.len() implies match (#[trigger] ids[i]).1 {
        Some(r) => rule_wf(r, ne1),
        None => true,
    } by {
        match ids[i].1 {
            Some(r) => {
                lemma_rule_wf_mono(r, ne0, ne1);
            },
            None => {},
        }
    }
}

/// A call under assembly stays well formed as the stores grow.
pub proof fn lemma_call_wf_grow(fc: FunctionCall, p0: Program, p1: Program)
    requires
        call_wf(fc, p0.types@.len() as int, p0.context.expressions@.len() as int),
        p1.types@.len() >= p0.types@.len(),
        p1.context.expressions@.len() >= p0.context.expressions@.len(),
    ensures
        call_wf(fc, p1.types@.len() as int, p1.context.expressions@.len() as int),
{
    crate::ir::lemma_stmts_wf_mono(
        fc.statements@,
        p0.context.expressions@.len() as int,
        p1.context.expressions@.len() as int,
    );
    assert forall|i: int| 0 <= i < fc.args@.len() implies (#[trigger] fc.args@[i]).idx()
        < p1.context.expressions@.len() as int by {
        assert(fc.args@[i].idx() < p0.context.expressions@.len() as int);
    }
}

/// One qualifier read off a declaration.
#[derive(Clone, Copy)]
pub enum TypeQualifier {
    StorageClass(StorageClass),
    Binding(Binding),
    Interpolation(Interpolation),
}

/// The ordered declarators of one declaration: each identifier with its
/// optional initializer, all referencing the current expression store.
pub open spec fn ids_wf(ids: Seq<(String, Option<ExpressionRule>)>, ne: int) -> bool {
    forall|i: int|
        0 <= i < ids.len() ==> match (#[trigger] ids[i]).1 {
            Some(r) => rule_wf(r, ne),
            None => true,
        }
}

/// The header fields no action but the version gate may touch.
pub open spec fn same_header(p0: Program, p1: Program) -> bool {
    &&& p1.version == p0.version
    &&& p1.profile == p0.profile
    &&& p1.shader_stage == p0.shader_stage
    &&& p1.validate == p0.validate
}

/// Nothing changed but the expression store, which grew by `tail`.
pub open spec fn grew_expressions(p0: Program, p1: Program, tail: Seq<Expression>) -> bool {
    &&& same_header(p0, p1)
    &&& p1.types@ == p0.types@
    &&& p1.constants@ == p0.constants@
    &&& p1.global_variables@ == p0.global_variables@
    &&& p1.functions@ == p0.functions@
    &&& p1.lookup_global_variables@ == p0.lookup_global_variables@
    &&& p1.lookup_type@ == p0.lookup_type@
    &&& p1.lookup_function@ == p0.lookup_function@
    &&& p1.context.local_variables@ == p0.context.local_variables@
    &&& p1.context.frames() == p0.context.frames()
    &&& p1.context.expressions@ == p0.context.expressions@ + tail
}

/// The version gate: the declared version must be 440, 450 or 460, and the
/// profile, when given, must be `core`; `core` is also the default.
pub open spec fn version_mapping(
    vmeta: TokenMetadata,
    v: i64,
    p: Option<(TokenMetadata, String)>,
) -> Result<u16, ErrorKind> {
    if v != 440 && v != 450 && v != 460 {
        Err(ErrorKind::InvalidVersion(vmeta, v))
    } else {
        match p {
            None => Ok(v as u16),
            Some((pmeta, prof)) => if prof@ == "core"@ {
                Ok(v as u16)
            } else {
                Err(ErrorKind::InvalidProfile(pmeta, prof))
            },
        }
    }
}

/// Records the declared version and profile, or refuses them. On an invalid
/// profile the version has already been recorded, as the grammar reads it
/// first.
pub fn version_action(
    prog: &mut Program,
    vmeta: TokenMetadata,
    v: i64,
    p: Option<(TokenMetadata, String)>,
) -> (r: Result<(), ErrorKind>)
    requires
        old(prog).wf(),
    ensures
        final(prog).wf(),
        match version_mapping(vmeta, v, p) {
            Ok(ver) => r is Ok && final(prog).version == ver && final(prog).profile
                == crate::ir::Profile::Core,
            Err(e) => r == Err::<(), ErrorKind>(e) && (match e {
                ErrorKind::InvalidVersion(_, _) => final(prog).version == old(prog).version,
                _ => final(prog).version == v as u16,
            }) && final(prog).profile == old(prog).profile,
        },
        final(prog).shader_stage == old(prog).shader_stage,
        final(prog).validate == old(prog).validate,
        final(prog).types@ == old(prog).types@,
        final(prog).constants@ == old(prog).constants@,
        final(prog).global_variables@ == old(prog).global_variables@,
        final(prog).functions@ == old(prog).functions@,
        final(prog).lookup_global_variables@ == old(prog).lookup_global_variables@,
        final(prog).lookup_type@ == old(prog).lookup_type@,
        final(prog).lookup_function@ == old(prog).lookup_function@,
        final(prog).context == old(prog).context,
{
    if !(v == 440 || v == 450 || v == 460) {
        return Err(ErrorKind::InvalidVersion(vmeta, v));
    }
    prog.version = v as u16;
    match p {
        None => {
            prog.profile = crate::ir::Profile::Core;
            Ok(())
        },
        Some((pmeta, prof)) => {
            if string_eq_literal(&prof, "core") {
                prog.profile = crate::ir::Profile::Core;
                Ok(())
            } else {
                Err(ErrorKind::InvalidProfile(pmeta, prof))
            }
        },
    }
}

/// The reserved name whose first use inside a vertex or fragment stage
/// declares it.
pub open spec fn position_name() -> Seq<char> {
    "gl_Position"@
}

/// The type the reserved position variable gets: a 4-wide float vector.
pub open spec fn position_type() -> Type {
    Type {
        name: None,
        inner: TypeInner::Vector { size: VectorSize::Quad, kind: ScalarKind::Float, width: 4 },
    }
}

/// The storage class the reserved position variable gets per stage.
pub open spec fn position_class(stage: ShaderStage) -> StorageClass {
    match stage {
        ShaderStage::Vertex => StorageClass::Output,
        _ => StorageClass::Input,
    }
}

/// The global variable the reserved position name declares: built-in
/// position binding, stage-dependent class, no interpolation.
pub open spec fn is_position_global(gv: GlobalVariable, stage: ShaderStage, ty: int) -> bool {
    &&& gv.name matches Some(n) && n@ == position_name()
    &&& gv.class == position_class(stage)
    &&& gv.binding == Some(Binding::BuiltIn(BuiltIn::Position))
    &&& gv.ty.idx() == ty
    &&& gv.interpolation is None
}

/// The witnesses of one position resolution: the interned type index, the
/// global's handle, and the global's value.
pub open spec fn position_intern_witness(
    p0: Program,
    p1: Program,
    ht: int,
    hg: Handle<GlobalVariable>,
    gv: GlobalVariable,
) -> bool {
    &&& intern_post(p0.types@, p1.types@, position_type(), ht)
    &&& is_position_global(gv, p0.shader_stage, ht)
    &&& intern_post(p0.global_variables@, p1.global_variables@, gv, hg.idx())
    &&& p1.lookup_global_variables@ == p0.lookup_global_variables@.insert(position_name(), hg)
    &&& p1.context.expressions@ == p0.context.expressions@.push(Expression::GlobalVariable(hg))
}

/// What resolving the reserved position name does to the state: its type and
/// its global are interned (so a second reference reuses both), the lookup
/// table points at it, and one expression referencing it is appended.
pub open spec fn position_post(p0: Program, p1: Program, r: Result<
    ExpressionRule,
    ErrorKind,
>) -> bool {
    &&& exists|ht: int, hg: Handle<GlobalVariable>, gv: GlobalVariable| #[trigger]
        position_intern_witness(p0, p1, ht, hg, gv)
    &&& r matches Ok(rule) && rule.expression.idx() == p0.context.expressions@.len()
        && rule.statements@ == Seq::<Statement>::empty()
    &&& same_header(p0, p1)
    &&& p1.constants@ == p0.constants@
    &&& p1.functions@ == p0.functions@
    &&& p1.lookup_type@ == p0.lookup_type@
    &&& p1.lookup_function@ == p0.lookup_function@
    &&& p1.context.local_variables@ == p0.context.local_variables@
    &&& p1.context.frames() == p0.context.frames()
}

/// What resolving any other identifier does: the innermost scope holding it
/// wins, then the global table; an unknown name is refused by that name.
pub open spec fn plain_identifier_post(
    p0: Program,
    p1: Program,
    meta: TokenMetadata,
    name: Seq<char>,
    r: Result<ExpressionRule, ErrorKind>,
) -> bool {
    match resolve_frames(p0.context.frames(), name) {
        Some(lh) => grew_expressions(p0, p1, seq![Expression::LocalVariable(lh)]) && (
        r matches Ok(rule) && rule.expression.idx() == p0.context.expressions@.len()
            && rule.statements@ == Seq::<Statement>::empty()),
        None => if p0.lookup_global_variables@.contains_key(name) {
            grew_expressions(
                p0,
                p1,
                seq![Expression::GlobalVariable(p0.lookup_global_variables@[name])],
            ) && (r matches Ok(rule) && rule.expression.idx() == p0.context.expressions@.len()
                && rule.statements@ == Seq::<Statement>::empty())
        } else {
            p1 == p0 && (r matches Err(e) && e matches ErrorKind::UnknownIdentifier(m, n) && m
                == meta && n@ == name)
        },
    }
}

/// Resolves an identifier to an expression. The reserved position name,
/// inside a vertex or fragment stage, is declared on first use and found
/// again on every later one; anything else resolves innermost-to-outermost
/// against the scope stack and then the global table.
pub fn variable_identifier(prog: &mut Program, meta: TokenMetadata, name: String) -> (r: Result<
    ExpressionRule,
    ErrorKind,
>)
    requires
        old(prog).wf(),
    ensures
        final(prog).wf(),
        if name@ == position_name() && (old(prog).shader_stage == ShaderStage::Vertex || old(prog).shader_stage == ShaderStage::Fragment) {
            position_post(*old(prog), *final(prog), r)
        } else {
            plain_identifier_post(*old(prog), *final(prog), meta, name@, r)
        },
        r matches Ok(rule) ==> rule_wf(rule, final(prog).context.expressions@.len() as int),
{
    let is_position = string_eq_literal(&name, "gl_Position");
    let stage_ok = match prog.shader_stage {
        ShaderStage::Vertex => true,
        ShaderStage::Fragment => true,
        _ => false,
    };
    if is_position && stage_ok {
        let ty = prog.types.fetch_or_append(
            Type {
                name: None,
                inner: TypeInner::Vector {
                    size: VectorSize::Quad,
                    kind: ScalarKind::Float,
                    width: 4,
                },
            },
        );
        let class = match prog.shader_stage {
            ShaderStage::Vertex => StorageClass::Output,
            _ => StorageClass::Input,
        };
        let gv = GlobalVariable {
            name: Some(name.clone()),
            class,
            binding: Some(Binding::BuiltIn(BuiltIn::Position)),
            ty,
            interpolation: None,
        };
        let ghost witness_gv = gv;
        let h = prog.global_variables.fetch_or_append(gv);
        prog.lookup_global_variables.insert(name, h);
        let eh = prog.context.expressions.append(Expression::GlobalVariable(h));
        proof {
            assert(position_intern_witness(*old(prog), *prog, ty.idx(), h, witness_gv));
            lemma_wf_after_position(*old(prog), *prog, ty.idx(), h, witness_gv);
        }
        Ok(ExpressionRule { expression: eh, statements: Vec::new() })
    } else {
        match prog.context.lookup_local_var(&name) {
            Some(lh) => {
                proof {
                    crate::program::lemma_resolve_bound(
                        old(prog).context.frames(),
                        name@,
                        old(prog).context.local_variables@.len() as int,
                    );
                }
                let eh = prog.context.expressions.append(Expression::LocalVariable(lh));
                proof {
                    lemma_wf_after_leaf(*old(prog), *prog, Expression::LocalVariable(lh));
                    assert(prog.context.expressions@ =~= old(prog).context.expressions@ + seq![
                        Expression::LocalVariable(lh),
                    ]);
                }
                Ok(ExpressionRule { expression: eh, statements: Vec::new() })
            },
            None => match prog.lookup_global_variables.get(&name) {
                Some(gh) => {
                    let eh = prog.context.expressions.append(Expression::GlobalVariable(gh));
                    proof {
                        lemma_wf_after_leaf(*old(prog), *prog, Expression::GlobalVariable(gh));
                        assert(prog.context.expressions@ =~= old(prog).context.expressions@ + seq![
                            Expression::GlobalVariable(gh),
                        ]);
                    }
                    Ok(ExpressionRule { expression: eh, statements: Vec::new() })
                },
                None => Err(ErrorKind::UnknownIdentifier(meta, name)),
            },
        }
    }
}

/// Appending one well-formed leaf or node keeps the expression store well
/// formed when nothing else moved.
proof fn lemma_wf_after_leaf(p0: Program, p1: Program, e: Expression)
    requires
        p0.wf(),
        p1.types@ == p0.types@,
        p1.constants@ == p0.constants@,
        p1.global_variables@ == p0.global_variables@,
        p1.functions@ == p0.functions@,
        p1.lookup_global_variables@ == p0.lookup_global_variables@,
        p1.lookup_type@ == p0.lookup_type@,
        p1.lookup_function@ == p0.lookup_function@,
        p1.context.local_variables@ == p0.context.local_variables@,
        p1.context.frames() == p0.context.frames(),
        p1.context.expressions@ == p0.context.expressions@.push(e),
        expr_children_lt(e, p0.context.expressions@.len() as int),
        expr_globals_lt(e, p0.global_variables@.len() as int),
        expr_leaves_lt(
            e,
            p0.types@.len() as int,
            p0.constants@.len() as int,
            p0.context.local_variables@.len() as int,
        ),
    ensures
        p1.wf(),
{
    let s1 = p1.context.expressions@;
    let s0 = p0.context.expressions@;
    assert forall|i: int| 0 <= i < s1.len() implies expr_children_lt(#[trigger] s1[i], i)
        && expr_globals_lt(s1[i], p1.global_variables@.len() as int) && expr_leaves_lt(
        s1[i],
        p1.types@.len() as int,
        p1.constants@.len() as int,
        p1.context.local_variables@.len() as int,
    ) by {
        if i < s0.len() {
            assert(s1[i] == s0[i]);
        } else {
            assert(s1[i] == e);
        }
    }
}

/// After the position path ran, the whole program is still well formed.
proof fn lemma_wf_after_position(
    p0: Program,
    p1: Program,
    ht: int,
    hg: Handle<GlobalVariable>,
    gv: GlobalVariable,
)
    requires
        p0.wf(),
        position_intern_witness(p0, p1, ht, hg, gv),
        same_header(p0, p1),
        p1.constants@ == p0.constants@,
        p1.functions@ == p0.functions@,
        p1.lookup_type@ == p0.lookup_type@,
        p1.lookup_function@ == p0.lookup_function@,
        p1.context.local_variables@ == p0.context.local_variables@,
        p1.context.frames() == p0.context.frames(),
    ensures
        p1.wf(),
{
    crate::arena::lemma_intern_preserves_interned(p0.types@, p1.types@, position_type(), ht);
    crate::arena::lemma_intern_preserves_interned(
        p0.global_variables@,
        p1.global_variables@,
        gv,
        hg.idx(),
    );
    let s1 = p1.context.expressions@;
    let s0 = p0.context.expressions@;
    assert forall|i: int| 0 <= i < s1.len() implies expr_children_lt(#[trigger] s1[i], i)
        && expr_globals_lt(s1[i], p1.global_variables@.len() as int) && expr_leaves_lt(
        s1[i],
        p1.types@.len() as int,
        p1.constants@.len() as int,
        p1.context.local_variables@.len() as int,
    ) by {
        if i < s0.len() {
            assert(s1[i] == s0[i]);
            assert(expr_children_lt(s0[i], i) && expr_globals_lt(
                s0[i],
                p0.global_variables@.len() as int,
            ) && expr_leaves_lt(
                s0[i],
                p0.types@.len() as int,
                p0.constants@.len() as int,
                p0.context.local_variables@.len() as int,
            ));
        } else {
            assert(s1[i] == Expression::GlobalVariable(hg));
            assert(first_alike(p1.global_variables@, gv, hg.idx()));
        }
    }
    assert(crate::program::types_wf(p1.types@)) by {
        assert forall|i: int| 0 <= i < p1.types@.len() implies match (#[trigger] p1.types@[i]).inner {
            TypeInner::Image { base, dim, flags } => base.idx() < i,
            _ => true,
        } by {
            if i < p0.types@.len() {
                assert(p1.types@[i] == p0.types@[i]);
            } else {
                assert(p1.types@[i] == position_type());
            }
        }
    }
    assert(crate::program::globals_wf(p1.global_variables@, p1.types@.len() as int)) by {
        assert(first_alike(p1.types@, position_type(), ht));
        assert forall|i: int| 0 <= i < p1.global_variables@.len() implies (
        #[trigger] p1.global_variables@[i]).ty.idx() < p1.types@.len() as int by {
            if i < p0.global_variables@.len() {
                assert(p1.global_variables@[i] == p0.global_variables@[i]);
            } else {
                assert(p1.global_variables@[i] == gv);
            }
        }
    }
    assert(crate::program::table_bound(
        p1.lookup_global_variables@,
        p1.global_variables@.len() as int,
    )) by {
        assert(first_alike(p1.global_variables@, gv, hg.idx()));
        assert forall|k: Seq<char>| #[trigger]
            p1.lookup_global_variables@.contains_key(k) implies p1.lookup_global_variables@[k].idx()
            < p1.global_variables@.len() as int by {
            if k == position_name() {
            } else {
                assert(p0.lookup_global_variables@.contains_key(k));
            }
        }
    }
}

/// Built-in injection is memoized: after one resolution of the reserved
/// position name, a second resolution in the resulting state answers the
/// same global handle, and neither the type store nor the global store nor
/// the lookup table moves again.
pub proof fn lemma_position_memoized(
    p0: Program,
    p1: Program,
    p2: Program,
    r1: Result<ExpressionRule, ErrorKind>,
    r2: Result<ExpressionRule, ErrorKind>,
)
    requires
        position_post(p0, p1, r1),
        position_post(p1, p2, r2),
    ensures
        p2.types@ == p1.types@,
        p2.global_variables@ == p1.global_variables@,
        p2.lookup_global_variables@ == p1.lookup_global_variables@,
        p1.context.expressions@.len() >= 1 && p2.context.expressions@.len() >= 1
            && p2.context.expressions@.last() == p1.context.expressions@.last(),
{
    let (ht1, hg1, gv1) = choose|ht: int, hg: Handle<GlobalVariable>, gv: GlobalVariable|
        #[trigger] position_intern_witness(p0, p1, ht, hg, gv);
    let (ht2, hg2, gv2) = choose|ht: int, hg: Handle<GlobalVariable>, gv: GlobalVariable|
        #[trigger] position_intern_witness(p1, p2, ht, hg, gv);
    Type::alike_equivalence(position_type(), position_type(), position_type());
    crate::arena::lemma_intern_idempotent(
        p0.types@,
        p1.types@,
        p2.types@,
        position_type(),
        position_type(),
        ht1,
        ht2,
    );
    assert(gv1.alike(gv2)) by {
        assert(gv1.ty.idx() == ht1 && gv2.ty.idx() == ht2 && ht1 == ht2);
        crate::arena::lemma_handle_ext(gv1.ty, gv2.ty);
    }
    crate::arena::lemma_intern_idempotent(
        p0.global_variables@,
        p1.global_variables@,
        p2.global_variables@,
        gv1,
        gv2,
        hg1.idx(),
        hg2.idx(),
    );
    crate::arena::lemma_handle_ext(hg1, hg2);
    assert(p2.lookup_global_variables@ =~= p1.lookup_global_variables@);
    assert(p1.context.expressions@.last() == Expression::GlobalVariable(hg1));
    assert(p2.context.expressions@.last() == Expression::GlobalVariable(hg2));
}

/// The interned scalar type of an integer literal.
pub open spec fn sint_type() -> Type {
    Type { name: None, inner: TypeInner::Scalar { kind: ScalarKind::Sint, width: 4 } }
}

/// The interned scalar type of a floating literal.
pub open spec fn float_type() -> Type {
    Type { name: None, inner: TypeInner::Scalar { kind: ScalarKind::Float, width: 4 } }
}

/// The witnesses of one literal: the interned type index, the constant's
/// handle, and the constant's value.
pub open spec fn literal_witness(
    p0: Program,
    p1: Program,
    t: Type,
    cin: ConstantInner,
    ht: int,
    hc: Handle<Constant>,
    c: Constant,
) -> bool {
    &&& intern_post(p0.types@, p1.types@, t, ht)
    &&& c.name is None && c.ty.idx() == ht && c.inner == cin
    &&& intern_post(p0.constants@, p1.constants@, c, hc.idx())
    &&& p1.context.expressions@ == p0.context.expressions@.push(Expression::Constant(hc))
}

/// What recognizing a literal does: its scalar type and its constant are
/// interned, and one expression referencing the constant is appended.
pub open spec fn literal_post(
    p0: Program,
    p1: Program,
    t: Type,
    cin: ConstantInner,
    rule: ExpressionRule,
) -> bool {
    &&& exists|ht: int, hc: Handle<Constant>, c: Constant| #[trigger] literal_witness(
        p0,
        p1,
        t,
        cin,
        ht,
        hc,
        c,
    )
    &&& rule.expression.idx() == p0.context.expressions@.len()
    &&& rule.statements@ == Seq::<Statement>::empty()
    &&& same_header(p0, p1)
    &&& p1.global_variables@ == p0.global_variables@
    &&& p1.functions@ == p0.functions@
    &&& p1.lookup_global_variables@ == p0.lookup_global_variables@
    &&& p1.lookup_type@ == p0.lookup_type@
    &&& p1.lookup_function@ == p0.lookup_function@
    &&& p1.context.local_variables@ == p0.context.local_variables@
    &&& p1.context.frames() == p0.context.frames()
}

/// After a literal was interned, the program is still well formed.
proof fn lemma_wf_after_literal(
    p0: Program,
    p1: Program,
    t: Type,
    cin: ConstantInner,
    ht: int,
    hc: Handle<Constant>,
    c: Constant,
)
    requires
        p0.wf(),
        t.inner matches TypeInner::Scalar { kind, width },
        literal_witness(p0, p1, t, cin, ht, hc, c),
        same_header(p0, p1),
        p1.global_variables@ == p0.global_variables@,
        p1.functions@ == p0.functions@,
        p1.lookup_global_variables@ == p0.lookup_global_variables@,
        p1.lookup_type@ == p0.lookup_type@,
        p1.lookup_function@ == p0.lookup_function@,
        p1.context.local_variables@ == p0.context.local_variables@,
        p1.context.frames() == p0.context.frames(),
    ensures
        p1.wf(),
{
    crate::arena::lemma_intern_preserves_interned(p0.types@, p1.types@, t, ht);
    crate::arena::lemma_intern_preserves_interned(p0.constants@, p1.constants@, c, hc.idx());
    let s1 = p1.context.expressions@;
    let s0 = p0.context.expressions@;
    assert(first_alike(p1.constants@, c, hc.idx()));
    assert(first_alike(p1.types@, t, ht));
    assert forall|i: int| 0 <= i < s1.len() implies expr_children_lt(#[trigger] s1[i], i)
        && expr_globals_lt(s1[i], p1.global_variables@.len() as int) && expr_leaves_lt(
        s1[i],
        p1.types@.len() as int,
        p1.constants@.len() as int,
        p1.context.local_variables@.len() as int,
    ) by {
        if i < s0.len() {
            assert(s1[i] == s0[i]);
            assert(expr_children_lt(s0[i], i) && expr_globals_lt(
                s0[i],
                p0.global_variables@.len() as int,
            ) && expr_leaves_lt(
                s0[i],
                p0.types@.len() as int,
                p0.constants@.len() as int,
                p0.context.local_variables@.len() as int,
            ));
        } else {
            assert(s1[i] == Expression::Constant(hc));
        }
    }
    assert(crate::program::types_wf(p1.types@)) by {
        assert forall|i: int| 0 <= i < p1.types@.len() implies match (#[trigger] p1.types@[i]).inner {
            TypeInner::Image { base, dim, flags } => base.idx() < i,
            _ => true,
        } by {
            if i < p0.types@.len() {
                assert(p1.types@[i] == p0.types@[i]);
            } else {
                assert(p1.types@[i] == t);
            }
        }
    }
    assert(crate::program::constants_wf(p1.constants@, p1.types@.len() as int)) by {
        assert forall|i: int| 0 <= i < p1.constants@.len() implies (
        #[trigger] p1.constants@[i]).ty.idx() < p1.types@.len() as int by {
            if i < p0.constants@.len() {
                assert(p1.constants@[i] == p0.constants@[i]);
            } else {
                assert(p1.constants@[i] == c);
            }
        }
    }
}

/// Interns the type and value of an integer literal and yields a reference
/// to it.
pub fn int_constant(prog: &mut Program, v: i64) -> (rule: ExpressionRule)
    requires
        old(prog).wf(),
    ensures
        final(prog).wf(),
        literal_post(*old(prog), *final(prog), sint_type(), ConstantInner::Sint(v), rule),
        rule_wf(rule, final(prog).context.expressions@.len() as int),
{
    let ty = prog.types.fetch_or_append(
        Type { name: None, inner: TypeInner::Scalar { kind: ScalarKind::Sint, width: 4 } },
    );
    let c = Constant { name: None, ty, inner: ConstantInner::Sint(v) };
    let ghost cwit = c;
    let ch = prog.constants.fetch_or_append(c);
    let eh = prog.context.expressions.append(Expression::Constant(ch));
    proof {
        assert(literal_witness(
            *old(prog),
            *prog,
            sint_type(),
            ConstantInner::Sint(v),
            ty.idx(),
            ch,
            cwit,
        ));
        lemma_wf_after_literal(
            *old(prog),
            *prog,
            sint_type(),
            ConstantInner::Sint(v),
            ty.idx(),
            ch,
            cwit,
        );
    }
    ExpressionRule { expression: eh, statements: Vec::new() }
}

/// Interns the type and value of a floating literal, given as the 64-bit
/// pattern of its value, and yields a reference to it.
pub fn float_constant(prog: &mut Program, bits: u64) -> (rule: ExpressionRule)
    requires
        old(prog).wf(),
    ensures
        final(prog).wf(),
        literal_post(*old(prog), *final(prog), float_type(), ConstantInner::Float(bits), rule),
        rule_wf(rule, final(prog).context.expressions@.len() as int),
{
    let ty = prog.types.fetch_or_append(
        Type { name: None, inner: TypeInner::Scalar { kind: ScalarKind::Float, width: 4 } },
    );
    let c = Constant { name: None, ty, inner: ConstantInner::Float(bits) };
    let ghost cwit = c;
    let ch = prog.constants.fetch_or_append(c);
    let eh = prog.context.expressions.append(Expression::Constant(ch));
    proof {
        assert(literal_witness(
            *old(prog),
            *prog,
            float_type(),
            ConstantInner::Float(bits),
            ty.idx(),
            ch,
            cwit,
        ));
        lemma_wf_after_literal(
            *old(prog),
            *prog,
            float_type(),
            ConstantInner::Float(bits),
            ty.idx(),
            ch,
            cwit,
        );
    }
    ExpressionRule { expression: eh, statements: Vec::new() }
}

/// Appends one binary node over two earlier operands.
pub fn binary_expression(
    prog: &mut Program,
    op: crate::ir::BinaryOperator,
    left: Handle<Expression>,
    right: Handle<Expression>,
) -> (h: Handle<Expression>)
    requires
        old(prog).wf(),
        left.idx() < old(prog).context.expressions@.len(),
        right.idx() < old(prog).context.expressions@.len(),
    ensures
        final(prog).wf(),
        grew_expressions(
            *old(prog),
            *final(prog),
            seq![Expression::Binary { op, left, right }],
        ),
        h.idx() == old(prog).context.expressions@.len(),
{
    let h = prog.context.expressions.append(Expression::Binary { op, left, right });
    proof {
        lemma_wf_after_leaf(*old(prog), *prog, Expression::Binary { op, left, right });
        assert(prog.context.expressions@ =~= old(prog).context.expressions@ + seq![
            Expression::Binary { op, left, right },
        ]);
    }
    h
}

/// Assignment as an expression: only plain `=` is implemented. The value
/// side's pending statements run first, then the store; the target's own
/// handle is the yielded value.
pub fn assignment_action(
    op: crate::ir::BinaryOperator,
    pointer: ExpressionRule,
    value: ExpressionRule,
) -> (r: Result<ExpressionRule, ErrorKind>)
    ensures
        op == crate::ir::BinaryOperator::Equal ==> (r matches Ok(rule) && rule.expression
            == pointer.expression && rule.statements@ == pointer.statements@ + value.statements@
            + seq![
            Statement::Store { pointer: pointer.expression, value: value.expression },
        ]),
        op != crate::ir::BinaryOperator::Equal ==> (r matches Err(e) && e
            matches ErrorKind::UnimplementedFeature(n) && n@ == "assign op"@),
{
    match op {
        crate::ir::BinaryOperator::Equal => {
            let ExpressionRule { expression, statements } = pointer;
            let mut statements = statements;
            let ExpressionRule { expression: vexpr, statements: vstmts } = value;
            let mut vstmts = vstmts;
            statements.append(&mut vstmts);
            statements.push(Statement::Store { pointer: expression, value: vexpr });
            Ok(ExpressionRule { expression, statements })
        },
        _ => Err(ErrorKind::UnimplementedFeature("assign op")),
    }
}

/// The comma operator: the left operand's pending statements run before the
/// right operand's, and the right operand's value is the result.
pub fn comma_combine(left: ExpressionRule, right: ExpressionRule) -> (r: ExpressionRule)
    ensures
        r.expression == right.expression,
        r.statements@ == left.statements@ + right.statements@,
{
    let ExpressionRule { expression: _, statements } = left;
    let mut statements = statements;
    let ExpressionRule { expression, statements: rstmts } = right;
    let mut rstmts = rstmts;
    statements.append(&mut rstmts);
    ExpressionRule { expression, statements }
}

/// A statement boundary: no pending statements is an empty statement,
/// exactly one is that statement, more become a block in original order.
pub fn flatten_statements(statements: Vec<Statement>) -> (r: Statement)
    ensures
        statements@.len() == 0 ==> r == Statement::Empty,
        statements@.len() == 1 ==> r == statements@[0],
        statements@.len() >= 2 ==> (r matches Statement::Block(l) && l@ == statements@),
{
    if statements.len() == 0 {
        Statement::Empty
    } else if statements.len() == 1 {
        let mut statements = statements;
        statements.remove(0)
    } else {
        Statement::Block(statements)
    }
}

/// A call whose target parsed as a type specifier composes a value of that
/// type from the arguments in order; a call on an ordinary expression is
/// recognized but refused.
pub fn function_call_action(prog: &mut Program, fc: FunctionCall) -> (r: Result<
    ExpressionRule,
    ErrorKind,
>)
    requires
        old(prog).wf(),
        call_wf(
            fc,
            old(prog).types@.len() as int,
            old(prog).context.expressions@.len() as int,
        ),
    ensures
        final(prog).wf(),
        fc.kind matches FunctionCallKind::TypeConstructor(ty) ==> (r matches Ok(rule)
            && grew_expressions(
            *old(prog),
            *final(prog),
            seq![Expression::Compose { ty, components: fc.args }],
        ) && rule.expression.idx() == old(prog).context.expressions@.len()
            && rule.statements@ == fc.statements@),
        fc.kind matches FunctionCallKind::Function(fh) ==> (*final(prog) == *old(prog) && (
        r matches Err(e) && e matches ErrorKind::UnimplementedFeature(n) && n@
            == "Function call"@)),
        r matches Ok(rule) ==> rule_wf(rule, final(prog).context.expressions@.len() as int),
{
    match fc.kind {
        FunctionCallKind::TypeConstructor(ty) => {
            let node = Expression::Compose { ty, components: fc.args };
            let ghost nwit = node;
            let h = prog.context.expressions.append(node);
            proof {
                lemma_wf_after_leaf(*old(prog), *prog, nwit);
                assert(prog.context.expressions@ =~= old(prog).context.expressions@
                    + seq![nwit]);
                crate::ir::lemma_stmts_wf_mono(
                    fc.statements@,
                    old(prog).context.expressions@.len() as int,
                    prog.context.expressions@.len() as int,
                );
            }
            Ok(ExpressionRule { expression: h, statements: fc.statements })
        },
        FunctionCallKind::Function(_) => Err(ErrorKind::UnimplementedFeature("Function call")),
    }
}

/// A type value the store can take: an image base must already exist.
pub open spec fn type_value_ok(t: Type, nt: int) -> bool {
    match t.inner {
        TypeInner::Image { base, dim, flags } => base.idx() < nt,
        _ => true,
    }
}

/// Interns a resolved type specifier and registers its name, when it has
/// one; void stays unrepresented.
pub fn type_specifier_action(prog: &mut Program, t: Option<Type>) -> (r: Option<Handle<Type>>)
    requires
        old(prog).wf(),
        t matches Some(tv) ==> type_value_ok(tv, old(prog).types@.len() as int),
    ensures
        final(prog).wf(),
        t is None ==> *final(prog) == *old(prog) && r is None,
        t matches Some(tv) ==> r matches Some(h) && intern_post(
            old(prog).types@,
            final(prog).types@,
            tv,
            h.idx(),
        ) && (match tv.name {
            Some(n) => final(prog).lookup_type@ == old(prog).lookup_type@.insert(n@, h),
            None => final(prog).lookup_type@ == old(prog).lookup_type@,
        }) && same_header(*old(prog), *final(prog)) && final(prog).constants@ == old(prog).constants@ && final(prog).global_variables@ == old(prog).global_variables@ && final(prog).functions@ == old(prog).functions@ && final(prog).lookup_global_variables@ == old(prog).lookup_global_variables@ && final(prog).lookup_function@ == old(prog).lookup_function@
            && final(prog).context == old(prog).context,
{
    match t {
        None => None,
        Some(tv) => {
            let name: Option<String> = match &tv.name {
                Some(n) => Some(n.clone()),
                None => None,
            };
            let ghost twit = tv;
            let h = prog.types.fetch_or_append(tv);
            proof {
                lemma_wf_after_type_intern(*old(prog), *prog, twit, h.idx());
            }
            match name {
                Some(nm) => {
                    let ghost mid = *prog;
                    let ghost gnm = nm;
                    prog.lookup_type.insert(nm, h);
                    proof {
                        assert(h.idx() < mid.types@.len() && prog.lookup_type@
                            == mid.lookup_type@.insert(gnm@, h));
                        lemma_wf_after_type_lookup(mid, *prog);
                    }
                    Some(h)
                },
                None => Some(h),
            }
        },
    }
}

/// Interning one well-formed type keeps the program well formed.
proof fn lemma_wf_after_type_intern(p0: Program, p1: Program, t: Type, ht: int)
    requires
        p0.wf(),
        type_value_ok(t, p0.types@.len() as int),
        intern_post(p0.types@, p1.types@, t, ht),
        same_header(p0, p1),
        p1.constants@ == p0.constants@,
        p1.global_variables@ == p0.global_variables@,
        p1.functions@ == p0.functions@,
        p1.lookup_global_variables@ == p0.lookup_global_variables@,
        p1.lookup_type@ == p0.lookup_type@,
        p1.lookup_function@ == p0.lookup_function@,
        p1.context == p0.context,
    ensures
        p1.wf(),
{
    crate::arena::lemma_intern_preserves_interned(p0.types@, p1.types@, t, ht);
    assert(crate::program::types_wf(p1.types@)) by {
        assert forall|i: int| 0 <= i < p1.types@.len() implies match (#[trigger] p1.types@[i]).inner {
            TypeInner::Image { base, dim, flags } => base.idx() < i,
            _ => true,
        } by {
            if i < p0.types@.len() {
                assert(p1.types@[i] == p0.types@[i]);
            } else {
                assert(p1.types@[i] == t);
            }
        }
    }
}

/// Re-registering a type name keeps the program well formed: the handle just
/// interned is in range.
proof fn lemma_wf_after_type_lookup(p0: Program, p1: Program)
    requires
        p0.wf(),
        p1.version == p0.version,
        p1.profile == p0.profile,
        p1.shader_stage == p0.shader_stage,
        p1.validate == p0.validate,
        p1.types@ == p0.types@,
        p1.constants@ == p0.constants@,
        p1.global_variables@ == p0.global_variables@,
        p1.functions@ == p0.functions@,
        p1.lookup_global_variables@ == p0.lookup_global_variables@,
        p1.lookup_function@ == p0.lookup_function@,
        p1.context == p0.context,
        exists|k: Seq<char>, h: Handle<Type>|
            h.idx() < p0.types@.len() && p1.lookup_type@ == p0.lookup_type@.insert(k, h),
    ensures
        p1.wf(),
{
    let (k, h) = choose|k: Seq<char>, h: Handle<Type>|
        h.idx() < p0.types@.len() && p1.lookup_type@ == p0.lookup_type@.insert(k, h);
    assert forall|k2: Seq<char>| #[trigger]
        p1.lookup_type@.contains_key(k2) implies p1.lookup_type@[k2].idx()
        < p1.types@.len() as int by {
        if k2 == k {
        } else {
            assert(p0.lookup_type@.contains_key(k2));
        }
    }
}

/// The ordered concatenation of the initializers' pending statements, in
/// declaration order.
pub open spec fn ids_stmts(ids: Seq<(String, Option<ExpressionRule>)>) -> Seq<Statement>
    decreases ids.len(),
{
    if ids.len() == 0 {
        Seq::empty()
    } else {
        ids_stmts(ids.drop_last()) + (match ids.last().1 {
            Some(r) => r.statements@,
            None => Seq::<Statement>::empty(),
        })
    }
}

/// The innermost frame after binding the declared names in order, the
/// `j`-th to the local at `base + j`.
pub open spec fn frame_after(
    frame: Map<Seq<char>, Handle<LocalVariable>>,
    ids: Seq<(String, Option<ExpressionRule>)>,
    base: int,
) -> Map<Seq<char>, Handle<LocalVariable>>
    decreases ids.len(),
{
    if ids.len() == 0 {
        frame
    } else {
        frame_after(frame, ids.drop_last(), base).insert(
            ids.last().0@,
            crate::arena::spec_handle(base + ids.len() - 1),
        )
    }
}

/// A declared local as the store holds it.
pub open spec fn local_matches(
    lv: LocalVariable,
    id: (String, Option<ExpressionRule>),
    ty: Handle<Type>,
) -> bool {
    &&& lv.name matches Some(n) && n@ == id.0@
    &&& lv.ty == ty
    &&& match id.1 {
        Some(r) => lv.init == Some(r.expression),
        None => lv.init is None,
    }
}

/// The `j`-th declared name is already bound in the innermost scope once the
/// names before it are bound.
pub open spec fn dup_at(
    frame0: Map<Seq<char>, Handle<LocalVariable>>,
    ids: Seq<(String, Option<ExpressionRule>)>,
    base: int,
    j: int,
) -> bool {
    frame_after(frame0, ids.take(j), base).contains_key(ids[j].0@)
}

pub open spec fn first_dup_at(
    frame0: Map<Seq<char>, Handle<LocalVariable>>,
    ids: Seq<(String, Option<ExpressionRule>)>,
    base: int,
    j: int,
) -> bool {
    0 <= j < ids.len() && dup_at(frame0, ids, base, j) && forall|j2: int|
        0 <= j2 < j ==> !dup_at(frame0, ids, base, j2)
}

pub open spec fn has_dup(
    frame0: Map<Seq<char>, Handle<LocalVariable>>,
    ids: Seq<(String, Option<ExpressionRule>)>,
    base: int,
) -> bool {
    exists|j: int| 0 <= j < ids.len() && dup_at(frame0, ids, base, j)
}

/// Everything a statement-context declaration leaves alone.
pub open spec fn decl_untouched(p0: Program, p1: Program) -> bool {
    &&& same_header(p0, p1)
    &&& p1.types@ == p0.types@
    &&& p1.constants@ == p0.constants@
    &&& p1.global_variables@ == p0.global_variables@
    &&& p1.functions@ == p0.functions@
    &&& p1.lookup_global_variables@ == p0.lookup_global_variables@
    &&& p1.lookup_type@ == p0.lookup_type@
    &&& p1.lookup_function@ == p0.lookup_function@
    &&& p1.context.expressions@ == p0.context.expressions@
}

/// A declaration in statement context: every identifier becomes one local
/// variable, bound in the innermost scope, its initializer stored on it; the
/// statement yielded is the flattening of the initializers' pending
/// statements in declaration order. When validation is on, a name already
/// bound in the innermost scope is refused.
pub fn declaration_statement_action(
    prog: &mut Program,
    ty: Handle<Type>,
    ids_initializers: Vec<(String, Option<ExpressionRule>)>,
    Ghost(ids): Ghost<Seq<(String, Option<ExpressionRule>)>>,
) -> (r: Result<Statement, ErrorKind>)
    requires
        old(prog).wf(),
        ty.idx() < old(prog).types@.len(),
        ids == ids_initializers@,
        ids_wf(ids_initializers@, old(prog).context.expressions@.len() as int),
    ensures
        final(prog).wf(),
        decl_untouched(*old(prog), *final(prog)),
        ({
            let base = old(prog).context.local_variables@.len() as int;
            let frame0 = old(prog).context.frames().last();
            if old(prog).validate && has_dup(frame0, ids, base) {
                r matches Err(e) && e matches ErrorKind::DuplicateDeclaration(n) && (exists|j: int|
                    #[trigger] first_dup_at(frame0, ids, base, j) && n@ == ids[j].0@)
            } else {
                &&& final(prog).context.local_variables@.len() == base + ids.len()
                &&& final(prog).context.local_variables@.take(base) == old(
                    prog,
                ).context.local_variables@
                &&& forall|j: int|
                    0 <= j < ids.len() ==> local_matches(
                        #[trigger] final(prog).context.local_variables@[base + j],
                        ids[j],
                        ty,
                    )
                &&& final(prog).context.frames() == old(prog).context.frames().update(
                    old(prog).context.frames().len() - 1,
                    frame_after(frame0, ids, base),
                )
                &&& ({
                    let ss = ids_stmts(ids);
                    &&& ss.len() == 0 ==> r == Ok::<Statement, ErrorKind>(Statement::Empty)
                    &&& ss.len() == 1 ==> r == Ok::<Statement, ErrorKind>(ss[0])
                    &&& ss.len() >= 2 ==> (r matches Ok(st) && st matches Statement::Block(l)
                        && l@ == ss)
                    &&& r matches Ok(st) && stmt_wf(
                        st,
                        final(prog).context.expressions@.len() as int,
                    )
                })
            }
        }),
{
    broadcast use crate::arena::lemma_spec_handle_roundtrip;

    let ghost base = old(prog).context.local_variables@.len() as int;
    let ghost frame0 = old(prog).context.frames().last();
    let ghost lastidx = old(prog).context.frames().len() - 1;
    let mut statements: Vec<Statement> = Vec::new();
    let mut items = ids_initializers;
    let n = items.len();
    let mut i: usize = 0;
    proof {
        assert(items@ =~= ids.skip(0));
        assert(ids.take(0) =~= Seq::<(String, Option<ExpressionRule>)>::empty());
        assert(old(prog).context.frames().update(
            lastidx,
            frame_after(frame0, ids.take(0), base),
        ) =~= old(prog).context.frames());
        assert(prog.context.local_variables@.take(base) =~= old(
            prog,
        ).context.local_variables@);
    }
    while i < n
        invariant
            prog.wf(),
            decl_untouched(*old(prog), *prog),
            n == ids.len(),
            0 <= i <= n,
            items@ == ids.skip(i as int),
            base == old(prog).context.local_variables@.len() as int,
            frame0 == old(prog).context.frames().last(),
            lastidx == old(prog).context.frames().len() - 1,
            lastidx >= 0,
            ty.idx() < prog.types@.len(),
            forall|j: int|
                0 <= j < ids.len() ==> match (#[trigger] ids[j]).1 {
                    Some(r) => rule_wf(r, prog.context.expressions@.len() as int),
                    None => true,
                },
            prog.context.local_variables@.len() == base + i,
            prog.context.local_variables@.take(base) == old(prog).context.local_variables@,
            forall|j: int|
                0 <= j < i ==> local_matches(
                    #[trigger] prog.context.local_variables@[base + j],
                    ids[j],
                    ty,
                ),
            prog.context.frames() == old(prog).context.frames().update(
                lastidx,
                frame_after(frame0, ids.take(i as int), base),
            ),
            statements@ == ids_stmts(ids.take(i as int)),
            stmts_wf(statements@, prog.context.expressions@.len() as int),
            prog.validate ==> forall|j: int| 0 <= j < i ==> !dup_at(frame0, ids, base, j),
        decreases n - i,
    {
        let ghost prev = *prog;
        let (id, init) = items.remove(0);
        proof {
            assert(ids.skip(i as int)[0] == ids[i as int]);
            assert(items@ =~= ids.skip(i as int + 1));
            assert(id == ids[i as int].0 && init == ids[i as int].1);
            assert(prog.context.frames().last() == frame_after(
                frame0,
                ids.take(i as int),
                base,
            ));
        }
        if prog.validate {
            match prog.context.lookup_local_var_current_scope(&id) {
                Some(_) => {
                    proof {
                        assert(dup_at(frame0, ids, base, i as int));
                        assert(has_dup(frame0, ids, base));
                        assert(first_dup_at(frame0, ids, base, i as int));
                        assert(id@ == ids[i as int].0@);
                        assert(old(prog).validate);
                    }
                    return Err(ErrorKind::DuplicateDeclaration(id));
                },
                None => {},
            }
        }
        let init_handle: Option<Handle<Expression>> = match init {
            Some(rule) => {
                let ExpressionRule { expression, statements: rstmts } = rule;
                let mut rstmts = rstmts;
                statements.append(&mut rstmts);
                Some(expression)
            },
            None => None,
        };
        let h = prog.context.local_variables.append(
            LocalVariable { name: Some(id.clone()), ty, init: init_handle },
        );
        prog.context.add_local_var(id, h);
        proof {
            assert(ids.take(i as int + 1).drop_last() =~= ids.take(i as int));
            assert(ids.take(i as int + 1).last() == ids[i as int]);
            assert(statements@ == ids_stmts(ids.take(i as int + 1)));
            crate::arena::lemma_spec_handle_roundtrip::<LocalVariable>(h);
            assert(h == crate::arena::spec_handle::<LocalVariable>(base + i));
            assert(frame_after(frame0, ids.take(i as int + 1), base) == frame_after(
                frame0,
                ids.take(i as int),
                base,
            ).insert(ids[i as int].0@, crate::arena::spec_handle(base + i)));
            assert(prog.context.frames() =~= old(prog).context.frames().update(
                lastidx,
                frame_after(frame0, ids.take(i as int + 1), base),
            ));
            assert(prog.context.local_variables@.take(base) =~= old(
                prog,
            ).context.local_variables@);
            assert forall|j: int|
                0 <= j < i as int + 1 implies local_matches(
                #[trigger] prog.context.local_variables@[base + j],
                ids[j],
                ty,
            ) by {
                if j < i as int {
                    assert(prog.context.local_variables@[base + j]
                        == prev.context.local_variables@[base + j]);
                }
            }
            assert(prog.context.local_variables@.take(
                prev.context.local_variables@.len() as int,
            ) =~= prev.context.local_variables@);
            assert(prog.context.frames().len() == prev.context.frames().len());
            assert forall|ii: int|
                0 <= ii < prog.context.frames().len() - 1 implies #[trigger] prog.context.frames()[
                ii] == prev.context.frames()[ii] by {
                assert(prog.context.frames()[ii] == prev.context.frames()[ii]);
            }
            assert(prog.context.frames().last() == prev.context.frames().last().insert(
                ids[i as int].0@,
                h,
            ));
            assert forall|k: Seq<char>| #[trigger]
                prog.context.frames().last().contains_key(k) implies (prog.context.frames().last()[
                k].idx() == base + i || (prev.context.frames().last().contains_key(k)
                && prog.context.frames().last()[k] == prev.context.frames().last()[k])) by {
                if k == ids[i as int].0@ {
                    assert(prog.context.frames().last()[k] == h);
                }
            }
            lemma_decl_step_wf(prev, *prog, ids[i as int], base + i);
        }
        i = i + 1;
    }
    proof {
        assert(ids.take(n as int) =~= ids);
        if prog.validate {
            assert forall|j: int|
                0 <= j < ids.len() implies !dup_at(frame0, ids, base, j) by {}
            assert(!has_dup(frame0, ids, base));
        }
    }
    let st = flatten_statements(statements);
    Ok(st)
}

/// One declared local keeps the program well formed: the new local is sound,
/// the new binding points at it, and everything else only grew.
proof fn lemma_decl_step_wf(p0: Program, p1: Program, id: (String, Option<ExpressionRule>), hidx: int)
    requires
        p0.wf(),
        decl_untouched(p0, p1),
        p1.context.local_variables@.len() == p0.context.local_variables@.len() + 1,
        p1.context.local_variables@.take(p0.context.local_variables@.len() as int) == p0.context.local_variables@,
        hidx == p0.context.local_variables@.len(),
        ({
            let lv = p1.context.local_variables@.last();
            &&& lv.ty.idx() < p0.types@.len()
            &&& match lv.init {
                Some(h) => h.idx() < p0.context.expressions@.len(),
                None => true,
            }
        }),
        p1.context.frames().len() == p0.context.frames().len(),
        forall|i: int|
            0 <= i < p1.context.frames().len() - 1 ==> #[trigger] p1.context.frames()[i]
                == p0.context.frames()[i],
        ({
            let f0 = p0.context.frames().last();
            let f1 = p1.context.frames().last();
            forall|k: Seq<char>| #[trigger]
                f1.contains_key(k) ==> (f1[k].idx() == hidx || (f0.contains_key(k) && f1[k]
                    == f0[k]))
        }),
    ensures
        p1.wf(),
{
    let nl0 = p0.context.local_variables@.len() as int;
    let nl1 = p1.context.local_variables@.len() as int;
    assert forall|i: int, k: Seq<char>|
        0 <= i < p1.context.frames().len() && #[trigger] p1.context.frames()[i].contains_key(
            k,
        ) implies p1.context.frames()[i][k].idx() < nl1 by {
        if i < p1.context.frames().len() - 1 {
            assert(p1.context.frames()[i] == p0.context.frames()[i]);
            assert(p0.context.frames()[i].contains_key(k));
        } else {
            assert(p1.context.frames()[i] == p1.context.frames().last());
            let f0 = p0.context.frames().last();
            let f1 = p1.context.frames().last();
            if f1[k].idx() == hidx {
            } else {
                assert(f0.contains_key(k) && f1[k] == f0[k]);
                assert(p0.context.frames()[p0.context.frames().len() - 1].contains_key(k));
            }
        }
    }
    assert forall|i: int|
        0 <= i < nl1 implies (#[trigger] p1.context.local_variables@[i]).ty.idx()
        < p1.types@.len() && match p1.context.local_variables@[i].init {
        Some(h) => h.idx() < p1.context.expressions@.len(),
        None => true,
    } by {
        if i < nl0 {
            assert(p1.context.local_variables@[i] == p1.context.local_variables@.take(nl0)[i]);
            assert(p1.context.local_variables@[i] == p0.context.local_variables@[i]);
        } else {
            assert(p1.context.local_variables@[i] == p1.context.local_variables@.last());
        }
    }
    crate::ir::lemma_exprs_wf_mono(
        p1.context.expressions@,
        p0.types@.len() as int,
        p0.constants@.len() as int,
        p0.global_variables@.len() as int,
        nl0,
        p1.types@.len() as int,
        p1.constants@.len() as int,
        p1.global_variables@.len() as int,
        nl1,
    );
}

/// The first storage-class qualifier, as an iteration from the front finds
/// it.
pub open spec fn first_storage_class(quals: Seq<TypeQualifier>) -> Option<StorageClass>
    decreases quals.len(),
{
    if quals.len() == 0 {
        None
    } else {
        match quals[0] {
            TypeQualifier::StorageClass(sc) => Some(sc),
            _ => first_storage_class(quals.drop_first()),
        }
    }
}

/// The first binding qualifier.
pub open spec fn first_binding(quals: Seq<TypeQualifier>) -> Option<Binding>
    decreases quals.len(),
{
    if quals.len() == 0 {
        None
    } else {
        match quals[0] {
            TypeQualifier::Binding(b) => Some(b),
            _ => first_binding(quals.drop_first()),
        }
    }
}

/// The first interpolation qualifier.
pub open spec fn first_interpolation(quals: Seq<TypeQualifier>) -> Option<Interpolation>
    decreases quals.len(),
{
    if quals.len() == 0 {
        None
    } else {
        match quals[0] {
            TypeQualifier::Interpolation(i) => Some(i),
            _ => first_interpolation(quals.drop_first()),
        }
    }
}

/// The interpolation a global gets: the declared one, else perspective when
/// the class is input or output, else none.
pub open spec fn effective_interpolation(
    quals: Seq<TypeQualifier>,
    class: StorageClass,
) -> Option<Interpolation> {
    match first_interpolation(quals) {
        Some(i) => Some(i),
        None => match class {
            StorageClass::Input | StorageClass::Output => Some(Interpolation::Perspective),
            _ => None,
        },
    }
}

fn find_storage_class(quals: &Vec<TypeQualifier>) -> (r: Option<StorageClass>)
    ensures
        r == first_storage_class(quals@),
{
    let n = quals.len();
    let mut i: usize = 0;
    proof {
        assert(quals@.skip(0) =~= quals@);
    }
    while i < n
        invariant
            n == quals@.len(),
            0 <= i <= n,
            first_storage_class(quals@) == first_storage_class(quals@.skip(i as int)),
        decreases n - i,
    {
        proof {
            assert(quals@.skip(i as int)[0] == quals@[i as int]);
            assert(quals@.skip(i as int).drop_first() =~= quals@.skip(i as int + 1));
        }
        match quals[i] {
            TypeQualifier::StorageClass(sc) => {
                return Some(sc);
            },
            _ => {},
        }
        i = i + 1;
    }
    proof {
        assert(quals@.skip(n as int) =~= Seq::<TypeQualifier>::empty());
    }
    None
}

fn find_binding(quals: &Vec<TypeQualifier>) -> (r: Option<Binding>)
    ensures
        r == first_binding(quals@),
{
    let n = quals.len();
    let mut i: usize = 0;
    proof {
        assert(quals@.skip(0) =~= quals@);
    }
    while i < n
        invariant
            n == quals@.len(),
            0 <= i <= n,
            first_binding(quals@) == first_binding(quals@.skip(i as int)),
        decreases n - i,
    {
        proof {
            assert(quals@.skip(i as int)[0] == quals@[i as int]);
            assert(quals@.skip(i as int).drop_first() =~= quals@.skip(i as int + 1));
        }
        match quals[i] {
            TypeQualifier::Binding(b) => {
                return Some(b);
            },
            _ => {},
        }
        i = i + 1;
    }
    proof {
        assert(quals@.skip(n as int) =~= Seq::<TypeQualifier>::empty());
    }
    None
}

fn find_interpolation(quals: &Vec<TypeQualifier>) -> (r: Option<Interpolation>)
    ensures
        r == first_interpolation(quals@),
{
    let n = quals.len();
    let mut i: usize = 0;
    proof {
        assert(quals@.skip(0) =~= quals@);
    }
    while i < n
        invariant
            n == quals@.len(),
            0 <= i <= n,
            first_interpolation(quals@) == first_interpolation(quals@.skip(i as int)),
        decreases n - i,
    {
        proof {
            assert(quals@.skip(i as int)[0] == quals@[i as int]);
            assert(quals@.skip(i as int).drop_first() =~= quals@.skip(i as int + 1));
        }
        match quals[i] {
            TypeQualifier::Interpolation(ip) => {
                return Some(ip);
            },
            _ => {},
        }
        i = i + 1;
    }
    proof {
        assert(quals@.skip(n as int) =~= Seq::<TypeQualifier>::empty());
    }
    None
}

/// A global as a file-scope declaration registers it.
pub open spec fn is_declared_global(
    gv: GlobalVariable,
    name: Seq<char>,
    class: StorageClass,
    binding: Option<Binding>,
    ty: Handle<Type>,
    interpolation: Option<Interpolation>,
) -> bool {
    &&& gv.name matches Some(n) && n@ == name
    &&& gv.class == class
    &&& gv.binding == binding
    &&& gv.ty == ty
    &&& gv.interpolation == interpolation
}

/// Every entry appended beyond `g0` is one of the declared globals.
pub open spec fn appended_globals_declared(
    g0: Seq<GlobalVariable>,
    g1: Seq<GlobalVariable>,
    ids: Seq<(String, Option<ExpressionRule>)>,
    class: StorageClass,
    binding: Option<Binding>,
    ty: Handle<Type>,
    interp: Option<Interpolation>,
) -> bool {
    forall|i: int|
        g0.len() <= i < g1.len() ==> exists|j: int|
            0 <= j < ids.len() && is_declared_global(#[trigger] g1[i], ids[j].0@, class, binding, ty, interp)
}

/// Everything a file-scope declaration leaves alone.
pub open spec fn global_decl_untouched(p0: Program, p1: Program) -> bool {
    &&& same_header(p0, p1)
    &&& p1.types@ == p0.types@
    &&& p1.constants@ == p0.constants@
    &&& p1.functions@ == p0.functions@
    &&& p1.lookup_type@ == p0.lookup_type@
    &&& p1.lookup_function@ == p0.lookup_function@
    &&& p1.context == p0.context
}

/// A declaration in file-scope context: every identifier becomes a global
/// variable. The storage class is mandatory; binding and interpolation are
/// optional, interpolation defaulting to perspective for inputs and outputs.
/// Structurally identical declarations collapse onto one entry.
pub fn global_declaration_action(
    prog: &mut Program,
    type_qualifiers: Vec<TypeQualifier>,
    ty: Handle<Type>,
    ids_initializers: Vec<(String, Option<ExpressionRule>)>,
    Ghost(ids): Ghost<Seq<(String, Option<ExpressionRule>)>>,
) -> (r: Result<(), ErrorKind>)
    requires
        old(prog).wf(),
        ty.idx() < old(prog).types@.len(),
        ids == ids_initializers@,
    ensures
        final(prog).wf(),
        global_decl_untouched(*old(prog), *final(prog)),
        ({
            let quals = type_qualifiers@;
            let g0 = old(prog).global_variables@;
            let l0 = old(prog).lookup_global_variables@;
            let g1 = final(prog).global_variables@;
            let l1 = final(prog).lookup_global_variables@;
            match first_storage_class(quals) {
                None => g1 == g0 && l1 == l0 && (r matches Err(e) && e
                    matches ErrorKind::SemanticError(m) && m@
                    == "Missing storage class for global var"@),
                Some(class) => {
                    let binding = first_binding(quals);
                    let interp = effective_interpolation(quals, class);
                    &&& r is Ok
                    &&& g1.take(g0.len() as int) == g0
                    &&& appended_globals_declared(g0, g1, ids, class, binding, ty, interp)
                    &&& forall|j: int|
                        0 <= j < ids.len() ==> l1.contains_key(#[trigger] ids[j].0@)
                            && l1[ids[j].0@].idx() < g1.len() && is_declared_global(
                            g1[l1[ids[j].0@].idx()],
                            ids[j].0@,
                            class,
                            binding,
                            ty,
                            interp,
                        )
                    &&& forall|k: Seq<char>| #[trigger]
                        l1.contains_key(k) ==> l0.contains_key(k) || exists|j: int|
                            0 <= j < ids.len() && (#[trigger] ids[j]).0@ == k
                    &&& forall|k: Seq<char>|
                        #[trigger] l0.contains_key(k) && !(exists|j: int|
                            0 <= j < ids.len() && (#[trigger] ids[j]).0@ == k) ==> l1.contains_key(
                            k,
                        ) && l1[k] == l0[k]
                },
            }
        }),
{
    let class = match find_storage_class(&type_qualifiers) {
        Some(sc) => sc,
        None => {
            return Err(ErrorKind::SemanticError("Missing storage class for global var"));
        },
    };
    let binding = find_binding(&type_qualifiers);
    let interpolation = match find_interpolation(&type_qualifiers) {
        Some(ip) => Some(ip),
        None => match class {
            StorageClass::Input | StorageClass::Output => Some(Interpolation::Perspective),
            _ => None,
        },
    };
    let ghost g0 = prog.global_variables@;
    let ghost l0 = prog.lookup_global_variables@;
    let mut items = ids_initializers;
    let n = items.len();
    let mut i: usize = 0;
    proof {
        assert(items@ =~= ids.skip(0));
        assert(prog.global_variables@.take(g0.len() as int) =~= g0);
    }
    while i < n
        invariant
            prog.wf(),
            global_decl_untouched(*old(prog), *prog),
            n == ids.len(),
            0 <= i <= n,
            items@ == ids.skip(i as int),
            g0 == old(prog).global_variables@,
            l0 == old(prog).lookup_global_variables@,
            ty.idx() < prog.types@.len(),
            prog.global_variables@.take(g0.len() as int) == g0,
            prog.global_variables@.len() >= g0.len(),
            appended_globals_declared(
                g0,
                prog.global_variables@,
                ids,
                class,
                binding,
                ty,
                interpolation,
            ),
            forall|j: int|
                0 <= j < i ==> prog.lookup_global_variables@.contains_key(#[trigger] ids[j].0@)
                    && prog.lookup_global_variables@[ids[j].0@].idx()
                    < prog.global_variables@.len() && is_declared_global(
                    prog.global_variables@[prog.lookup_global_variables@[ids[j].0@].idx()],
                    ids[j].0@,
                    class,
                    binding,
                    ty,
                    interpolation,
                ),
            forall|k: Seq<char>| #[trigger]
                prog.lookup_global_variables@.contains_key(k) ==> l0.contains_key(k) || exists|
                j: int|
                    0 <= j < ids.len() && (#[trigger] ids[j]).0@ == k,
            forall|k: Seq<char>|
                #[trigger] l0.contains_key(k) && !(exists|j: int|
                    0 <= j < ids.len() && (#[trigger] ids[j]).0@ == k)
                    ==> prog.lookup_global_variables@.contains_key(k)
                    && prog.lookup_global_variables@[k] == l0[k],
        decreases n - i,
    {
        let ghost prev = *prog;
        let (id, _init) = items.remove(0);
        proof {
            assert(ids.skip(i as int)[0] == ids[i as int]);
            assert(items@ =~= ids.skip(i as int + 1));
            assert(id == ids[i as int].0);
        }
        let gv = GlobalVariable {
            name: Some(id.clone()),
            class,
            binding,
            ty,
            interpolation,
        };
        let ghost gvwit = gv;
        let h = prog.global_variables.fetch_or_append(gv);
        prog.lookup_global_variables.insert(id, h);
        proof {
            crate::arena::lemma_intern_preserves_interned(
                prev.global_variables@,
                prog.global_variables@,
                gvwit,
                h.idx(),
            );
            assert(first_alike(prog.global_variables@, gvwit, h.idx()));
            assert(is_declared_global(
                prog.global_variables@[h.idx()],
                ids[i as int].0@,
                class,
                binding,
                ty,
                interpolation,
            )) by {
                assert(prog.global_variables@[h.idx()].alike(gvwit));
            }
            assert(prog.global_variables@.take(g0.len() as int) =~= g0);
            assert(appended_globals_declared(
                g0,
                prog.global_variables@,
                ids,
                class,
                binding,
                ty,
                interpolation,
            )) by {
                assert forall|ii: int|
                    g0.len() <= ii < prog.global_variables@.len() implies exists|j: int|
                        0 <= j < ids.len() && is_declared_global(
                            #[trigger] prog.global_variables@[ii],
                            ids[j].0@,
                            class,
                            binding,
                            ty,
                            interpolation,
                        ) by {
                    if ii < prev.global_variables@.len() {
                        assert(prog.global_variables@[ii] == prev.global_variables@[ii]);
                        assert(appended_globals_declared(
                            g0,
                            prev.global_variables@,
                            ids,
                            class,
                            binding,
                            ty,
                            interpolation,
                        ));
                    } else {
                        assert(prog.global_variables@[ii] == gvwit);
                        assert(is_declared_global(
                            prog.global_variables@[ii],
                            ids[i as int].0@,
                            class,
                            binding,
                            ty,
                            interpolation,
                        ));
                    }
                }
            }
            assert(prog.lookup_global_variables@ == prev.lookup_global_variables@.insert(
                ids[i as int].0@,
                h,
            ));
            lemma_global_decl_step_wf(prev, *prog, gvwit, h.idx());
        }
        i = i + 1;
    }
    proof {
        let quals = type_qualifiers@;
        assert(first_storage_class(quals) == Some(class));
        assert(binding == first_binding(quals));
        assert(interpolation == effective_interpolation(quals, class));
    }
    Ok(())
}

/// One registered global keeps the program well formed.
proof fn lemma_global_decl_step_wf(p0: Program, p1: Program, gv: GlobalVariable, h: int)
    requires
        p0.wf(),
        global_decl_untouched(p0, p1),
        gv.ty.idx() < p0.types@.len(),
        intern_post(p0.global_variables@, p1.global_variables@, gv, h),
        exists|k: Seq<char>, hh: Handle<GlobalVariable>|
            hh.idx() == h && p1.lookup_global_variables@ == p0.lookup_global_variables@.insert(
                k,
                hh,
            ),
    ensures
        p1.wf(),
{
    crate::arena::lemma_intern_preserves_interned(
        p0.global_variables@,
        p1.global_variables@,
        gv,
        h,
    );
    assert(crate::program::globals_wf(p1.global_variables@, p1.types@.len() as int)) by {
        assert forall|i: int| 0 <= i < p1.global_variables@.len() implies (
        #[trigger] p1.global_variables@[i]).ty.idx() < p1.types@.len() as int by {
            if i < p0.global_variables@.len() {
                assert(p1.global_variables@[i] == p0.global_variables@[i]);
            } else {
                assert(p1.global_variables@[i] == gv);
            }
        }
    }
    crate::ir::lemma_exprs_wf_mono(
        p1.context.expressions@,
        p0.types@.len() as int,
        p0.constants@.len() as int,
        p0.global_variables@.len() as int,
        p0.context.local_variables@.len() as int,
        p1.types@.len() as int,
        p1.constants@.len() as int,
        p1.global_variables@.len() as int,
        p1.context.local_variables@.len() as int,
    );
    let (k0, hh0) = choose|k: Seq<char>, hh: Handle<GlobalVariable>|
        hh.idx() == h && p1.lookup_global_variables@ == p0.lookup_global_variables@.insert(
            k,
            hh,
        );
    assert(first_alike(p1.global_variables@, gv, h));
    assert forall|k: Seq<char>| #[trigger]
        p1.lookup_global_variables@.contains_key(k) implies p1.lookup_global_variables@[k].idx()
        < p1.global_variables@.len() as int by {
        if k == k0 {
            assert(p1.lookup_global_variables@[k] == hh0);
        } else {
            assert(p0.lookup_global_variables@.contains_key(k));
        }
    }
}

/// Starts a function from its header: named, no parameters yet, the given
/// return type, and empty placeholder stores.
pub fn function_header_action(
    name: String,
    return_type: Option<Handle<Type>>,
    Ghost(name_chars): Ghost<Seq<char>>,
) -> (f: Function)
    requires
        name_chars == name@,
    ensures
        f.name matches Some(n) && n@ == name_chars,
        f.parameter_types@ == Seq::<Handle<Type>>::empty(),
        f.return_type == return_type,
        f.global_usage@ == Seq::<crate::ir::GlobalUse>::empty(),
        f.local_variables@ == Seq::<LocalVariable>::empty(),
        f.expressions@ == Seq::<Expression>::empty(),
        f.body@ == Seq::<Statement>::empty(),
{
    Function {
        name: Some(name),
        parameter_types: Vec::new(),
        return_type,
        global_usage: Vec::new(),
        local_variables: crate::arena::Arena::new(),
        expressions: crate::arena::Arena::new(),
        body: Vec::new(),
    }
}

/// Closes a function definition: the context's stores move into the
/// function, the scope stack resets, the body is attached, and the
/// global-usage scan runs over everything reachable from it.
pub fn function_definition_action(
    prog: &mut Program,
    f: Function,
    body: Vec<Statement>,
    Ghost(fsnap): Ghost<Function>,
    Ghost(bodysnap): Ghost<Seq<Statement>>,
) -> (g: Function)
    requires
        old(prog).wf(),
        fsnap == f,
        bodysnap == body@,
        f.expressions@ == Seq::<Expression>::empty(),
        f.local_variables@ == Seq::<LocalVariable>::empty(),
        stmts_wf(body@, old(prog).context.expressions@.len() as int),
    ensures
        final(prog).wf(),
        g.name == fsnap.name,
        g.parameter_types@ == fsnap.parameter_types@,
        g.return_type == fsnap.return_type,
        g.expressions@ == old(prog).context.expressions@,
        g.local_variables@ == old(prog).context.local_variables@,
        g.body@ == bodysnap,
        g.global_usage@.len() == old(prog).global_variables@.len(),
        forall|gi: int|
            0 <= gi < g.global_usage@.len() ==> (#[trigger] g.global_usage@[gi]).write
                == crate::usage::body_writes(old(prog).context.expressions@, bodysnap, gi) && g.global_usage@[gi].read
                == crate::usage::body_reads(old(prog).context.expressions@, bodysnap, gi),
        final(prog).context.expressions@ == Seq::<Expression>::empty(),
        final(prog).context.local_variables@ == Seq::<LocalVariable>::empty(),
        final(prog).context.frames() == seq![Map::<Seq<char>, Handle<LocalVariable>>::empty()],
        same_header(*old(prog), *final(prog)),
        final(prog).types@ == old(prog).types@,
        final(prog).constants@ == old(prog).constants@,
        final(prog).global_variables@ == old(prog).global_variables@,
        final(prog).functions@ == old(prog).functions@,
        final(prog).lookup_global_variables@ == old(prog).lookup_global_variables@,
        final(prog).lookup_type@ == old(prog).lookup_type@,
        final(prog).lookup_function@ == old(prog).lookup_function@,
{
    let mut f = f;
    core::mem::swap(&mut f.expressions, &mut prog.context.expressions);
    core::mem::swap(&mut f.local_variables, &mut prog.context.local_variables);
    prog.context.clear_scopes();
    f.body = body;
    let n = prog.global_variables.len();
    f.global_usage = crate::usage::scan_usage(&f.expressions, &f.body, n);
    f
}

/// Registers a finished function at top level, under its name when it has
/// one.
pub fn register_function(prog: &mut Program, f: Function, Ghost(fsnap): Ghost<Function>)
    requires
        old(prog).wf(),
        fsnap == f,
    ensures
        final(prog).wf(),
        final(prog).functions@ == old(prog).functions@.push(fsnap),
        fsnap.name matches Some(nm) ==> exists|h: Handle<Function>|
            h.idx() == old(prog).functions@.len() && final(prog).lookup_function@ == old(
                prog,
            ).lookup_function@.insert(nm@, h),
        fsnap.name is None ==> final(prog).lookup_function@ == old(prog).lookup_function@,
        same_header(*old(prog), *final(prog)),
        final(prog).types@ == old(prog).types@,
        final(prog).constants@ == old(prog).constants@,
        final(prog).global_variables@ == old(prog).global_variables@,
        final(prog).lookup_global_variables@ == old(prog).lookup_global_variables@,
        final(prog).lookup_type@ == old(prog).lookup_type@,
        final(prog).context == old(prog).context,
{
    let name: Option<String> = match &f.name {
        Some(n) => Some(n.clone()),
        None => None,
    };
    let h = prog.functions.append(f);
    match name {
        Some(nm) => {
            let ghost mid = *prog;
            prog.lookup_function.insert(nm, h);
            proof {
                assert forall|k: Seq<char>| #[trigger]
                    prog.lookup_function@.contains_key(k) implies prog.lookup_function@[k].idx()
                    < prog.functions@.len() as int by {
                    if prog.lookup_function@[k] == h && !mid.lookup_function@.contains_key(k) {
                    } else if mid.lookup_function@.contains_key(k) {
                        assert(old(prog).lookup_function@.contains_key(k));
                    }
                }
            }
        },
        None => {},
    }
}

} // verus!
