//! Translation state. `Program` is the top-level accumulator; `Context` is
//! the transient per-function state: an expression arena, a local-variable
//! arena, and a scope stack searched innermost first.

use vstd::prelude::*;
use crate::arena::{Arena, Handle};
use crate::ir::{
    Constant, Expression, Function, GlobalVariable, LocalVariable, Profile, ShaderStage, Type,
    TypeInner, exprs_wf,
};
use crate::lookup::NameTable;

verus! {

broadcast use crate::arena::lemma_handle_idx_nonneg;

/// Per-function translation state, moved into the function when its
/// definition closes.
pub struct Context {
    pub expressions: Arena<Expression>,
    pub local_variables: Arena<LocalVariable>,
    pub scopes: Vec<NameTable<Handle<LocalVariable>>>,
}

/// What a scope stack means: one map per frame, innermost last.
pub open spec fn frames_of(scopes: Seq<NameTable<Handle<LocalVariable>>>) -> Seq<
    Map<Seq<char>, Handle<LocalVariable>>,
> {
    scopes.map_values(|t: NameTable<Handle<LocalVariable>>| t@)
}

/// Resolution against a scope stack: the innermost frame holding the name
/// wins; an empty stack answers nothing.
pub open spec fn resolve_frames(
    frames: Seq<Map<Seq<char>, Handle<LocalVariable>>>,
    name: Seq<char>,
) -> Option<Handle<LocalVariable>>
    decreases frames.len(),
{
    if frames.len() == 0 {
        None
    } else if frames.last().contains_key(name) {
        Some(frames.last()[name])
    } else {
        resolve_frames(frames.drop_last(), name)
    }
}

/// Every handle a scope stack binds is within the local store.
pub open spec fn frames_bound(
    frames: Seq<Map<Seq<char>, Handle<LocalVariable>>>,
    nl: int,
) -> bool {
    forall|i: int, k: Seq<char>|
        0 <= i < frames.len() && #[trigger] frames[i].contains_key(k) ==> frames[i][k].idx() < nl
}

/// Every handle a lookup table binds is within its store.
pub open spec fn table_bound<T>(m: Map<Seq<char>, Handle<T>>, n: int) -> bool {
    forall|k: Seq<char>| #[trigger] m.contains_key(k) ==> m[k].idx() < n
}

/// Local variables reference existing types and expressions.
pub open spec fn locals_wf(s: Seq<LocalVariable>, nt: int, ne: int) -> bool {
    forall|i: int|
        0 <= i < s.len() ==> (#[trigger] s[i]).ty.idx() < nt && match s[i].init {
            Some(h) => h.idx() < ne,
            None => true,
        }
}

/// A type's image base, when it has one, is an earlier type.
pub open spec fn types_wf(s: Seq<Type>) -> bool {
    forall|i: int|
        0 <= i < s.len() ==> match (#[trigger] s[i]).inner {
            TypeInner::Image { base, dim, flags } => base.idx() < i,
            _ => true,
        }
}

/// Constants reference existing types.
pub open spec fn constants_wf(s: Seq<Constant>, nt: int) -> bool {
    forall|i: int| 0 <= i < s.len() ==> (#[trigger] s[i]).ty.idx() < nt
}

/// Global variables reference existing types.
pub open spec fn globals_wf(s: Seq<GlobalVariable>, nt: int) -> bool {
    forall|i: int| 0 <= i < s.len() ==> (#[trigger] s[i]).ty.idx() < nt
}

impl Context {
    pub open spec fn frames(self) -> Seq<Map<Seq<char>, Handle<LocalVariable>>> {
        frames_of(self.scopes@)
    }

    pub fn new() -> (c: Context)
        ensures
            c.expressions@ == Seq::<Expression>::empty(),
            c.local_variables@ == Seq::<LocalVariable>::empty(),
            c.frames() =~= seq![Map::<Seq<char>, Handle<LocalVariable>>::empty()],
    {
        let mut scopes: Vec<NameTable<Handle<LocalVariable>>> = Vec::new();
        scopes.push(NameTable::new());
        let c = Context { expressions: Arena::new(), local_variables: Arena::new(), scopes };
        proof {
            assert(c.frames() =~= seq![Map::<Seq<char>, Handle<LocalVariable>>::empty()]);
        }
        c
    }

    /// Opens a scope on entering a brace.
    pub fn push_scope(&mut self)
        ensures
            final(self).expressions == old(self).expressions,
            final(self).local_variables == old(self).local_variables,
            final(self).frames() =~= old(self).frames().push(
                Map::<Seq<char>, Handle<LocalVariable>>::empty(),
            ),
    {
        self.scopes.push(NameTable::new());
        proof {
            assert(self.frames() =~= old(self).frames().push(
                Map::<Seq<char>, Handle<LocalVariable>>::empty(),
            ));
        }
    }

    /// Closes the innermost scope on leaving a brace.
    pub fn remove_current_scope(&mut self)
        requires
            old(self).frames().len() >= 1,
        ensures
            final(self).expressions == old(self).expressions,
            final(self).local_variables == old(self).local_variables,
            final(self).frames() =~= old(self).frames().drop_last(),
    {
        let _ = self.scopes.pop();
        proof {
            assert(self.frames() =~= old(self).frames().drop_last());
        }
    }

    /// Empties the scope stack back to a single fresh frame.
    pub fn clear_scopes(&mut self)
        ensures
            final(self).expressions == old(self).expressions,
            final(self).local_variables == old(self).local_variables,
            final(self).frames() =~= seq![Map::<Seq<char>, Handle<LocalVariable>>::empty()],
    {
        self.scopes.clear();
        self.scopes.push(NameTable::new());
        proof {
            assert(self.frames() =~= seq![Map::<Seq<char>, Handle<LocalVariable>>::empty()]);
        }
    }

    /// Binds a name in the innermost scope.
    pub fn add_local_var(&mut self, name: String, h: Handle<LocalVariable>)
        requires
            old(self).frames().len() >= 1,
        ensures
            final(self).expressions == old(self).expressions,
            final(self).local_variables == old(self).local_variables,
            final(self).frames() =~= old(self).frames().update(
                old(self).frames().len() - 1,
                old(self).frames().last().insert(name@, h),
            ),
    {
        let mut top = self.scopes.pop().unwrap();
        top.insert(name, h);
        self.scopes.push(top);
        proof {
            assert(self.frames() =~= old(self).frames().update(
                old(self).frames().len() - 1,
                old(self).frames().last().insert(name@, h),
            ));
        }
    }

    /// Resolves a name innermost-to-outermost against the scope stack.
    pub fn lookup_local_var(&self, name: &String) -> (r: Option<Handle<LocalVariable>>)
        ensures
            r == resolve_frames(self.frames(), name@),
    {
        let ghost fr = self.frames();
        let mut i = self.scopes.len();
        proof {
            assert(fr.take(i as int) =~= fr);
        }
        while i > 0
            invariant
                fr == self.frames(),
                0 <= i <= self.scopes@.len(),
                fr.len() == self.scopes@.len(),
                resolve_frames(fr, name@) == resolve_frames(fr.take(i as int), name@),
            decreases i,
        {
            i = i - 1;
            let r = self.scopes[i].get(name);
            proof {
                assert(fr.take(i as int + 1).last() == fr[i as int]);
                assert(fr.take(i as int + 1).drop_last() =~= fr.take(i as int));
                assert(fr[i as int] == self.scopes@[i as int]@);
            }
            match r {
                Some(h) => {
                    return Some(h);
                },
                None => {},
            }
        }
        proof {
            assert(fr.take(0) =~= Seq::<Map<Seq<char>, Handle<LocalVariable>>>::empty());
        }
        None
    }

    /// Resolves a name against the innermost scope only.
    pub fn lookup_local_var_current_scope(&self, name: &String) -> (r: Option<
        Handle<LocalVariable>,
    >)
        requires
            self.frames().len() >= 1,
        ensures
            match r {
                Some(h) => self.frames().last().contains_key(name@) && h
                    == self.frames().last()[name@],
                None => !self.frames().last().contains_key(name@),
            },
    {
        let n = self.scopes.len();
        let r = self.scopes[n - 1].get(name);
        proof {
            assert(self.frames().last() == self.scopes@[n - 1 as int]@);
        }
        r
    }
}

/// Bounds on the scope stack, the lookup tables and the stores survive
/// growth of what they point into.
pub proof fn lemma_frames_bound_mono(
    frames: Seq<Map<Seq<char>, Handle<LocalVariable>>>,
    nl0: int,
    nl1: int,
)
    requires
        frames_bound(frames, nl0),
        nl0 <= nl1,
    ensures
        frames_bound(frames, nl1),
{
    assert forall|i: int, k: Seq<char>|
        0 <= i < frames.len() && #[trigger] frames[i].contains_key(k) implies frames[i][k].idx()
        < nl1 by {
        assert(frames[i][k].idx() < nl0);
    }
}

pub proof fn lemma_locals_wf_mono(s: Seq<LocalVariable>, nt0: int, ne0: int, nt1: int, ne1: int)
    requires
        locals_wf(s, nt0, ne0),
        nt0 <= nt1,
        ne0 <= ne1,
    ensures
        locals_wf(s, nt1, ne1),
{
    assert forall|i: int|
        0 <= i < s.len() implies (#[trigger] s[i]).ty.idx() < nt1 && match s[i].init {
        Some(h) => h.idx() < ne1,
        None => true,
    } by {
        assert(s[i].ty.idx() < nt0 && match s[i].init {
            Some(h) => h.idx() < ne0,
            None => true,
        });
    }
}

pub proof fn lemma_table_bound_mono<T>(m: Map<Seq<char>, Handle<T>>, n0: int, n1: int)
    requires
        table_bound(m, n0),
        n0 <= n1,
    ensures
        table_bound(m, n1),
{
    assert forall|k: Seq<char>| #[trigger] m.contains_key(k) implies m[k].idx() < n1 by {
        assert(m[k].idx() < n0);
    }
}

pub proof fn lemma_constants_wf_mono(s: Seq<Constant>, nt0: int, nt1: int)
    requires
        constants_wf(s, nt0),
        nt0 <= nt1,
    ensures
        constants_wf(s, nt1),
{
    assert forall|i: int| 0 <= i < s.len() implies (#[trigger] s[i]).ty.idx() < nt1 by {
        assert(s[i].ty.idx() < nt0);
    }
}

pub proof fn lemma_globals_wf_mono(s: Seq<GlobalVariable>, nt0: int, nt1: int)
    requires
        globals_wf(s, nt0),
        nt0 <= nt1,
    ensures
        globals_wf(s, nt1),
{
    assert forall|i: int| 0 <= i < s.len() implies (#[trigger] s[i]).ty.idx() < nt1 by {
        assert(s[i].ty.idx() < nt0);
    }
}

/// A handle that resolution answers is within the local store the stack is
/// bound by.
pub proof fn lemma_resolve_bound(
    frames: Seq<Map<Seq<char>, Handle<LocalVariable>>>,
    name: Seq<char>,
    nl: int,
)
    requires
        frames_bound(frames, nl),
        resolve_frames(frames, name) is Some,
    ensures
        resolve_frames(frames, name)->0.idx() < nl,
    decreases frames.len(),
{
    if frames.len() == 0 {
    } else if frames.last().contains_key(name) {
        assert(frames[frames.len() - 1].contains_key(name));
    } else {
        assert forall|i: int, k: Seq<char>|
            0 <= i < frames.drop_last().len() && #[trigger] frames.drop_last()[i].contains_key(
                k,
            ) implies frames.drop_last()[i][k].idx() < nl by {
            assert(frames.drop_last()[i] == frames[i]);
        }
        lemma_resolve_bound(frames.drop_last(), name, nl);
    }
}

/// Scope shadowing: a local bound in a freshly entered block resolves ahead
/// of any same-named binding further out, whatever the outer frames hold;
/// global names are consulted only when the whole stack answers nothing.
/// Leaving the block restores the outer resolution exactly.
pub proof fn lemma_scope_shadowing(
    frames: Seq<Map<Seq<char>, Handle<LocalVariable>>>,
    name: Seq<char>,
    h: Handle<LocalVariable>,
)
    ensures
        resolve_frames(
            frames.push(Map::<Seq<char>, Handle<LocalVariable>>::empty().insert(name, h)),
            name,
        ) == Some(h),
        frames.push(Map::<Seq<char>, Handle<LocalVariable>>::empty().insert(name, h)).drop_last()
            == frames,
        resolve_frames(
            frames.push(
                Map::<Seq<char>, Handle<LocalVariable>>::empty().insert(name, h),
            ).drop_last(),
            name,
        ) == resolve_frames(frames, name),
{
    let f = Map::<Seq<char>, Handle<LocalVariable>>::empty().insert(name, h);
    assert(frames.push(f).last() == f);
    assert(f.contains_key(name) && f[name] == h);
    assert(frames.push(f).drop_last() =~= frames);
}

/// The top-level accumulator: stores, lookup tables, the declared header
/// values, and the active per-function context.
pub struct Program {
    pub version: u16,
    pub profile: Profile,
    pub shader_stage: ShaderStage,
    /// Whether same-scope redeclarations are refused.
    pub validate: bool,
    pub types: Arena<Type>,
    pub constants: Arena<Constant>,
    pub global_variables: Arena<GlobalVariable>,
    pub functions: Arena<Function>,
    pub lookup_global_variables: NameTable<Handle<GlobalVariable>>,
    pub lookup_type: NameTable<Handle<Type>>,
    pub lookup_function: NameTable<Handle<Function>>,
    pub context: Context,
}

impl Program {
    /// Everything in the program is internally consistent: handles stay
    /// within the stores they point into, expression children point
    /// backwards, and the interning stores hold no duplicates.
    pub open spec fn wf(self) -> bool {
        &&& self.context.frames().len() >= 1
        &&& frames_bound(self.context.frames(), self.context.local_variables@.len() as int)
        &&& locals_wf(
            self.context.local_variables@,
            self.types@.len() as int,
            self.context.expressions@.len() as int,
        )
        &&& exprs_wf(
            self.context.expressions@,
            self.types@.len() as int,
            self.constants@.len() as int,
            self.global_variables@.len() as int,
            self.context.local_variables@.len() as int,
        )
        &&& types_wf(self.types@)
        &&& crate::arena::interned(self.types@)
        &&& constants_wf(self.constants@, self.types@.len() as int)
        &&& crate::arena::interned(self.constants@)
        &&& globals_wf(self.global_variables@, self.types@.len() as int)
        &&& crate::arena::interned(self.global_variables@)
        &&& table_bound(self.lookup_global_variables@, self.global_variables@.len() as int)
        &&& table_bound(self.lookup_type@, self.types@.len() as int)
        &&& table_bound(self.lookup_function@, self.functions@.len() as int)
    }

    pub fn new(shader_stage: ShaderStage, validate: bool) -> (p: Program)
        ensures
            p.wf(),
            p.shader_stage == shader_stage,
            p.validate == validate,
            p.version == 0,
            p.profile == Profile::Core,
            p.types@ == Seq::<Type>::empty(),
            p.constants@ == Seq::<Constant>::empty(),
            p.global_variables@ == Seq::<GlobalVariable>::empty(),
            p.functions@ == Seq::<Function>::empty(),
            p.lookup_global_variables@ == Map::<Seq<char>, Handle<GlobalVariable>>::empty(),
            p.lookup_type@ == Map::<Seq<char>, Handle<Type>>::empty(),
            p.lookup_function@ == Map::<Seq<char>, Handle<Function>>::empty(),
            p.context.expressions@ == Seq::<Expression>::empty(),
            p.context.local_variables@ == Seq::<LocalVariable>::empty(),
            p.context.frames() =~= seq![Map::<Seq<char>, Handle<LocalVariable>>::empty()],
    {
        Program {
            version: 0,
            profile: Profile::Core,
            shader_stage,
            validate,
            types: Arena::new(),
            constants: Arena::new(),
            global_variables: Arena::new(),
            functions: Arena::new(),
            lookup_global_variables: NameTable::new(),
            lookup_type: NameTable::new(),
            lookup_function: NameTable::new(),
            context: Context::new(),
        }
    }
}

} // verus!
