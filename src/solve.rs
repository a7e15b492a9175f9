//! Evaluating goals: the dispatcher, the bounded fixpoint over nested goals, and
//! structural normalization.

use vstd::prelude::*;
use crate::certainty::{Certainty, MaybeCause};
use crate::infer::{eq_bindings, eq_outcome, eq_result, resolve_in, EqOutcome, InferCtxt, NoSolution};
use crate::interner::Interner;
use crate::response::{bound_arg_exec, copy_vec, CanonicalResponse, ExternalConstraints, OutlivesConstraint, Response, ResponseModel};
use crate::term::{bound_arg, CanonicalVarKind, Const, GenericArg, ParamEnv, Predicate, Region, Ty};

verus! {

/// How many rounds over the nested goals a fixpoint may take before it gives up with overflow.
pub const FIXPOINT_STEP_LIMIT: usize = 8;

/// How deeply nested goals may be evaluated inside one another before giving up with overflow.
pub const RECURSION_LIMIT: usize = 32;

/// The constant has a shape that canonicalization leaves in a goal.
pub open spec fn const_ok(c: Const) -> bool {
    !(c is Param) && !(c is Bound) && !(c is Expr)
}

/// The predicate only names declarations that exist, and its constants are canonical.
pub open spec fn pred_ok(interner: &Interner, env: &ParamEnv, p: Predicate) -> bool {
    match p {
        Predicate::ObjectSafe(t) => t < interner.traits@.len(),
        Predicate::ConstEvaluatable(c) => const_ok(c),
        Predicate::ConstArgHasType(c, _) => {
            &&& const_ok(c)
            &&& (c matches Const::Unevaluated(d) ==> d < interner.consts@.len())
            &&& (c matches Const::Placeholder(i) ==> i < env.placeholder_const_tys@.len())
        },
        _ => true,
    }
}

/// Every where-clause of every nominal type is a goal that can be evaluated under `env`.
pub open spec fn interner_ok(interner: &Interner, env: &ParamEnv) -> bool {
    forall|a: int, k: int|
        0 <= a < interner.adts@.len() && 0 <= k < interner.adts@[a].where_clauses@.len()
            ==> pred_ok(interner, env, #[trigger] interner.adts@[a].where_clauses@[k])
}

/// The goals that make `arg` well-formed, or `None` where its shape is not known yet.
pub open spec fn wf_goals(interner: &Interner, ty_vars: Seq<Option<Ty>>, arg: GenericArg) -> Option<Seq<Predicate>> {
    match arg {
        GenericArg::Type(t) => match resolve_in(ty_vars, t) {
            Ty::Infer(_) => None,
            Ty::Adt(a) => if a < interner.adts@.len() {
                Some(interner.adts@[a as int].where_clauses@)
            } else {
                None
            },
            _ => Some(Seq::empty()),
        },
        GenericArg::Lifetime(_) => Some(Seq::empty()),
        GenericArg::Const(Const::Infer(_)) => None,
        GenericArg::Const(_) => Some(Seq::empty()),
    }
}

/// The certainty of `ConstEvaluatable(c)`: proved once a value, placeholder or error is
/// reached or evaluation succeeds; undecided for inference variables or failed evaluation.
pub open spec fn const_evaluatable_certainty(interner: &Interner, c: Const) -> Certainty {
    match c {
        Const::Unevaluated(d) => if interner.const_value(d) is Some {
            Certainty::Yes
        } else {
            Certainty::ambiguous_spec()
        },
        Const::Infer(_) => Certainty::ambiguous_spec(),
        _ => Certainty::Yes,
    }
}

/// The type a constant has by itself, where it has one to compare.
pub open spec fn const_arg_ty(interner: &Interner, env: &ParamEnv, c: Const) -> Option<Ty> {
    match c {
        Const::Unevaluated(d) => Some(interner.consts@[d as int].ty),
        Const::Value(t, _) => Some(t),
        Const::Placeholder(i) => Some(env.placeholder_const_tys@[i as int]),
        _ => None,
    }
}

/// `post` is `pre` after equating `a` and `b`, unless that staged an alias goal.
pub open spec fn relate_eq(pre: &EvalCtxt, post: &EvalCtxt, a: Ty, b: Ty, r: Result<Certainty, NoSolution>) -> bool {
    let o = eq_outcome(pre.infcx.ty_vars@, a, b);
    !(o is Defer) ==> {
        &&& r == eq_result(o)
        &&& post.infcx.ty_vars@ == eq_bindings(pre.infcx.ty_vars@, o)
        &&& post.region_constraints@ == pre.region_constraints@
    }
}

/// `post` is `pre` after a subtyping goal: undecided while both sides are unbound variables.
pub open spec fn relate_sub(pre: &EvalCtxt, post: &EvalCtxt, a: Ty, b: Ty, r: Result<Certainty, NoSolution>) -> bool {
    if resolve_in(pre.infcx.ty_vars@, a) is Infer && resolve_in(pre.infcx.ty_vars@, b) is Infer {
        r == Ok::<Certainty, NoSolution>(Certainty::ambiguous_spec()) && post.unchanged_from(pre)
    } else {
        relate_eq(pre, post, a, b, r)
    }
}

/// What evaluating `goal` from `pre` to `post` with result `r` is bound to.
pub open spec fn goal_outcome(pre: &EvalCtxt, post: &EvalCtxt, env: &ParamEnv, goal: Predicate, r: Result<Certainty, NoSolution>) -> bool {
    match goal {
        Predicate::TypeOutlives(t, region) => {
            &&& r == Ok::<Certainty, NoSolution>(Certainty::Yes)
            &&& post.infcx.ty_vars@ == pre.infcx.ty_vars@
            &&& post.region_constraints@ == pre.region_constraints@.push(
                OutlivesConstraint { sub: GenericArg::Type(t), sup: region },
            )
        },
        Predicate::RegionOutlives(a, b) => {
            &&& r == Ok::<Certainty, NoSolution>(Certainty::Yes)
            &&& post.infcx.ty_vars@ == pre.infcx.ty_vars@
            &&& post.region_constraints@ == pre.region_constraints@.push(
                OutlivesConstraint { sub: GenericArg::Lifetime(a), sup: b },
            )
        },
        Predicate::Coerce(a, b) => relate_sub(pre, post, a, b, r),
        Predicate::Subtype { a_is_expected: _, a, b } => relate_sub(pre, post, a, b, r),
        Predicate::ObjectSafe(t) => {
            &&& post.unchanged_from(pre)
            &&& r == if pre.interner.object_safe(t as int) {
                Ok::<Certainty, NoSolution>(Certainty::Yes)
            } else {
                Err::<Certainty, NoSolution>(NoSolution)
            }
        },
        Predicate::WellFormed(arg) => match wf_goals(&pre.interner, pre.infcx.ty_vars@, arg) {
            None => r == Ok::<Certainty, NoSolution>(Certainty::ambiguous_spec()) && post.unchanged_from(pre),
            Some(goals) => goals.len() == 0 ==> r == Ok::<Certainty, NoSolution>(Certainty::Yes)
                && post.unchanged_from(pre),
        },
        Predicate::ConstEvaluatable(c) => {
            &&& post.unchanged_from(pre)
            &&& r == Ok::<Certainty, NoSolution>(const_evaluatable_certainty(&pre.interner, c))
        },
        Predicate::ConstArgHasType(c, t) => match const_arg_ty(&pre.interner, env, c) {
            Some(ct) => relate_eq(pre, post, ct, t, r),
            None => post.unchanged_from(pre) && r == Ok::<Certainty, NoSolution>(
                if c is Infer { Certainty::ambiguous_spec() } else { Certainty::Yes },
            ),
        },
        Predicate::AliasRelate(lhs, rhs) => match resolve_in(pre.infcx.ty_vars@, lhs) {
            Ty::Alias(a) => match pre.interner.alias_target(a) {
                Some(target) => relate_eq(pre, post, target, rhs, r),
                None => r == Ok::<Certainty, NoSolution>(Certainty::ambiguous_spec()) && post.unchanged_from(pre),
            },
            _ => relate_eq(pre, post, lhs, rhs, r),
        },
    }
}

/// The value recorded for canonical variable `i`: its binding, or the variable itself.
pub open spec fn var_value(variables: Seq<CanonicalVarKind>, ty_vars: Seq<Option<Ty>>, i: int) -> GenericArg {
    if variables[i] == CanonicalVarKind::Ty && i < ty_vars.len() && ty_vars[i] is Some {
        GenericArg::Type(ty_vars[i]->Some_0)
    } else {
        bound_arg(variables[i], i)
    }
}

/// What evaluation reads and changes: bindings, region constraints and staged goals.
pub struct EvalState {
    pub ty_vars: Seq<Option<Ty>>,
    pub region_constraints: Seq<OutlivesConstraint>,
    pub nested_goals: Seq<Predicate>,
}

/// Equates `a` and `b` in `s` and drains what that staged; a deferred alias is decided by
/// the nested goal it stages.
pub open spec fn spec_relate(interner: &Interner, env: &ParamEnv, s: EvalState, a: Ty, b: Ty, depth: nat) -> (Result<Certainty, NoSolution>, EvalState)
    decreases depth, 5int, 0int,
{
    let o = eq_outcome(s.ty_vars, a, b);
    let s1 = EvalState {
        ty_vars: eq_bindings(s.ty_vars, o),
        nested_goals: match o {
            EqOutcome::Defer(alias, other) => s.nested_goals.push(Predicate::AliasRelate(alias, other)),
            _ => s.nested_goals,
        },
        ..s
    };
    match eq_result(o) {
        Ok(c) => spec_added(interner, env, s1, c, depth),
        Err(e) => (Err(e), s1),
    }
}

/// Evaluating `goal` in `s`: its result and the state after.
pub open spec fn spec_goal(interner: &Interner, env: &ParamEnv, s: EvalState, goal: Predicate, depth: nat) -> (Result<Certainty, NoSolution>, EvalState)
    decreases depth, 6int, 0int,
{
    match goal {
        Predicate::TypeOutlives(t, region) => spec_added(interner, env, EvalState {
            region_constraints: s.region_constraints.push(OutlivesConstraint { sub: GenericArg::Type(t), sup: region }),
            ..s
        }, Certainty::Yes, depth),
        Predicate::RegionOutlives(a, b) => spec_added(interner, env, EvalState {
            region_constraints: s.region_constraints.push(OutlivesConstraint { sub: GenericArg::Lifetime(a), sup: b }),
            ..s
        }, Certainty::Yes, depth),
        Predicate::Coerce(a, b) | Predicate::Subtype { a_is_expected: _, a, b } => {
            if resolve_in(s.ty_vars, a) is Infer && resolve_in(s.ty_vars, b) is Infer {
                spec_added(interner, env, s, Certainty::ambiguous_spec(), depth)
            } else {
                spec_relate(interner, env, s, a, b, depth)
            }
        },
        Predicate::ObjectSafe(t) => if interner.object_safe(t as int) {
            spec_added(interner, env, s, Certainty::Yes, depth)
        } else {
            (Err(NoSolution), s)
        },
        Predicate::WellFormed(arg) => match wf_goals(interner, s.ty_vars, arg) {
            Some(goals) => spec_added(interner, env, EvalState { nested_goals: goals, ..s }, Certainty::Yes, depth),
            None => spec_added(interner, env, s, Certainty::ambiguous_spec(), depth),
        },
        Predicate::ConstEvaluatable(c) => spec_added(interner, env, s, const_evaluatable_certainty(interner, c), depth),
        Predicate::ConstArgHasType(c, t) => match const_arg_ty(interner, env, c) {
            Some(ct) => spec_relate(interner, env, s, ct, t, depth),
            None => spec_added(interner, env, s, if c is Infer { Certainty::ambiguous_spec() } else { Certainty::Yes }, depth),
        },
        Predicate::AliasRelate(lhs, rhs) => match resolve_in(s.ty_vars, lhs) {
            Ty::Alias(a) => match interner.alias_target(a) {
                Some(target) => spec_relate(interner, env, s, target, rhs, depth),
                None => spec_added(interner, env, s, Certainty::ambiguous_spec(), depth),
            },
            _ => spec_relate(interner, env, s, lhs, rhs, depth),
        },
    }
}

/// Drains the staged goals of `s` by the fixpoint and joins what is left undecided onto `base`.
pub open spec fn spec_added(interner: &Interner, env: &ParamEnv, s: EvalState, base: Certainty, depth: nat) -> (Result<Certainty, NoSolution>, EvalState)
    decreases depth, 4int, 0int,
{
    let (r, s1) = spec_fixpoint(interner, env, s, depth, 0);
    (
        match r {
            Ok(c) => Ok(base.join(c)),
            Err(e) => Err(e),
        },
        s1,
    )
}

/// The fixpoint from `round` on: rounds run until one settles or a goal is refuted; after
/// the limit of rounds the result is overflow.
pub open spec fn spec_fixpoint(interner: &Interner, env: &ParamEnv, s: EvalState, depth: nat, round: nat) -> (Result<Certainty, NoSolution>, EvalState)
    decreases depth, 3int, FIXPOINT_STEP_LIMIT - round,
{
    if round >= FIXPOINT_STEP_LIMIT {
        (Ok(Certainty::Maybe(MaybeCause::Overflow)), s)
    } else {
        let (r, s1) = spec_step(interner, env, s, depth);
        match r {
            Err(e) => (Err(e), s1),
            Ok(Some(c)) => (Ok(c), s1),
            Ok(None) => spec_fixpoint(interner, env, s1, depth, round + 1),
        }
    }
}

/// One round over the staged goals of `s`.
pub open spec fn spec_step(interner: &Interner, env: &ParamEnv, s: EvalState, depth: nat) -> (Result<Option<Certainty>, NoSolution>, EvalState)
    decreases depth, 2int, 0int,
{
    spec_step_from(interner, env, s.nested_goals, 0, EvalState { nested_goals: Seq::empty(), ..s }, Some(Certainty::Yes), depth)
}

/// The round from goal `k` of `goals` on. Goals still undecided are staged again;
/// `unchanged` is the join of their certainties, `None` once a goal bound a variable.
pub open spec fn spec_step_from(
    interner: &Interner,
    env: &ParamEnv,
    goals: Seq<Predicate>,
    k: int,
    s: EvalState,
    unchanged: Option<Certainty>,
    depth: nat,
) -> (Result<Option<Certainty>, NoSolution>, EvalState)
    decreases depth, 1int, goals.len() - k,
{
    if k < 0 || k >= goals.len() {
        (Ok(unchanged), s)
    } else {
        let (r, s1) = spec_nested(interner, env, s, goals[k], depth);
        match r {
            Err(e) => (Err(e), s1),
            Ok((changed, c)) => {
                let u1 = if changed { None } else { unchanged };
                if c is Maybe {
                    let u2 = match u1 {
                        Some(u) => Some(u.join(c)),
                        None => None,
                    };
                    spec_step_from(interner, env, goals, k + 1, EvalState { nested_goals: s1.nested_goals.push(goals[k]), ..s1 }, u2, depth)
                } else {
                    spec_step_from(interner, env, goals, k + 1, s1, u1, depth)
                }
            },
        }
    }
}

/// One nested goal, evaluated on a worklist of its own: whether it bound a variable, and its
/// certainty. Out of depth it is undecided by overflow.
pub open spec fn spec_nested(interner: &Interner, env: &ParamEnv, s: EvalState, goal: Predicate, depth: nat) -> (Result<(bool, Certainty), NoSolution>, EvalState)
    decreases depth, 0int, 0int,
{
    if depth == 0 {
        (Ok((false, Certainty::Maybe(MaybeCause::Overflow))), s)
    } else {
        let (r, s1) = spec_goal(interner, env, EvalState { nested_goals: Seq::empty(), ..s }, goal, (depth - 1) as nat);
        let s2 = EvalState { nested_goals: s.nested_goals, ..s1 };
        match r {
            Err(e) => (Err(e), s2),
            Ok(c) => (Ok((s1.ty_vars != s.ty_vars, c)), s2),
        }
    }
}

/// A coercion is evaluated exactly as a subtyping whose first side is not the expected one.
pub proof fn lemma_coerce_is_subtype(interner: &Interner, env: &ParamEnv, s: EvalState, a: Ty, b: Ty, depth: nat)
    ensures
        spec_goal(interner, env, s, Predicate::Coerce(a, b), depth)
            == spec_goal(interner, env, s, Predicate::Subtype { a_is_expected: false, a, b }, depth),
{
}

/// With nothing staged, draining changes nothing and leaves `base` as it is.
pub proof fn lemma_added_nothing_staged(interner: &Interner, env: &ParamEnv, s: EvalState, base: Certainty, depth: nat)
    requires
        s.nested_goals.len() == 0,
    ensures
        spec_added(interner, env, s, base, depth) == (Ok::<Certainty, NoSolution>(base), s),
{
    assert(EvalState { nested_goals: Seq::empty(), ..s } == s) by {
        assert(s.nested_goals =~= Seq::<Predicate>::empty());
    }
    assert(spec_step(interner, env, s, depth) == (Ok::<Option<Certainty>, NoSolution>(Some(Certainty::Yes)), s));
    assert(spec_fixpoint(interner, env, s, depth, 0) == (Ok::<Certainty, NoSolution>(Certainty::Yes), s));
}

/// Normalizing `t` in `s`: an alias is related to a fresh variable by a staged goal, the
/// staged goals are drained, and the variable's binding is the result.
pub open spec fn spec_normalize(interner: &Interner, env: &ParamEnv, s: EvalState, t: Ty, depth: nat) -> (Result<Ty, NoSolution>, EvalState) {
    if t is Alias {
        let v = Ty::Infer(s.ty_vars.len() as u32);
        let s1 = EvalState {
            ty_vars: s.ty_vars.push(None),
            nested_goals: s.nested_goals.push(Predicate::AliasRelate(t, v)),
            ..s
        };
        let (r, s2) = spec_fixpoint(interner, env, s1, depth, 0);
        (
            match r {
                Ok(_) => Ok(resolve_in(s2.ty_vars, v)),
                Err(e) => Err(e),
            },
            s2,
        )
    } else {
        (Ok(t), s)
    }
}

/// What an alias normalizes to when nothing else is staged: its target as far as it is bound,
/// or a fresh variable where the target is unknown or resolves to a variable.
pub open spec fn normalized_alias(interner: &Interner, ty_vars: Seq<Option<Ty>>, a: u32) -> Ty {
    match interner.alias_target(a) {
        Some(target) => if resolve_in(ty_vars, target) is Infer {
            Ty::Infer(ty_vars.len() as u32)
        } else {
            resolve_in(ty_vars, target)
        },
        None => Ty::Infer(ty_vars.len() as u32),
    }
}

/// Normalizing an alias with nothing else staged adds exactly one variable, and yields the
/// alias's target as far as it is bound, or the fresh variable where the target is unknown
/// or resolves to a variable.
pub proof fn lemma_normalize_alias(interner: &Interner, env: &ParamEnv, s: EvalState, a: u32, depth: nat)
    requires
        s.nested_goals.len() == 0,
        depth > 0,
        s.ty_vars.len() + 1 < u32::MAX,
    ensures
        spec_normalize(interner, env, s, Ty::Alias(a), depth).1.ty_vars.len() == s.ty_vars.len() + 1,
        spec_normalize(interner, env, s, Ty::Alias(a), depth).0 == Ok::<Ty, NoSolution>(
            normalized_alias(interner, s.ty_vars, a),
        ),
{
    let n = s.ty_vars.len();
    let v = Ty::Infer(n as u32);
    let g = Predicate::AliasRelate(Ty::Alias(a), v);
    let s1 = EvalState { ty_vars: s.ty_vars.push(None), nested_goals: s.nested_goals.push(g), ..s };
    let e = EvalState { nested_goals: Seq::empty(), ..s1 };
    let d1 = (depth - 1) as nat;
    assert(resolve_in(s1.ty_vars, v) == v);
    assert(s1.nested_goals[0] == g);
    // The nested goal, evaluated on an empty worklist.
    let (gr, gs) = spec_goal(interner, env, e, g, d1);
    match interner.alias_target(a) {
        Some(target) => {
            let rt = resolve_in(s1.ty_vars, target);
            assert(rt is Infer <==> resolve_in(s.ty_vars, target) is Infer);
            assert(!(rt is Infer) ==> rt == resolve_in(s.ty_vars, target));
            let o = eq_outcome(e.ty_vars, target, v);
            let e1 = EvalState { ty_vars: eq_bindings(e.ty_vars, o), ..e };
            if rt is Infer {
                assert(o is Stall || o is Same);
            } else {
                assert(o == EqOutcome::Bind(n as u32, rt));
            }
            assert(EvalState { ty_vars: eq_bindings(e.ty_vars, o), nested_goals: e.nested_goals, ..e } == e1);
            lemma_added_nothing_staged(interner, env, e1, eq_result(o)->Ok_0, d1);
            assert(spec_relate(interner, env, e, target, v, d1) == (eq_result(o), e1));
            assert((gr, gs) == (eq_result(o), e1));
        },
        None => {
            lemma_added_nothing_staged(interner, env, e, Certainty::ambiguous_spec(), d1);
            assert((gr, gs) == (Ok::<Certainty, NoSolution>(Certainty::ambiguous_spec()), e));
        },
    }
    let (nr, ns) = spec_nested(interner, env, e, g, depth);
    assert(ns == EvalState { nested_goals: Seq::empty(), ..gs });
    let (sr, ss) = spec_step(interner, env, s1, depth);
    assert(ss.ty_vars == gs.ty_vars);
    assert(ss.ty_vars.len() == n + 1);
    if sr == Ok::<Option<Certainty>, NoSolution>(None) {
        assert(ss.nested_goals.len() == 0);
        lemma_added_nothing_staged(interner, env, ss, Certainty::Yes, depth);
        assert(spec_fixpoint(interner, env, ss, depth, 1) == spec_fixpoint(interner, env, ss, depth, 0));
    }
}

/// A fixpoint whose rounds from `round` on all bind a variable without settling stops at the
/// limit, undecided by overflow, in the state the last round left.
pub proof fn lemma_fixpoint_overflow(interner: &Interner, env: &ParamEnv, states: Seq<EvalState>, depth: nat, round: nat)
    requires
        states.len() == FIXPOINT_STEP_LIMIT + 1,
        round <= FIXPOINT_STEP_LIMIT,
        forall|k: int| round <= k < FIXPOINT_STEP_LIMIT ==> #[trigger] spec_step(interner, env, states[k], depth) == (
            Ok::<Option<Certainty>, NoSolution>(None),
            states[k + 1],
        ),
    ensures
        spec_fixpoint(interner, env, states[round as int], depth, round) == (
            Ok::<Certainty, NoSolution>(Certainty::Maybe(MaybeCause::Overflow)),
            states[FIXPOINT_STEP_LIMIT as int],
        ),
    decreases FIXPOINT_STEP_LIMIT - round,
{
    if round < FIXPOINT_STEP_LIMIT {
        lemma_fixpoint_overflow(interner, env, states, depth, round + 1);
        assert(spec_step(interner, env, states[round as int], depth) == (
            Ok::<Option<Certainty>, NoSolution>(None),
            states[round as int + 1],
        ));
    }
}

/// A fixpoint whose rounds bind variables without settling until round `k`, which settles or
/// refutes, ends with round `k`'s outcome, after at most the limit of rounds.
pub proof fn lemma_fixpoint_settles(interner: &Interner, env: &ParamEnv, states: Seq<EvalState>, depth: nat, round: nat, k: nat)
    requires
        round <= k < FIXPOINT_STEP_LIMIT,
        states.len() == k + 1,
        forall|j: int| round <= j < k ==> #[trigger] spec_step(interner, env, states[j], depth) == (
            Ok::<Option<Certainty>, NoSolution>(None),
            states[j + 1],
        ),
        spec_step(interner, env, states[k as int], depth).0 != Ok::<Option<Certainty>, NoSolution>(None),
    ensures
        spec_fixpoint(interner, env, states[round as int], depth, round).0 == match spec_step(interner, env, states[k as int], depth).0 {
            Ok(Some(c)) => Ok::<Certainty, NoSolution>(c),
            _ => Err::<Certainty, NoSolution>(NoSolution),
        },
    decreases k - round,
{
    if round < k {
        lemma_fixpoint_settles(interner, env, states, depth, round + 1, k);
        assert(spec_step(interner, env, states[round as int], depth) == (
            Ok::<Option<Certainty>, NoSolution>(None),
            states[round as int + 1],
        ));
    }
}

/// The state of one goal's evaluation.
pub struct EvalCtxt {
    pub interner: Interner,
    /// The highest universe the canonical input refers to.
    pub max_input_universe: u32,
    /// The canonical variables of the input; type variable `i` of `infcx` instantiates the `i`th.
    pub variables: Vec<CanonicalVarKind>,
    pub infcx: InferCtxt,
    /// Outlives relations registered while proving, left for the caller.
    pub region_constraints: Vec<OutlivesConstraint>,
    /// Goals staged but not evaluated yet.
    pub nested_goals: Vec<Predicate>,
}

impl EvalCtxt {
    pub open spec fn inv(&self, env: &ParamEnv) -> bool {
        &&& self.infcx.wf()
        &&& self.variables@.len() <= u32::MAX
        &&& interner_ok(&self.interner, env)
        &&& forall|k: int| 0 <= k < self.nested_goals@.len() ==> pred_ok(&self.interner, env, #[trigger] self.nested_goals@[k])
    }

    /// The evaluation is what it was, but for bindings, region constraints and staged goals.
    pub open spec fn same_frame(&self, other: &EvalCtxt) -> bool {
        &&& self.interner == other.interner
        &&& self.max_input_universe == other.max_input_universe
        &&& self.variables@ == other.variables@
    }

    /// Bindings, region constraints and staged goals are as in `other`.
    pub open spec fn unchanged_from(&self, other: &EvalCtxt) -> bool {
        &&& self.infcx.ty_vars@ == other.infcx.ty_vars@
        &&& self.region_constraints@ == other.region_constraints@
        &&& self.nested_goals@ == other.nested_goals@
    }

    /// The part of the evaluation that goals read and change.
    pub open spec fn state(&self) -> EvalState {
        EvalState {
            ty_vars: self.infcx.ty_vars@,
            region_constraints: self.region_constraints@,
            nested_goals: self.nested_goals@,
        }
    }

    /// The response this evaluation makes with the given certainty.
    pub open spec fn response_model(&self, certainty: Certainty) -> ResponseModel {
        ResponseModel {
            max_universe: self.max_input_universe,
            variables: self.variables@,
            var_values: Seq::new(self.variables@.len(), |i: int| var_value(self.variables@, self.infcx.ty_vars@, i)),
            region_constraints: self.region_constraints@,
            opaque_types: Seq::empty(),
            certainty,
            defining_opaque_types: Seq::empty(),
        }
    }

    /// A fresh evaluation of a canonical goal over `variables`, each instantiated by an
    /// unbound type variable.
    pub fn new(interner: Interner, max_input_universe: u32, variables: Vec<CanonicalVarKind>) -> (r: EvalCtxt)
        requires
            variables@.len() + 1 < u32::MAX,
        ensures
            r.interner == interner,
            r.max_input_universe == max_input_universe,
            r.variables@ == variables@,
            r.infcx.ty_vars@ == Seq::new(variables@.len(), |i: int| None::<Ty>),
            r.infcx.wf(),
            r.region_constraints@.len() == 0,
            r.nested_goals@.len() == 0,
    {
        let mut ty_vars: Vec<Option<Ty>> = Vec::new();
        let n = variables.len();
        let mut i: usize = 0;
        while i < n
            invariant
                n == variables@.len(),
                0 <= i <= n,
                ty_vars@ == Seq::new(i as nat, |j: int| None::<Ty>),
            decreases n - i,
        {
            ty_vars.push(None);
            i = i + 1;
            assert(ty_vars@ =~= Seq::new(i as nat, |j: int| None::<Ty>));
        }
        EvalCtxt {
            interner,
            max_input_universe,
            variables,
            infcx: InferCtxt { ty_vars },
            region_constraints: Vec::new(),
            nested_goals: Vec::new(),
        }
    }

    /// Snapshots the bindings and constraints of this evaluation into a response.
    pub fn make_canonical_response(&self, certainty: Certainty) -> (r: CanonicalResponse)
        requires
            self.variables@.len() <= u32::MAX,
        ensures
            r@ == self.response_model(certainty),
    {
        let n = self.variables.len();
        let mut var_values: Vec<GenericArg> = Vec::new();
        let mut i: usize = 0;
        while i < n
            invariant
                n == self.variables@.len(),
                n <= u32::MAX,
                0 <= i <= n,
                var_values@ == Seq::new(i as nat, |j: int| var_value(self.variables@, self.infcx.ty_vars@, j)),
            decreases n - i,
        {
            let kind = self.variables[i];
            let mut value = bound_arg_exec(kind, i as u32);
            if kind == CanonicalVarKind::Ty && i < self.infcx.ty_vars.len() {
                if let Some(t) = self.infcx.ty_vars[i] {
                    value = GenericArg::Type(t);
                }
            }
            var_values.push(value);
            i = i + 1;
            assert(var_values@ =~= Seq::new(i as nat, |j: int| var_value(self.variables@, self.infcx.ty_vars@, j)));
        }
        let r = CanonicalResponse {
            max_universe: self.max_input_universe,
            variables: copy_vec(&self.variables),
            value: Response {
                var_values,
                external_constraints: ExternalConstraints {
                    region_constraints: copy_vec(&self.region_constraints),
                    opaque_types: Vec::new(),
                },
                certainty,
            },
            defining_opaque_types: Vec::new(),
        };
        assert(r@ =~= self.response_model(certainty));
        r
    }
}

impl EvalCtxt {
    /// Evaluates one nested goal in place, on a worklist of its own; reports whether that bound
    /// an inference variable, and the goal's certainty.
    fn evaluate_nested_goal(&mut self, env: &ParamEnv, goal: Predicate, depth: usize) -> (r: Result<(bool, Certainty), NoSolution>)
        requires
            old(self).inv(env),
            pred_ok(&old(self).interner, env, goal),
        ensures
            final(self).inv(env),
            final(self).same_frame(old(self)),
            final(self).nested_goals@ == old(self).nested_goals@,
            (r, final(self).state()) == spec_nested(&old(self).interner, env, old(self).state(), goal, depth as nat),
        decreases depth, 0nat,
    {
        if depth == 0 {
            return Ok((false, Certainty::overflow()));
        }
        let before = copy_vec(&self.infcx.ty_vars);
        let mut outer: Vec<Predicate> = Vec::new();
        std::mem::swap(&mut outer, &mut self.nested_goals);
        assert(self.state() == EvalState { nested_goals: Seq::empty(), ..old(self).state() });
        let r = self.compute_goal(env, goal, depth - 1);
        std::mem::swap(&mut outer, &mut self.nested_goals);
        match r {
            Err(e) => Err(e),
            Ok(c) => {
                let changed = !self.infcx.same_bindings(&before);
                Ok((changed, c))
            },
        }
    }

    /// One round over the staged goals: those still undecided stay staged. Settles, with the
    /// join of their certainties, when the round bound no inference variable.
    fn evaluate_added_goals_step(&mut self, env: &ParamEnv, depth: usize) -> (r: Result<Option<Certainty>, NoSolution>)
        requires
            old(self).inv(env),
        ensures
            final(self).inv(env),
            final(self).same_frame(old(self)),
            (r, final(self).state()) == spec_step(&old(self).interner, env, old(self).state(), depth as nat),
            old(self).nested_goals@.len() == 0 ==> r == Ok::<Option<Certainty>, NoSolution>(Some(Certainty::Yes))
                && final(self).unchanged_from(old(self)),
        decreases depth, 1nat,
    {
        let mut goals: Vec<Predicate> = Vec::new();
        std::mem::swap(&mut goals, &mut self.nested_goals);
        assert(goals@.len() == 0 ==> self.nested_goals@ =~= goals@);
        let mut unchanged: Option<Certainty> = Some(Certainty::Yes);
        let n = goals.len();
        let mut i: usize = 0;
        while i < n
            invariant
                self.inv(env),
                self.same_frame(old(self)),
                n == goals@.len(),
                0 <= i <= n,
                goals@ == old(self).nested_goals@,
                forall|k: int| 0 <= k < goals@.len() ==> pred_ok(&old(self).interner, env, #[trigger] goals@[k]),
                n == 0 ==> self.unchanged_from(old(self)) && unchanged == Some(Certainty::Yes),
                spec_step(&old(self).interner, env, old(self).state(), depth as nat) == spec_step_from(
                    &old(self).interner,
                    env,
                    goals@,
                    i as int,
                    self.state(),
                    unchanged,
                    depth as nat,
                ),
            decreases n - i,
        {
            let goal = goals[i];
            match self.evaluate_nested_goal(env, goal, depth) {
                Err(e) => {
                    return Err(e);
                },
                Ok((changed, certainty)) => {
                    if changed {
                        unchanged = None;
                    }
                    if let Certainty::Maybe(_) = certainty {
                        self.nested_goals.push(goal);
                        unchanged = match unchanged {
                            Some(c) => Some(c.unify_with(certainty)),
                            None => None,
                        };
                    }
                },
            }
            i = i + 1;
        }
        Ok(unchanged)
    }

    /// Runs rounds over the staged goals until one settles, a goal is refuted, or the limit of
    /// rounds is reached, which leaves the goals undecided by overflow.
    pub fn try_evaluate_added_goals(&mut self, env: &ParamEnv, depth: usize) -> (r: Result<Certainty, NoSolution>)
        requires
            old(self).inv(env),
        ensures
            final(self).inv(env),
            final(self).same_frame(old(self)),
            (r, final(self).state()) == spec_fixpoint(&old(self).interner, env, old(self).state(), depth as nat, 0),
            old(self).nested_goals@.len() == 0 ==> r == Ok::<Certainty, NoSolution>(Certainty::Yes)
                && final(self).unchanged_from(old(self)),
        decreases depth, 2nat,
    {
        let mut step: usize = 0;
        while step < FIXPOINT_STEP_LIMIT
            invariant
                self.inv(env),
                self.same_frame(old(self)),
                step <= FIXPOINT_STEP_LIMIT,
                old(self).nested_goals@.len() == 0 ==> step == 0 && self.unchanged_from(old(self)),
                spec_fixpoint(&old(self).interner, env, old(self).state(), depth as nat, 0) == spec_fixpoint(
                    &old(self).interner,
                    env,
                    self.state(),
                    depth as nat,
                    step as nat,
                ),
            decreases FIXPOINT_STEP_LIMIT - step,
        {
            let res = self.evaluate_added_goals_step(env, depth);
            match res {
                Err(e) => {
                    return Err(e);
                },
                Ok(Some(c)) => {
                    return Ok(c);
                },
                Ok(None) => {},
            }
            step = step + 1;
        }
        Ok(Certainty::overflow())
    }

    /// Drains the staged goals and joins what they left undecided into `base`.
    pub fn evaluate_added_goals(&mut self, env: &ParamEnv, base: Certainty, depth: usize) -> (r: Result<Certainty, NoSolution>)
        requires
            old(self).inv(env),
        ensures
            final(self).inv(env),
            final(self).same_frame(old(self)),
            (r, final(self).state()) == spec_added(&old(self).interner, env, old(self).state(), base, depth as nat),
            old(self).nested_goals@.len() == 0 ==> r == Ok::<Certainty, NoSolution>(base)
                && final(self).unchanged_from(old(self)),
        decreases depth, 3nat,
    {
        match self.try_evaluate_added_goals(env, depth) {
            Ok(c) => Ok(base.unify_with(c)),
            Err(e) => Err(e),
        }
    }

    /// Equates two types and drains what that staged.
    fn relate(&mut self, env: &ParamEnv, a: Ty, b: Ty, depth: usize) -> (r: Result<Certainty, NoSolution>)
        requires
            old(self).inv(env),
            old(self).nested_goals@.len() == 0,
        ensures
            final(self).inv(env),
            final(self).same_frame(old(self)),
            relate_eq(old(self), final(self), a, b, r),
            (r, final(self).state()) == spec_relate(&old(self).interner, env, old(self).state(), a, b, depth as nat),
        decreases depth, 4nat,
    {
        let e = self.infcx.eq(&mut self.nested_goals, a, b);
        assert(forall|k: int| 0 <= k < self.nested_goals@.len() ==> (#[trigger] self.nested_goals@[k]) is AliasRelate);
        match e {
            Err(e) => Err(e),
            Ok(c) => self.evaluate_added_goals(env, c, depth),
        }
    }

    pub fn compute_type_outlives_goal(&mut self, env: &ParamEnv, t: Ty, region: Region, depth: usize) -> (r: Result<Certainty, NoSolution>)
        requires
            old(self).inv(env),
            old(self).nested_goals@.len() == 0,
        ensures
            final(self).inv(env),
            final(self).same_frame(old(self)),
            final(self).nested_goals@.len() == 0,
            goal_outcome(old(self), final(self), env, Predicate::TypeOutlives(t, region), r),
            (r, final(self).state()) == spec_goal(&old(self).interner, env, old(self).state(), Predicate::TypeOutlives(t, region), depth as nat),
        decreases depth, 5nat,
    {
        self.region_constraints.push(OutlivesConstraint { sub: GenericArg::Type(t), sup: region });
        self.evaluate_added_goals(env, Certainty::Yes, depth)
    }

    pub fn compute_region_outlives_goal(&mut self, env: &ParamEnv, a: Region, b: Region, depth: usize) -> (r: Result<Certainty, NoSolution>)
        requires
            old(self).inv(env),
            old(self).nested_goals@.len() == 0,
        ensures
            final(self).inv(env),
            final(self).same_frame(old(self)),
            final(self).nested_goals@.len() == 0,
            goal_outcome(old(self), final(self), env, Predicate::RegionOutlives(a, b), r),
            (r, final(self).state()) == spec_goal(&old(self).interner, env, old(self).state(), Predicate::RegionOutlives(a, b), depth as nat),
        decreases depth, 5nat,
    {
        self.region_constraints.push(OutlivesConstraint { sub: GenericArg::Lifetime(a), sup: b });
        self.evaluate_added_goals(env, Certainty::Yes, depth)
    }

    pub fn compute_subtype_goal(&mut self, env: &ParamEnv, a_is_expected: bool, a: Ty, b: Ty, depth: usize) -> (r: Result<Certainty, NoSolution>)
        requires
            old(self).inv(env),
            old(self).nested_goals@.len() == 0,
        ensures
            final(self).inv(env),
            final(self).same_frame(old(self)),
            goal_outcome(old(self), final(self), env, Predicate::Subtype { a_is_expected, a, b }, r),
            (r, final(self).state()) == spec_goal(&old(self).interner, env, old(self).state(), Predicate::Subtype { a_is_expected, a, b }, depth as nat),
        decreases depth, 5nat,
    {
        let ra = self.infcx.resolve(a);
        let rb = self.infcx.resolve(b);
        if let (Ty::Infer(_), Ty::Infer(_)) = (ra, rb) {
            self.evaluate_added_goals(env, Certainty::ambiguous(), depth)
        } else {
            self.relate(env, a, b, depth)
        }
    }

    /// A coercion is proved as a subtyping with the target not the expected side.
    pub fn compute_coerce_goal(&mut self, env: &ParamEnv, a: Ty, b: Ty, depth: usize) -> (r: Result<Certainty, NoSolution>)
        requires
            old(self).inv(env),
            old(self).nested_goals@.len() == 0,
        ensures
            final(self).inv(env),
            final(self).same_frame(old(self)),
            goal_outcome(old(self), final(self), env, Predicate::Coerce(a, b), r),
            (r, final(self).state()) == spec_goal(&old(self).interner, env, old(self).state(), Predicate::Coerce(a, b), depth as nat),
        decreases depth, 6nat,
    {
        self.compute_subtype_goal(env, false, a, b, depth)
    }

    pub fn compute_object_safe_goal(&mut self, env: &ParamEnv, trait_def: u32, depth: usize) -> (r: Result<Certainty, NoSolution>)
        requires
            old(self).inv(env),
            old(self).nested_goals@.len() == 0,
            trait_def < old(self).interner.traits@.len(),
        ensures
            final(self).inv(env),
            final(self).same_frame(old(self)),
            goal_outcome(old(self), final(self), env, Predicate::ObjectSafe(trait_def), r),
            (r, final(self).state()) == spec_goal(&old(self).interner, env, old(self).state(), Predicate::ObjectSafe(trait_def), depth as nat),
        decreases depth, 5nat,
    {
        if self.interner.is_object_safe(trait_def) {
            self.evaluate_added_goals(env, Certainty::Yes, depth)
        } else {
            Err(NoSolution)
        }
    }

    /// The goals that make `arg` well-formed, or `None` where its shape is not known yet.
    pub fn well_formed_goals(&self, arg: GenericArg) -> (r: Option<Vec<Predicate>>)
        ensures
            r is None <==> wf_goals(&self.interner, self.infcx.ty_vars@, arg) is None,
            r matches Some(goals) ==> goals@ == wf_goals(&self.interner, self.infcx.ty_vars@, arg)->Some_0,
    {
        match arg {
            GenericArg::Type(t) => match self.infcx.resolve(t) {
                Ty::Infer(_) => None,
                Ty::Adt(a) => if (a as usize) < self.interner.adts.len() {
                    Some(copy_vec(&self.interner.adts[a as usize].where_clauses))
                } else {
                    None
                },
                _ => Some(Vec::new()),
            },
            GenericArg::Lifetime(_) => Some(Vec::new()),
            GenericArg::Const(Const::Infer(_)) => None,
            GenericArg::Const(_) => Some(Vec::new()),
        }
    }

    pub fn compute_well_formed_goal(&mut self, env: &ParamEnv, arg: GenericArg, depth: usize) -> (r: Result<Certainty, NoSolution>)
        requires
            old(self).inv(env),
            old(self).nested_goals@.len() == 0,
        ensures
            final(self).inv(env),
            final(self).same_frame(old(self)),
            goal_outcome(old(self), final(self), env, Predicate::WellFormed(arg), r),
            (r, final(self).state()) == spec_goal(&old(self).interner, env, old(self).state(), Predicate::WellFormed(arg), depth as nat),
        decreases depth, 5nat,
    {
        match self.well_formed_goals(arg) {
            Some(goals) => {
                if goals.len() == 0 {
                    assert(self.nested_goals@ =~= goals@);
                }
                self.nested_goals = goals;
                self.evaluate_added_goals(env, Certainty::Yes, depth)
            },
            None => self.evaluate_added_goals(env, Certainty::ambiguous(), depth),
        }
    }

    pub fn compute_const_evaluatable_goal(&mut self, env: &ParamEnv, c: Const, depth: usize) -> (r: Result<Certainty, NoSolution>)
        requires
            old(self).inv(env),
            old(self).nested_goals@.len() == 0,
            const_ok(c),
        ensures
            final(self).inv(env),
            final(self).same_frame(old(self)),
            goal_outcome(old(self), final(self), env, Predicate::ConstEvaluatable(c), r),
            (r, final(self).state()) == spec_goal(&old(self).interner, env, old(self).state(), Predicate::ConstEvaluatable(c), depth as nat),
        decreases depth, 5nat,
    {
        match c {
            Const::Unevaluated(d) => {
                if self.interner.try_const_eval(d).is_some() {
                    self.evaluate_added_goals(env, Certainty::Yes, depth)
                } else {
                    self.evaluate_added_goals(env, Certainty::ambiguous(), depth)
                }
            },
            Const::Infer(_) => self.evaluate_added_goals(env, Certainty::ambiguous(), depth),
            _ => self.evaluate_added_goals(env, Certainty::Yes, depth),
        }
    }

    pub fn compute_const_arg_has_type_goal(&mut self, env: &ParamEnv, c: Const, t: Ty, depth: usize) -> (r: Result<Certainty, NoSolution>)
        requires
            old(self).inv(env),
            old(self).nested_goals@.len() == 0,
            pred_ok(&old(self).interner, env, Predicate::ConstArgHasType(c, t)),
        ensures
            final(self).inv(env),
            final(self).same_frame(old(self)),
            goal_outcome(old(self), final(self), env, Predicate::ConstArgHasType(c, t), r),
            (r, final(self).state()) == spec_goal(&old(self).interner, env, old(self).state(), Predicate::ConstArgHasType(c, t), depth as nat),
        decreases depth, 5nat,
    {
        let ct = match c {
            Const::Infer(_) => {
                return self.evaluate_added_goals(env, Certainty::ambiguous(), depth);
            },
            Const::Unevaluated(d) => self.interner.type_of_const(d),
            Const::Value(vt, _) => vt,
            Const::Placeholder(i) => env.placeholder_const_tys[i as usize],
            _ => {
                return self.evaluate_added_goals(env, Certainty::Yes, depth);
            },
        };
        self.relate(env, ct, t, depth)
    }

    pub fn compute_alias_relate_goal(&mut self, env: &ParamEnv, lhs: Ty, rhs: Ty, depth: usize) -> (r: Result<Certainty, NoSolution>)
        requires
            old(self).inv(env),
            old(self).nested_goals@.len() == 0,
        ensures
            final(self).inv(env),
            final(self).same_frame(old(self)),
            goal_outcome(old(self), final(self), env, Predicate::AliasRelate(lhs, rhs), r),
            (r, final(self).state()) == spec_goal(&old(self).interner, env, old(self).state(), Predicate::AliasRelate(lhs, rhs), depth as nat),
        decreases depth, 5nat,
    {
        match self.infcx.resolve(lhs) {
            Ty::Alias(a) => match self.interner.normalizes_to(a) {
                Some(target) => self.relate(env, target, rhs, depth),
                None => self.evaluate_added_goals(env, Certainty::ambiguous(), depth),
            },
            _ => self.relate(env, lhs, rhs, depth),
        }
    }

    /// Routes a goal to the handler of its kind.
    pub fn compute_goal(&mut self, env: &ParamEnv, goal: Predicate, depth: usize) -> (r: Result<Certainty, NoSolution>)
        requires
            old(self).inv(env),
            old(self).nested_goals@.len() == 0,
            pred_ok(&old(self).interner, env, goal),
        ensures
            final(self).inv(env),
            final(self).same_frame(old(self)),
            goal_outcome(old(self), final(self), env, goal, r),
            (r, final(self).state()) == spec_goal(&old(self).interner, env, old(self).state(), goal, depth as nat),
        decreases depth, 7nat,
    {
        match goal {
            Predicate::TypeOutlives(t, region) => self.compute_type_outlives_goal(env, t, region, depth),
            Predicate::RegionOutlives(a, b) => self.compute_region_outlives_goal(env, a, b, depth),
            Predicate::Coerce(a, b) => self.compute_coerce_goal(env, a, b, depth),
            Predicate::Subtype { a_is_expected, a, b } => self.compute_subtype_goal(env, a_is_expected, a, b, depth),
            Predicate::ObjectSafe(t) => self.compute_object_safe_goal(env, t, depth),
            Predicate::WellFormed(arg) => self.compute_well_formed_goal(env, arg, depth),
            Predicate::ConstEvaluatable(c) => self.compute_const_evaluatable_goal(env, c, depth),
            Predicate::ConstArgHasType(c, t) => self.compute_const_arg_has_type_goal(env, c, t, depth),
            Predicate::AliasRelate(lhs, rhs) => self.compute_alias_relate_goal(env, lhs, rhs, depth),
        }
    }
}

impl EvalCtxt {
    /// Evaluates a goal and snapshots the outcome into a canonical response; refuted goals
    /// give `NoSolution`.
    pub fn evaluate_goal(&mut self, env: &ParamEnv, goal: Predicate) -> (r: Result<CanonicalResponse, NoSolution>)
        requires
            old(self).inv(env),
            old(self).nested_goals@.len() == 0,
            pred_ok(&old(self).interner, env, goal),
        ensures
            final(self).inv(env),
            final(self).same_frame(old(self)),
            final(self).state() == spec_goal(&old(self).interner, env, old(self).state(), goal, RECURSION_LIMIT as nat).1,
            match r {
                Ok(resp) => {
                    &&& resp@ == final(self).response_model(resp@.certainty)
                    &&& spec_goal(&old(self).interner, env, old(self).state(), goal, RECURSION_LIMIT as nat).0 == Ok::<Certainty, NoSolution>(resp@.certainty)
                    &&& goal_outcome(old(self), final(self), env, goal, Ok(resp@.certainty))
                },
                Err(e) => {
                    &&& spec_goal(&old(self).interner, env, old(self).state(), goal, RECURSION_LIMIT as nat).0 == Err::<Certainty, NoSolution>(e)
                    &&& goal_outcome(old(self), final(self), env, goal, Err(e))
                },
            },
    {
        match self.compute_goal(env, goal, RECURSION_LIMIT) {
            Ok(c) => Ok(self.make_canonical_response(c)),
            Err(e) => Err(e),
        }
    }

    /// Normalizes a type before its shape is matched on: an alias is related to a fresh
    /// variable by a nested goal, the staged goals are drained, and the variable's binding is
    /// returned. Any other type comes back as it is, with nothing evaluated.
    pub fn structurally_normalize_ty(&mut self, env: &ParamEnv, t: Ty, depth: usize) -> (r: Result<Ty, NoSolution>)
        requires
            old(self).inv(env),
            old(self).infcx.ty_vars@.len() + 1 < u32::MAX,
        ensures
            final(self).inv(env),
            final(self).same_frame(old(self)),
            !(t is Alias) ==> r == Ok::<Ty, NoSolution>(t) && final(self).unchanged_from(old(self)),
            (r, final(self).state()) == spec_normalize(&old(self).interner, env, old(self).state(), t, depth as nat),
            t is Alias && old(self).nested_goals@.len() == 0 && depth > 0 ==> {
                &&& final(self).infcx.ty_vars@.len() == old(self).infcx.ty_vars@.len() + 1
                &&& r == Ok::<Ty, NoSolution>(normalized_alias(&old(self).interner, old(self).infcx.ty_vars@, t->Alias_0))
            },
        decreases depth, 3nat,
    {
        proof {
            if let Ty::Alias(a) = t {
                if self.nested_goals@.len() == 0 && depth > 0 {
                    lemma_normalize_alias(&self.interner, env, self.state(), a, depth as nat);
                }
            }
        }
        if let Ty::Alias(_) = t {
            let fresh = self.infcx.next_ty_infer();
            self.nested_goals.push(Predicate::AliasRelate(t, fresh));
            match self.try_evaluate_added_goals(env, depth) {
                Ok(_) => Ok(self.infcx.resolve(fresh)),
                Err(e) => Err(e),
            }
        } else {
            Ok(t)
        }
    }
}

} // verus!
