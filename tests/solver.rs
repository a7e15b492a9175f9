use goal_solver::certainty::{Certainty, MaybeCause};
use goal_solver::infer::NoSolution;
use goal_solver::interner::{AdtDecl, AliasDecl, ConstDecl, Interner, MethodDecl, TraitDecl};
use goal_solver::platform::{decode_error_kind, is_interrupted, unsupported, unsupported_err, ErrorKind};
use goal_solver::response::{
    response_no_constraints_raw, CanonicalResponse, ExternalConstraints, OutlivesConstraint, Response,
};
use goal_solver::solve::{EvalCtxt, RECURSION_LIMIT};
use goal_solver::term::{CanonicalVarKind, Const, GenericArg, InferConst, ParamEnv, Predicate, Region, Ty};

const AMBIGUOUS: Certainty = Certainty::Maybe(MaybeCause::Ambiguity);
const OVERFLOW: Certainty = Certainty::Maybe(MaybeCause::Overflow);

fn empty_interner() -> Interner {
    Interner { traits: Vec::new(), consts: Vec::new(), aliases: Vec::new(), adts: Vec::new() }
}

fn empty_env() -> ParamEnv {
    ParamEnv { placeholder_const_tys: Vec::new() }
}

fn ctx_with(interner: Interner, vars: usize) -> EvalCtxt {
    EvalCtxt::new(interner, 0, vec![CanonicalVarKind::Ty; vars])
}

fn response(var_values: Vec<GenericArg>, certainty: Certainty) -> CanonicalResponse {
    CanonicalResponse {
        max_universe: 0,
        variables: vec![CanonicalVarKind::Ty; var_values.len()],
        value: Response {
            var_values,
            external_constraints: ExternalConstraints { region_constraints: Vec::new(), opaque_types: Vec::new() },
            certainty,
        },
        defining_opaque_types: Vec::new(),
    }
}

fn all_certainties() -> Vec<Certainty> {
    vec![Certainty::Yes, AMBIGUOUS, OVERFLOW]
}

#[test]
fn join_is_commutative_and_associative() {
    for x in all_certainties() {
        for y in all_certainties() {
            assert_eq!(x.unify_with(y), y.unify_with(x));
            for z in all_certainties() {
                assert_eq!(x.unify_with(y.unify_with(z)), x.unify_with(y).unify_with(z));
            }
        }
    }
}

#[test]
fn join_with_yes() {
    assert_eq!(Certainty::Yes.unify_with(Certainty::Yes), Certainty::Yes);
    assert_eq!(Certainty::Yes.unify_with(OVERFLOW), OVERFLOW);
    assert_eq!(Certainty::Yes.unify_with(AMBIGUOUS), AMBIGUOUS);
    assert_eq!(OVERFLOW.unify_with(AMBIGUOUS), AMBIGUOUS);
    assert_eq!(OVERFLOW.unify_with(OVERFLOW), OVERFLOW);
}

#[test]
fn merge_of_one_response_is_that_response() {
    let ctx = ctx_with(empty_interner(), 1);
    let r = response(vec![GenericArg::Type(Ty::Int)], AMBIGUOUS);
    let merged = ctx.try_merge_responses(&[response(vec![GenericArg::Type(Ty::Int)], AMBIGUOUS)]).unwrap();
    assert!(merged.same_as(&r));
}

#[test]
fn merge_of_three_copies_is_that_response() {
    let ctx = ctx_with(empty_interner(), 1);
    let make = || response(vec![GenericArg::Type(Ty::Bool)], AMBIGUOUS);
    let merged = ctx.try_merge_responses(&[make(), make(), make()]).unwrap();
    assert!(merged.same_as(&make()));
    assert_eq!(merged.value.certainty, AMBIGUOUS);
}

#[test]
fn merge_prefers_trivially_true_candidate() {
    let ctx = ctx_with(empty_interner(), 1);
    let identity = response(vec![GenericArg::Type(Ty::Bound(0))], Certainty::Yes);
    let binds_int = response(vec![GenericArg::Type(Ty::Int)], Certainty::Yes);
    assert!(identity.has_no_inference_or_external_constraints());
    assert!(!binds_int.has_no_inference_or_external_constraints());
    let merged = ctx.try_merge_responses(&[binds_int, identity]).unwrap();
    assert!(merged.same_as(&response(vec![GenericArg::Type(Ty::Bound(0))], Certainty::Yes)));
}

#[test]
fn merge_prefers_trivially_true_over_ambiguous_ones() {
    let ctx = ctx_with(empty_interner(), 1);
    let candidates = [
        response(vec![GenericArg::Type(Ty::Int)], AMBIGUOUS),
        response(vec![GenericArg::Type(Ty::Bool)], OVERFLOW),
        response(vec![GenericArg::Type(Ty::Bound(0))], Certainty::Yes),
    ];
    let merged = ctx.try_merge_responses(&candidates).unwrap();
    assert!(merged.same_as(&candidates[2]));
}

#[test]
fn merge_fails_without_agreement_or_trivial_candidate() {
    let ctx = ctx_with(empty_interner(), 1);
    let candidates = [
        response(vec![GenericArg::Type(Ty::Int)], Certainty::Yes),
        response(vec![GenericArg::Type(Ty::Bool)], Certainty::Yes),
    ];
    assert!(ctx.try_merge_responses(&candidates).is_none());
    assert!(ctx.try_merge_responses(&[]).is_none());
}

#[test]
fn flounder_on_nothing_is_no_solution() {
    let ctx = ctx_with(empty_interner(), 1);
    assert_eq!(ctx.flounder(&[]).err(), Some(NoSolution));
}

#[test]
fn flounder_is_never_yes() {
    let ctx = ctx_with(empty_interner(), 2);
    let candidates = [
        response(vec![GenericArg::Type(Ty::Int), GenericArg::Type(Ty::Bool)], Certainty::Yes),
        response(vec![GenericArg::Type(Ty::Bool), GenericArg::Type(Ty::Int)], AMBIGUOUS),
    ];
    let r = ctx.flounder(&candidates).unwrap();
    assert_eq!(r.value.certainty, AMBIGUOUS);
    assert!(r.has_no_inference_or_external_constraints());
    assert_eq!(r.variables.len(), 2);
}

#[test]
fn flounder_joins_candidate_certainties() {
    let ctx = ctx_with(empty_interner(), 1);
    let one = |c: Certainty| response(vec![GenericArg::Type(Ty::Int)], c);
    assert_eq!(ctx.flounder(&[one(OVERFLOW)]).unwrap().value.certainty, OVERFLOW);
    assert_eq!(ctx.flounder(&[one(OVERFLOW), one(OVERFLOW)]).unwrap().value.certainty, OVERFLOW);
    assert_eq!(ctx.flounder(&[one(Certainty::Yes), one(OVERFLOW)]).unwrap().value.certainty, OVERFLOW);
    assert_eq!(ctx.flounder(&[one(OVERFLOW), one(AMBIGUOUS)]).unwrap().value.certainty, AMBIGUOUS);
}

#[test]
fn response_without_constraints_is_identity() {
    let vars = vec![CanonicalVarKind::Ty, CanonicalVarKind::Region, CanonicalVarKind::Const];
    let r = response_no_constraints_raw(3, &vars, OVERFLOW);
    assert_eq!(r.max_universe, 3);
    assert_eq!(
        r.value.var_values,
        vec![
            GenericArg::Type(Ty::Bound(0)),
            GenericArg::Lifetime(Region::Bound(1)),
            GenericArg::Const(Const::Bound(2)),
        ]
    );
    assert!(r.value.external_constraints.region_constraints.is_empty());
    assert_eq!(r.value.certainty, OVERFLOW);
}

#[test]
fn normalizing_a_rigid_type_changes_nothing() {
    let env = empty_env();
    let mut ctx = ctx_with(empty_interner(), 1);
    assert_eq!(ctx.structurally_normalize_ty(&env, Ty::Adt(4), RECURSION_LIMIT), Ok(Ty::Adt(4)));
    assert_eq!(ctx.infcx.ty_vars.len(), 1);
    assert!(ctx.nested_goals.is_empty());
    assert!(ctx.region_constraints.is_empty());
}

#[test]
fn normalizing_an_alias_reveals_its_target() {
    let env = empty_env();
    let mut interner = empty_interner();
    interner.aliases.push(AliasDecl { normalizes_to: Some(Ty::Int) });
    let mut ctx = ctx_with(interner, 0);
    assert_eq!(ctx.structurally_normalize_ty(&env, Ty::Alias(0), RECURSION_LIMIT), Ok(Ty::Int));
}

#[test]
fn normalizing_an_unknown_alias_stays_a_variable() {
    let env = empty_env();
    let mut interner = empty_interner();
    interner.aliases.push(AliasDecl { normalizes_to: None });
    let mut ctx = ctx_with(interner, 0);
    assert_eq!(ctx.structurally_normalize_ty(&env, Ty::Alias(0), RECURSION_LIMIT), Ok(Ty::Infer(0)));
}

#[test]
fn decreasing_nested_goals_terminate_with_yes() {
    let env = empty_env();
    let mut interner = empty_interner();
    interner.adts.push(AdtDecl { where_clauses: vec![Predicate::WellFormed(GenericArg::Type(Ty::Adt(1)))] });
    interner.adts.push(AdtDecl { where_clauses: vec![Predicate::WellFormed(GenericArg::Type(Ty::Int))] });
    let mut ctx = ctx_with(interner, 0);
    let r = ctx.evaluate_goal(&env, Predicate::WellFormed(GenericArg::Type(Ty::Adt(0)))).unwrap();
    assert_eq!(r.value.certainty, Certainty::Yes);
}

#[test]
fn self_regenerating_goal_ends_in_overflow() {
    let env = empty_env();
    let mut interner = empty_interner();
    interner.aliases.push(AliasDecl { normalizes_to: Some(Ty::Alias(0)) });
    let mut ctx = ctx_with(interner, 0);
    let r = ctx.evaluate_goal(&env, Predicate::AliasRelate(Ty::Alias(0), Ty::Int)).unwrap();
    assert_eq!(r.value.certainty, OVERFLOW);
}

#[test]
fn self_recursive_well_formedness_ends_in_overflow() {
    let env = empty_env();
    let mut interner = empty_interner();
    interner.adts.push(AdtDecl { where_clauses: vec![Predicate::WellFormed(GenericArg::Type(Ty::Adt(0)))] });
    let mut ctx = ctx_with(interner, 0);
    let r = ctx.evaluate_goal(&env, Predicate::WellFormed(GenericArg::Type(Ty::Adt(0)))).unwrap();
    assert_eq!(r.value.certainty, OVERFLOW);
}

#[test]
fn subtype_of_same_variable_is_ambiguous() {
    let env = empty_env();
    let mut ctx = ctx_with(empty_interner(), 1);
    let goal = Predicate::Subtype { a_is_expected: true, a: Ty::Infer(0), b: Ty::Infer(0) };
    let r = ctx.evaluate_goal(&env, goal).unwrap();
    assert_eq!(r.value.certainty, AMBIGUOUS);
    assert!(r.has_no_inference_or_external_constraints());
}

#[test]
fn subtype_binds_variable() {
    let env = empty_env();
    let mut ctx = ctx_with(empty_interner(), 2);
    let r = ctx.evaluate_goal(&env, Predicate::Coerce(Ty::Infer(1), Ty::Bool)).unwrap();
    assert_eq!(r.value.certainty, Certainty::Yes);
    assert_eq!(r.value.var_values, vec![GenericArg::Type(Ty::Bound(0)), GenericArg::Type(Ty::Bool)]);
}

#[test]
fn subtype_of_different_rigid_types_is_refuted() {
    let env = empty_env();
    let mut ctx = ctx_with(empty_interner(), 0);
    let goal = Predicate::Subtype { a_is_expected: false, a: Ty::Int, b: Ty::Bool };
    assert_eq!(ctx.evaluate_goal(&env, goal).err(), Some(NoSolution));
}

#[test]
fn trait_with_generic_method_is_not_object_safe() {
    let env = empty_env();
    let mut interner = empty_interner();
    interner.traits.push(TraitDecl { methods: vec![MethodDecl { own_type_params: 0 }] });
    interner.traits.push(TraitDecl {
        methods: vec![MethodDecl { own_type_params: 0 }, MethodDecl { own_type_params: 1 }],
    });
    let mut ctx = ctx_with(interner, 0);
    assert_eq!(ctx.evaluate_goal(&env, Predicate::ObjectSafe(1)).err(), Some(NoSolution));
    let r = ctx.evaluate_goal(&env, Predicate::ObjectSafe(0)).unwrap();
    assert_eq!(r.value.certainty, Certainty::Yes);
}

#[test]
fn type_outlives_static_records_constraint() {
    let env = empty_env();
    let mut ctx = ctx_with(empty_interner(), 0);
    let r = ctx.evaluate_goal(&env, Predicate::TypeOutlives(Ty::Param(0), Region::Static)).unwrap();
    assert_eq!(r.value.certainty, Certainty::Yes);
    assert_eq!(
        r.value.external_constraints.region_constraints,
        vec![OutlivesConstraint { sub: GenericArg::Type(Ty::Param(0)), sup: Region::Static }]
    );
}

#[test]
fn region_outlives_records_constraint() {
    let env = empty_env();
    let mut ctx = ctx_with(empty_interner(), 0);
    let r = ctx.evaluate_goal(&env, Predicate::RegionOutlives(Region::Param(1), Region::Param(2))).unwrap();
    assert_eq!(r.value.certainty, Certainty::Yes);
    assert_eq!(
        r.value.external_constraints.region_constraints,
        vec![OutlivesConstraint { sub: GenericArg::Lifetime(Region::Param(1)), sup: Region::Param(2) }]
    );
}

#[test]
fn evaluated_constant_is_evaluatable_without_subgoals() {
    let env = empty_env();
    let mut ctx = ctx_with(empty_interner(), 0);
    let r = ctx.evaluate_goal(&env, Predicate::ConstEvaluatable(Const::Value(Ty::Int, 3))).unwrap();
    assert_eq!(r.value.certainty, Certainty::Yes);
    assert!(ctx.nested_goals.is_empty());
    assert!(r.value.external_constraints.region_constraints.is_empty());
}

#[test]
fn unevaluated_and_inferred_constants() {
    let env = empty_env();
    let mut interner = empty_interner();
    interner.consts.push(ConstDecl { ty: Ty::Int, value: Some(7) });
    interner.consts.push(ConstDecl { ty: Ty::Int, value: None });
    let mut ctx = ctx_with(interner, 0);
    let c = |ctx: &mut EvalCtxt, k: Const| ctx.evaluate_goal(&env, Predicate::ConstEvaluatable(k)).unwrap().value.certainty;
    assert_eq!(c(&mut ctx, Const::Unevaluated(0)), Certainty::Yes);
    assert_eq!(c(&mut ctx, Const::Unevaluated(1)), AMBIGUOUS);
    assert_eq!(c(&mut ctx, Const::Infer(InferConst::Var(0))), AMBIGUOUS);
    assert_eq!(c(&mut ctx, Const::Placeholder(0)), Certainty::Yes);
    assert_eq!(c(&mut ctx, Const::Error), Certainty::Yes);
}

#[test]
fn const_arg_has_type() {
    let env = ParamEnv { placeholder_const_tys: vec![Ty::Bool] };
    let mut interner = empty_interner();
    interner.consts.push(ConstDecl { ty: Ty::Int, value: None });
    let mut ctx = ctx_with(interner, 1);
    let goal = |c: Const, t: Ty| Predicate::ConstArgHasType(c, t);
    assert_eq!(ctx.evaluate_goal(&env, goal(Const::Value(Ty::Int, 1), Ty::Int)).unwrap().value.certainty, Certainty::Yes);
    assert_eq!(ctx.evaluate_goal(&env, goal(Const::Value(Ty::Int, 1), Ty::Bool)).err(), Some(NoSolution));
    assert_eq!(ctx.evaluate_goal(&env, goal(Const::Unevaluated(0), Ty::Bool)).err(), Some(NoSolution));
    assert_eq!(ctx.evaluate_goal(&env, goal(Const::Placeholder(0), Ty::Bool)).unwrap().value.certainty, Certainty::Yes);
    let effect = goal(Const::Infer(InferConst::EffectVar(0)), Ty::Bool);
    assert_eq!(ctx.evaluate_goal(&env, effect).unwrap().value.certainty, AMBIGUOUS);
    let r = ctx.evaluate_goal(&env, goal(Const::Unevaluated(0), Ty::Infer(0))).unwrap();
    assert_eq!(r.value.var_values, vec![GenericArg::Type(Ty::Int)]);
}

#[test]
fn well_formed_of_unresolved_variable_is_ambiguous() {
    let env = empty_env();
    let mut ctx = ctx_with(empty_interner(), 1);
    let r = ctx.evaluate_goal(&env, Predicate::WellFormed(GenericArg::Type(Ty::Infer(0)))).unwrap();
    assert_eq!(r.value.certainty, AMBIGUOUS);
}

#[test]
fn well_formed_failing_where_clause_is_refuted() {
    let env = empty_env();
    let mut interner = empty_interner();
    interner.traits.push(TraitDecl { methods: vec![MethodDecl { own_type_params: 2 }] });
    interner.adts.push(AdtDecl { where_clauses: vec![Predicate::ObjectSafe(0)] });
    let mut ctx = ctx_with(interner, 0);
    let goal = Predicate::WellFormed(GenericArg::Type(Ty::Adt(0)));
    assert_eq!(ctx.evaluate_goal(&env, goal).err(), Some(NoSolution));
}

#[test]
fn equating_with_an_alias_goes_through_its_target() {
    let env = empty_env();
    let mut interner = empty_interner();
    interner.aliases.push(AliasDecl { normalizes_to: Some(Ty::Bool) });
    let mut ctx = ctx_with(interner, 0);
    let sub = |a: Ty, b: Ty| Predicate::Subtype { a_is_expected: true, a, b };
    assert_eq!(ctx.evaluate_goal(&env, sub(Ty::Alias(0), Ty::Bool)).unwrap().value.certainty, Certainty::Yes);
    assert_eq!(ctx.evaluate_goal(&env, sub(Ty::Int, Ty::Alias(0))).err(), Some(NoSolution));
}

#[test]
fn platform_stubs() {
    assert_eq!(unsupported_err().kind, ErrorKind::Unsupported);
    assert_eq!(unsupported_err().message, "operation not supported on this platform");
    assert_eq!(unsupported::<u8>().err().map(|e| e.kind), Some(ErrorKind::Unsupported));
    assert!(!is_interrupted(4));
    assert_eq!(decode_error_kind(2), ErrorKind::Uncategorized);
}
