//! Types, regions, constants and predicates, as goals name them.

use vstd::prelude::*;

verus! {

/// A region (lifetime).
#[derive(Debug, Clone, Copy, PartialEq, Eq, Structural)]
pub enum Region {
    Static,
    /// A region inference variable.
    Var(u32),
    /// The canonical variable with this index.
    Bound(u32),
    /// A named region parameter in scope.
    Param(u32),
}

/// A type. Composite types are named by the index of their declaration.
#[derive(Debug, Clone, Copy, PartialEq, Eq, Structural)]
pub enum Ty {
    /// A type inference variable of the current context.
    Infer(u32),
    /// The canonical variable with this index.
    Bound(u32),
    /// A type parameter in scope.
    Param(u32),
    /// An alias (projection or opaque type) whose shape is hidden until normalized.
    Alias(u32),
    /// A nominal type, by the index of its declaration.
    Adt(u32),
    Int,
    Bool,
}

/// A const inference variable.
#[derive(Debug, Clone, Copy, PartialEq, Eq, Structural)]
pub enum InferConst {
    Var(u32),
    EffectVar(u32),
}

/// A constant, by its current state of resolution.
#[derive(Debug, Clone, Copy, PartialEq, Eq, Structural)]
pub enum Const {
    /// A const parameter; canonicalization replaces these by placeholders.
    Param(u32),
    Infer(InferConst),
    /// The canonical variable with this index.
    Bound(u32),
    /// A universally quantified constant, by index.
    Placeholder(u32),
    /// A constant item not evaluated yet, by the index of its declaration.
    Unevaluated(u32),
    /// A concrete value of the given type.
    Value(Ty, u64),
    Error,
    /// A generic constant expression, which this solver does not handle.
    Expr,
}

/// A type, a region or a constant: what a canonical variable stands for.
#[derive(Debug, Clone, Copy, PartialEq, Eq, Structural)]
pub enum GenericArg {
    Type(Ty),
    Lifetime(Region),
    Const(Const),
}

/// The kind of a canonical variable.
#[derive(Debug, Clone, Copy, PartialEq, Eq, Structural)]
pub enum CanonicalVarKind {
    Ty,
    Region,
    Const,
}

/// What a goal asks to be proved.
#[derive(Debug, Clone, Copy, PartialEq, Eq, Structural)]
pub enum Predicate {
    TypeOutlives(Ty, Region),
    RegionOutlives(Region, Region),
    Coerce(Ty, Ty),
    Subtype { a_is_expected: bool, a: Ty, b: Ty },
    /// The trait, by the index of its declaration, can be made into an object.
    ObjectSafe(u32),
    WellFormed(GenericArg),
    ConstEvaluatable(Const),
    ConstArgHasType(Const, Ty),
    /// The two types are equal once the first is normalized.
    AliasRelate(Ty, Ty),
}

/// The assumptions in scope: the type of each placeholder constant.
pub struct ParamEnv {
    pub placeholder_const_tys: Vec<Ty>,
}

/// The canonical variable with index `i` of the given kind.
pub open spec fn bound_arg(kind: CanonicalVarKind, i: int) -> GenericArg {
    match kind {
        CanonicalVarKind::Ty => GenericArg::Type(Ty::Bound(i as u32)),
        CanonicalVarKind::Region => GenericArg::Lifetime(Region::Bound(i as u32)),
        CanonicalVarKind::Const => GenericArg::Const(Const::Bound(i as u32)),
    }
}

/// `arg` is the canonical variable with index `i`, whatever its kind.
pub open spec fn is_bound_var(arg: GenericArg, i: int) -> bool {
    match arg {
        GenericArg::Type(Ty::Bound(v)) => v == i,
        GenericArg::Lifetime(Region::Bound(v)) => v == i,
        GenericArg::Const(Const::Bound(v)) => v == i,
        _ => false,
    }
}

} // verus!
