//! Canonical responses: variable values, external constraints and certainty.

use vstd::prelude::*;
use crate::certainty::Certainty;
use crate::term::{bound_arg, is_bound_var, CanonicalVarKind, GenericArg, Region};

verus! {

/// A region relation left for the caller to prove: `sub` outlives `sup`.
#[derive(Debug, Clone, Copy, PartialEq, Eq, Structural)]
pub struct OutlivesConstraint {
    pub sub: GenericArg,
    pub sup: Region,
}

/// The hidden type chosen for an opaque type while proving a goal.
#[derive(Debug, Clone, Copy, PartialEq, Eq, Structural)]
pub struct OpaqueDefinition {
    pub opaque: u32,
    pub hidden: crate::term::Ty,
}

/// What a proof leaves for its caller to propagate.
pub struct ExternalConstraints {
    pub region_constraints: Vec<OutlivesConstraint>,
    pub opaque_types: Vec<OpaqueDefinition>,
}

/// The result of a goal: values for its canonical variables, what is left over, and how sure.
pub struct Response {
    pub var_values: Vec<GenericArg>,
    pub external_constraints: ExternalConstraints,
    pub certainty: Certainty,
}

/// A response abstracted over the inference variables of the context that made it.
pub struct CanonicalResponse {
    pub max_universe: u32,
    pub variables: Vec<CanonicalVarKind>,
    pub value: Response,
    pub defining_opaque_types: Vec<u32>,
}

/// The mathematical value of a canonical response.
pub struct ResponseModel {
    pub max_universe: u32,
    pub variables: Seq<CanonicalVarKind>,
    pub var_values: Seq<GenericArg>,
    pub region_constraints: Seq<OutlivesConstraint>,
    pub opaque_types: Seq<OpaqueDefinition>,
    pub certainty: Certainty,
    pub defining_opaque_types: Seq<u32>,
}

impl View for CanonicalResponse {
    type V = ResponseModel;

    open spec fn view(&self) -> ResponseModel {
        ResponseModel {
            max_universe: self.max_universe,
            variables: self.variables@,
            var_values: self.value.var_values@,
            region_constraints: self.value.external_constraints.region_constraints@,
            opaque_types: self.value.external_constraints.opaque_types@,
            certainty: self.value.certainty,
            defining_opaque_types: self.defining_opaque_types@,
        }
    }
}

/// Each canonical variable is mapped to itself.
pub open spec fn is_identity(var_values: Seq<GenericArg>) -> bool {
    forall|i: int| 0 <= i < var_values.len() ==> is_bound_var(#[trigger] var_values[i], i)
}

/// The substitution that maps each of `variables` to itself.
pub open spec fn identity_of(variables: Seq<CanonicalVarKind>) -> Seq<GenericArg> {
    Seq::new(variables.len(), |i: int| bound_arg(variables[i], i))
}

impl ResponseModel {
    /// Proved or not, the response commits the caller to nothing.
    pub open spec fn has_no_constraints(self) -> bool {
        &&& self.region_constraints.len() == 0
        &&& is_identity(self.var_values)
        &&& self.opaque_types.len() == 0
    }

    /// Proved, with nothing learned and nothing left to do.
    pub open spec fn is_trivially_true(self) -> bool {
        self.certainty == Certainty::Yes && self.has_no_constraints()
    }
}

/// The response with the given certainty that binds nothing and leaves nothing over.
pub open spec fn no_constraints_model(
    max_universe: u32,
    variables: Seq<CanonicalVarKind>,
    certainty: Certainty,
) -> ResponseModel {
    ResponseModel {
        max_universe,
        variables,
        var_values: identity_of(variables),
        region_constraints: Seq::empty(),
        opaque_types: Seq::empty(),
        certainty,
        defining_opaque_types: Seq::empty(),
    }
}

fn is_identity_var_values(var_values: &Vec<GenericArg>) -> (r: bool)
    ensures
        r == is_identity(var_values@),
{
    let n = var_values.len();
    let mut i: usize = 0;
    while i < n
        invariant
            n == var_values@.len(),
            0 <= i <= n,
            forall|j: int| 0 <= j < i ==> is_bound_var(#[trigger] var_values@[j], j),
        decreases n - i,
    {
        let ok = match var_values[i] {
            GenericArg::Type(crate::term::Ty::Bound(v)) => v as usize == i,
            GenericArg::Lifetime(Region::Bound(v)) => v as usize == i,
            GenericArg::Const(crate::term::Const::Bound(v)) => v as usize == i,
            _ => false,
        };
        if !ok {
            assert(!is_bound_var(var_values@[i as int], i as int));
            return false;
        }
        i = i + 1;
    }
    true
}

/// A copy of a sequence of plain values.
pub fn copy_vec<T: Copy>(v: &Vec<T>) -> (r: Vec<T>)
    ensures
        r@ == v@,
{
    let mut r: Vec<T> = Vec::new();
    let n = v.len();
    let mut i: usize = 0;
    while i < n
        invariant
            n == v@.len(),
            0 <= i <= n,
            r@ == v@.subrange(0, i as int),
        decreases n - i,
    {
        r.push(v[i]);
        i = i + 1;
        assert(r@ =~= v@.subrange(0, i as int));
    }
    assert(r@ =~= v@);
    r
}

/// Element-wise comparison of two sequences, with `eq` deciding equality of elements.
pub fn same_vec<T: Copy, F: Fn(T, T) -> bool>(a: &Vec<T>, b: &Vec<T>, eq: F) -> (r: bool)
    requires
        forall|x: T, y: T| #[trigger] eq.requires((x, y)),
        forall|x: T, y: T, e: bool| eq.ensures((x, y), e) ==> e == (x == y),
    ensures
        r == (a@ == b@),
{
    if a.len() != b.len() {
        return false;
    }
    let n = a.len();
    let mut i: usize = 0;
    while i < n
        invariant
            n == a@.len(),
            n == b@.len(),
            0 <= i <= n,
            forall|j: int| 0 <= j < i ==> a@[j] == b@[j],
            forall|x: T, y: T| #[trigger] eq.requires((x, y)),
            forall|x: T, y: T, e: bool| eq.ensures((x, y), e) ==> e == (x == y),
        decreases n - i,
    {
        if !eq(a[i], b[i]) {
            return false;
        }
        i = i + 1;
    }
    assert(a@ =~= b@);
    true
}

/// The canonical variable with index `i` of the given kind.
pub fn bound_arg_exec(kind: CanonicalVarKind, i: u32) -> (r: GenericArg)
    ensures
        r == bound_arg(kind, i as int),
{
    match kind {
        CanonicalVarKind::Ty => GenericArg::Type(crate::term::Ty::Bound(i)),
        CanonicalVarKind::Region => GenericArg::Lifetime(Region::Bound(i)),
        CanonicalVarKind::Const => GenericArg::Const(crate::term::Const::Bound(i)),
    }
}

/// The substitution that maps each of `variables` to itself.
pub fn make_identity(variables: &Vec<CanonicalVarKind>) -> (r: Vec<GenericArg>)
    requires
        variables@.len() <= u32::MAX,
    ensures
        r@ == identity_of(variables@),
{
    let mut r: Vec<GenericArg> = Vec::new();
    let n = variables.len();
    let mut i: usize = 0;
    while i < n
        invariant
            n == variables@.len(),
            n <= u32::MAX,
            0 <= i <= n,
            r@ == identity_of(variables@).subrange(0, i as int),
        decreases n - i,
    {
        let v = i as u32;
        let arg = match variables[i] {
            CanonicalVarKind::Ty => GenericArg::Type(crate::term::Ty::Bound(v)),
            CanonicalVarKind::Region => GenericArg::Lifetime(Region::Bound(v)),
            CanonicalVarKind::Const => GenericArg::Const(crate::term::Const::Bound(v)),
        };
        r.push(arg);
        i = i + 1;
        assert(r@ =~= identity_of(variables@).subrange(0, i as int));
    }
    assert(r@ =~= identity_of(variables@));
    r
}

/// A response with the given certainty that binds nothing and leaves nothing over.
pub fn response_no_constraints_raw(
    max_universe: u32,
    variables: &Vec<CanonicalVarKind>,
    certainty: Certainty,
) -> (r: CanonicalResponse)
    requires
        variables@.len() <= u32::MAX,
    ensures
        r@ == no_constraints_model(max_universe, variables@, certainty),
{
    let r = CanonicalResponse {
        max_universe,
        variables: copy_vec(variables),
        value: Response {
            var_values: make_identity(variables),
            external_constraints: ExternalConstraints {
                region_constraints: Vec::new(),
                opaque_types: Vec::new(),
            },
            certainty,
        },
        defining_opaque_types: Vec::new(),
    };
    assert(r@ =~= no_constraints_model(max_universe, variables@, certainty));
    r
}

impl CanonicalResponse {
    /// A copy of this response.
    pub fn duplicate(&self) -> (r: CanonicalResponse)
        ensures
            r@ == self@,
    {
        CanonicalResponse {
            max_universe: self.max_universe,
            variables: copy_vec(&self.variables),
            value: Response {
                var_values: copy_vec(&self.value.var_values),
                external_constraints: ExternalConstraints {
                    region_constraints: copy_vec(&self.value.external_constraints.region_constraints),
                    opaque_types: copy_vec(&self.value.external_constraints.opaque_types),
                },
                certainty: self.value.certainty,
            },
            defining_opaque_types: copy_vec(&self.defining_opaque_types),
        }
    }

    /// The two responses are structurally identical.
    pub fn same_as(&self, other: &CanonicalResponse) -> (r: bool)
        ensures
            r == (self@ == other@),
    {
        let r = self.max_universe == other.max_universe
            && same_vec(&self.variables, &other.variables, |x: CanonicalVarKind, y: CanonicalVarKind| -> (e: bool) ensures e == (x == y) { x == y })
            && same_vec(&self.value.var_values, &other.value.var_values, |x: GenericArg, y: GenericArg| -> (e: bool) ensures e == (x == y) { x == y })
            && same_vec(&self.value.external_constraints.region_constraints, &other.value.external_constraints.region_constraints, |x: OutlivesConstraint, y: OutlivesConstraint| -> (e: bool) ensures e == (x == y) { x == y })
            && same_vec(&self.value.external_constraints.opaque_types, &other.value.external_constraints.opaque_types, |x: OpaqueDefinition, y: OpaqueDefinition| -> (e: bool) ensures e == (x == y) { x == y })
            && self.value.certainty == other.value.certainty
            && same_vec(&self.defining_opaque_types, &other.defining_opaque_types, |x: u32, y: u32| -> (e: bool) ensures e == (x == y) { x == y });
        r
    }

    /// The response binds no canonical variable and leaves no region or opaque-type
    /// constraint for the caller.
    pub fn has_no_inference_or_external_constraints(&self) -> (r: bool)
        ensures
            r == self@.has_no_constraints(),
    {
        self.value.external_constraints.region_constraints.len() == 0
            && is_identity_var_values(&self.value.var_values)
            && self.value.external_constraints.opaque_types.len() == 0
    }
}

} // verus!
