//! Type inference variables, their bindings, and equating types.

use vstd::prelude::*;
use crate::certainty::Certainty;
use crate::term::{Predicate, Ty};

verus! {

/// The goal is refuted: it is definitely false, not merely undecided.
#[derive(Debug, Clone, Copy, PartialEq, Eq, Structural)]
pub struct NoSolution;

/// The current binding of a type, following one inference variable if it is bound.
pub open spec fn resolve_in(ty_vars: Seq<Option<Ty>>, t: Ty) -> Ty {
    match t {
        Ty::Infer(v) => if v < ty_vars.len() && ty_vars[v as int] is Some {
            ty_vars[v as int]->Some_0
        } else {
            t
        },
        _ => t,
    }
}

/// Bindings never point at another inference variable, so one step resolves fully.
pub open spec fn bindings_ok(ty_vars: Seq<Option<Ty>>) -> bool {
    forall|v: int| 0 <= v < ty_vars.len() && (#[trigger] ty_vars[v]) is Some ==> !(ty_vars[v]->Some_0 is Infer)
}

/// What equating `a` and `b` does, on their resolved forms.
pub enum EqOutcome {
    /// Already equal: nothing to do.
    Same,
    /// Neither side can be bound yet.
    Stall,
    /// Bind the variable to the type.
    Bind(u32, Ty),
    /// Defer to a nested goal relating an alias to the other side.
    Defer(Ty, Ty),
    /// Different rigid types.
    Clash,
}

pub open spec fn eq_outcome(ty_vars: Seq<Option<Ty>>, a: Ty, b: Ty) -> EqOutcome {
    let ra = resolve_in(ty_vars, a);
    let rb = resolve_in(ty_vars, b);
    if ra == rb {
        EqOutcome::Same
    } else if ra is Infer && rb is Infer {
        EqOutcome::Stall
    } else if ra is Infer {
        if ra->Infer_0 < ty_vars.len() { EqOutcome::Bind(ra->Infer_0, rb) } else { EqOutcome::Stall }
    } else if rb is Infer {
        if rb->Infer_0 < ty_vars.len() { EqOutcome::Bind(rb->Infer_0, ra) } else { EqOutcome::Stall }
    } else if ra is Alias {
        EqOutcome::Defer(ra, rb)
    } else if rb is Alias {
        EqOutcome::Defer(rb, ra)
    } else {
        EqOutcome::Clash
    }
}

/// What equating returns: refuted on a clash, undecided on a stall, and proved otherwise
/// (a deferred alias is proved by the nested goal it stages).
pub open spec fn eq_result(o: EqOutcome) -> Result<Certainty, NoSolution> {
    match o {
        EqOutcome::Stall => Ok(Certainty::ambiguous_spec()),
        EqOutcome::Clash => Err(NoSolution),
        _ => Ok(Certainty::Yes),
    }
}

/// The bindings after equating.
pub open spec fn eq_bindings(ty_vars: Seq<Option<Ty>>, o: EqOutcome) -> Seq<Option<Ty>> {
    match o {
        EqOutcome::Bind(v, t) => ty_vars.update(v as int, Some(t)),
        _ => ty_vars,
    }
}

/// The type inference variables of one evaluation and their bindings.
pub struct InferCtxt {
    pub ty_vars: Vec<Option<Ty>>,
}

impl InferCtxt {
    pub open spec fn wf(&self) -> bool {
        &&& self.ty_vars@.len() < u32::MAX
        &&& bindings_ok(self.ty_vars@)
    }

    pub fn resolve(&self, t: Ty) -> (r: Ty)
        ensures
            r == resolve_in(self.ty_vars@, t),
    {
        match t {
            Ty::Infer(v) => {
                if (v as usize) < self.ty_vars.len() {
                    match self.ty_vars[v as usize] {
                        Some(b) => b,
                        None => t,
                    }
                } else {
                    t
                }
            },
            _ => t,
        }
    }

    /// A fresh, unbound type variable.
    pub fn next_ty_infer(&mut self) -> (r: Ty)
        requires
            old(self).wf(),
            old(self).ty_vars@.len() + 1 < u32::MAX,
        ensures
            final(self).wf(),
            r == Ty::Infer(old(self).ty_vars@.len() as u32),
            final(self).ty_vars@ == old(self).ty_vars@.push(None),
    {
        let v = self.ty_vars.len() as u32;
        self.ty_vars.push(None);
        assert(bindings_ok(self.ty_vars@)) by {
            assert forall|w: int| 0 <= w < self.ty_vars@.len() && (#[trigger] self.ty_vars@[w]) is Some implies !(
            self.ty_vars@[w]->Some_0 is Infer) by {
                assert(w < old(self).ty_vars@.len());
                assert(self.ty_vars@[w] == old(self).ty_vars@[w]);
            }
        }
        Ty::Infer(v)
    }

    /// Equates two types: binds a variable, stalls, defers an alias to a nested goal pushed
    /// on `goals`, or refutes.
    pub fn eq(&mut self, goals: &mut Vec<Predicate>, a: Ty, b: Ty) -> (r: Result<Certainty, NoSolution>)
        requires
            old(self).wf(),
        ensures
            final(self).wf(),
            r == eq_result(eq_outcome(old(self).ty_vars@, a, b)),
            final(self).ty_vars@ == eq_bindings(old(self).ty_vars@, eq_outcome(old(self).ty_vars@, a, b)),
            final(goals)@ == match eq_outcome(old(self).ty_vars@, a, b) {
                EqOutcome::Defer(alias, other) => old(goals)@.push(Predicate::AliasRelate(alias, other)),
                _ => old(goals)@,
            },
    {
        let ra = self.resolve(a);
        let rb = self.resolve(b);
        if ra == rb {
            return Ok(Certainty::Yes);
        }
        match (ra, rb) {
            (Ty::Infer(_), Ty::Infer(_)) => Ok(Certainty::ambiguous()),
            (Ty::Infer(v), _) => {
                if (v as usize) < self.ty_vars.len() {
                    self.bind(v, rb);
                    Ok(Certainty::Yes)
                } else {
                    Ok(Certainty::ambiguous())
                }
            },
            (_, Ty::Infer(v)) => {
                if (v as usize) < self.ty_vars.len() {
                    self.bind(v, ra);
                    Ok(Certainty::Yes)
                } else {
                    Ok(Certainty::ambiguous())
                }
            },
            (Ty::Alias(_), _) => {
                goals.push(Predicate::AliasRelate(ra, rb));
                Ok(Certainty::Yes)
            },
            (_, Ty::Alias(_)) => {
                goals.push(Predicate::AliasRelate(rb, ra));
                Ok(Certainty::Yes)
            },
            _ => Err(NoSolution),
        }
    }

    fn bind(&mut self, v: u32, t: Ty)
        requires
            old(self).wf(),
            v < old(self).ty_vars@.len(),
            !(t is Infer),
        ensures
            final(self).wf(),
            final(self).ty_vars@ == old(self).ty_vars@.update(v as int, Some(t)),
    {
        self.ty_vars.set(v as usize, Some(t));
        assert(bindings_ok(self.ty_vars@)) by {
            assert forall|w: int| 0 <= w < self.ty_vars@.len() && (#[trigger] self.ty_vars@[w]) is Some implies !(
            self.ty_vars@[w]->Some_0 is Infer) by {
                if w != v {
                    assert(self.ty_vars@[w] == old(self).ty_vars@[w]);
                }
            }
        }
    }

    /// The two tables of bindings are the same.
    pub fn same_bindings(&self, other: &Vec<Option<Ty>>) -> (r: bool)
        ensures
            r == (self.ty_vars@ == other@),
    {
        if self.ty_vars.len() != other.len() {
            return false;
        }
        let n = other.len();
        let mut i: usize = 0;
        while i < n
            invariant
                n == other@.len(),
                n == self.ty_vars@.len(),
                0 <= i <= n,
                forall|j: int| 0 <= j < i ==> self.ty_vars@[j] == other@[j],
            decreases n - i,
        {
            let same = match (self.ty_vars[i], other[i]) {
                (Some(p), Some(q)) => p == q,
                (None, None) => true,
                _ => false,
            };
            if !same {
                return false;
            }
            i = i + 1;
        }
        assert(self.ty_vars@ =~= other@);
        true
    }
}

} // verus!
