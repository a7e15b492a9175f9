//! The declarations of the program under check, as lookup tables.

use vstd::prelude::*;
use crate::term::{Predicate, Ty};

verus! {

/// A method of a trait, by what object safety looks at.
#[derive(Debug, Clone, Copy, PartialEq, Eq, Structural)]
pub struct MethodDecl {
    /// How many type parameters the method declares of its own.
    pub own_type_params: u32,
}

pub struct TraitDecl {
    pub methods: Vec<MethodDecl>,
}

/// A constant item: its type and, where evaluation succeeds, its value.
#[derive(Debug, Clone, Copy, PartialEq, Eq, Structural)]
pub struct ConstDecl {
    pub ty: Ty,
    pub value: Option<u64>,
}

/// An alias type: what it normalizes to, where that is known.
#[derive(Debug, Clone, Copy, PartialEq, Eq, Structural)]
pub struct AliasDecl {
    pub normalizes_to: Option<Ty>,
}

/// A nominal type: the predicates that must hold for it to be well-formed.
pub struct AdtDecl {
    pub where_clauses: Vec<Predicate>,
}

/// The declarations of the program being checked; each is named by its index.
pub struct Interner {
    pub traits: Vec<TraitDecl>,
    pub consts: Vec<ConstDecl>,
    pub aliases: Vec<AliasDecl>,
    pub adts: Vec<AdtDecl>,
}

impl Interner {
    /// No method of the trait is generic over a type of its own.
    pub open spec fn object_safe(&self, t: int) -> bool {
        forall|m: int|
            0 <= m < self.traits@[t].methods@.len() ==> (#[trigger] self.traits@[t].methods@[m]).own_type_params
                == 0
    }

    pub fn is_object_safe(&self, t: u32) -> (r: bool)
        requires
            t < self.traits@.len(),
        ensures
            r == self.object_safe(t as int),
    {
        let methods = &self.traits[t as usize].methods;
        let n = methods.len();
        let mut i: usize = 0;
        while i < n
            invariant
                n == methods@.len(),
                methods@ == self.traits@[t as int].methods@,
                0 <= i <= n,
                forall|m: int| 0 <= m < i ==> (#[trigger] methods@[m]).own_type_params == 0,
            decreases n - i,
        {
            if methods[i].own_type_params != 0 {
                return false;
            }
            i = i + 1;
        }
        true
    }

    /// What the alias normalizes to; `None` where the alias is unknown or cannot be normalized.
    pub open spec fn alias_target(&self, a: u32) -> Option<Ty> {
        if a < self.aliases@.len() {
            self.aliases@[a as int].normalizes_to
        } else {
            None
        }
    }

    pub fn normalizes_to(&self, a: u32) -> (r: Option<Ty>)
        ensures
            r == self.alias_target(a),
    {
        if (a as usize) < self.aliases.len() {
            self.aliases[a as usize].normalizes_to
        } else {
            None
        }
    }

    /// The value of the constant item, where it is declared and evaluates.
    pub open spec fn const_value(&self, d: u32) -> Option<u64> {
        if d < self.consts@.len() {
            self.consts@[d as int].value
        } else {
            None
        }
    }

    pub fn try_const_eval(&self, d: u32) -> (r: Option<u64>)
        ensures
            r == self.const_value(d),
    {
        if (d as usize) < self.consts.len() {
            self.consts[d as usize].value
        } else {
            None
        }
    }

    pub fn type_of_const(&self, d: u32) -> (r: Ty)
        requires
            d < self.consts@.len(),
        ensures
            r == self.consts@[d as int].ty,
    {
        self.consts[d as usize].ty
    }
}

} // verus!
