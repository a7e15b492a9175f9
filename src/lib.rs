//! Goal evaluation for a type checker: decides whether trait-system obligations (outlives,
//! subtyping, coercion, object safety, well-formedness, constant evaluability and constant
//! types) hold, fail, or cannot be decided yet, and folds the outcome into canonical
//! responses that can be compared and merged across candidate proofs.
pub mod certainty;
pub mod infer;
pub mod interner;
pub mod merge;
pub mod platform;
pub mod response;
pub mod solve;
pub mod term;
