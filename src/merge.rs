//! Combining the responses of several candidate proofs of one goal.

use vstd::prelude::*;
use crate::certainty::{lemma_join_maybe_absorbs, Certainty};
use crate::infer::NoSolution;
use crate::response::{no_constraints_model, response_no_constraints_raw, CanonicalResponse, ResponseModel};
use crate::solve::EvalCtxt;

verus! {

/// Every response is the same as the first.
pub open spec fn all_same(rs: Seq<ResponseModel>) -> bool {
    forall|i: int| 0 <= i < rs.len() ==> #[trigger] rs[i] == rs[0]
}

/// The first response that is proved with nothing learned and nothing left over.
pub open spec fn first_trivial(rs: Seq<ResponseModel>) -> Option<ResponseModel>
    decreases rs.len(),
{
    if rs.len() == 0 {
        None
    } else if rs[0].is_trivially_true() {
        Some(rs[0])
    } else {
        first_trivial(rs.drop_first())
    }
}

/// The one response that stands for all of `rs`: the common one where all are the same,
/// else the first trivially true one; none where neither exists.
pub open spec fn merged(rs: Seq<ResponseModel>) -> Option<ResponseModel> {
    if rs.len() == 0 {
        None
    } else if all_same(rs) {
        Some(rs[0])
    } else {
        first_trivial(rs)
    }
}

/// The views of a slice of responses.
pub open spec fn models(rs: &[CanonicalResponse]) -> Seq<ResponseModel> {
    rs@.map_values(|r: CanonicalResponse| r@)
}

/// The certainties of the non-empty `rs`, joined in order.
pub open spec fn join_all(rs: Seq<ResponseModel>) -> Certainty
    decreases rs.len(),
{
    if rs.len() <= 1 {
        rs[0].certainty
    } else {
        join_all(rs.drop_last()).join(rs.last().certainty)
    }
}

proof fn lemma_first_trivial_skip(rs: Seq<ResponseModel>, i: int)
    requires
        0 <= i <= rs.len(),
        forall|j: int| 0 <= j < i ==> !(#[trigger] rs[j]).is_trivially_true(),
    ensures
        first_trivial(rs) == first_trivial(rs.subrange(i, rs.len() as int)),
    decreases i,
{
    if i > 0 {
        lemma_first_trivial_skip(rs.drop_first(), i - 1);
        assert(rs.drop_first().subrange(i - 1, rs.len() - 1) =~= rs.subrange(i, rs.len() as int));
    } else {
        assert(rs.subrange(0, rs.len() as int) =~= rs);
    }
}

proof fn lemma_join_all_maybe(rs: Seq<ResponseModel>, i: int)
    requires
        0 <= i < rs.len(),
        rs[i].certainty is Maybe,
    ensures
        join_all(rs) is Maybe,
    decreases rs.len(),
{
    if rs.len() > 1 {
        if i == rs.len() - 1 {
            lemma_join_maybe_absorbs(rs[i].certainty->Maybe_0, join_all(rs.drop_last()));
        } else {
            lemma_join_all_maybe(rs.drop_last(), i);
            lemma_join_maybe_absorbs(join_all(rs.drop_last())->Maybe_0, rs.last().certainty);
        }
    }
}

/// A single response merges to itself.
pub proof fn lemma_merge_single(r: ResponseModel)
    ensures
        merged(seq![r]) == Some(r),
{
    assert(all_same(seq![r]));
}

/// Any number of copies of one response merge to that response.
pub proof fn lemma_merge_repeated(r: ResponseModel, n: nat)
    requires
        n >= 1,
    ensures
        merged(Seq::new(n, |i: int| r)) == Some(r),
{
    assert(all_same(Seq::new(n, |i: int| r)));
}

/// Where one candidate is proved with nothing learned and nothing left over, and every such
/// candidate is that same response, the merge is that candidate, whatever the others hold.
pub proof fn lemma_merge_dominance(rs: Seq<ResponseModel>, i: int)
    requires
        0 <= i < rs.len(),
        rs[i].is_trivially_true(),
        forall|j: int| 0 <= j < rs.len() && (#[trigger] rs[j]).is_trivially_true() ==> rs[j] == rs[i],
    ensures
        merged(rs) == Some(rs[i]),
{
    if all_same(rs) {
        assert(rs[i] == rs[0]);
    } else {
        let k = choose_first_trivial(rs, i);
        lemma_first_trivial_skip(rs, k);
        assert(rs.subrange(k, rs.len() as int)[0] == rs[k]);
    }
}

/// The index of the first trivially true response, where one stands at or before `i`.
proof fn choose_first_trivial(rs: Seq<ResponseModel>, i: int) -> (k: int)
    requires
        0 <= i < rs.len(),
        rs[i].is_trivially_true(),
    ensures
        0 <= k <= i,
        rs[k].is_trivially_true(),
        forall|j: int| 0 <= j < k ==> !(#[trigger] rs[j]).is_trivially_true(),
    decreases i,
{
    if i == 0 {
        0
    } else if exists|j: int| 0 <= j < i && (#[trigger] rs[j]).is_trivially_true() {
        let j = choose|j: int| 0 <= j < i && (#[trigger] rs[j]).is_trivially_true();
        choose_first_trivial(rs, j)
    } else {
        i
    }
}

impl EvalCtxt {
    /// Merges several ways to prove one goal into one response, where that is possible
    /// without committing to constraints that not all of them share.
    pub fn try_merge_responses(&self, responses: &[CanonicalResponse]) -> (r: Option<CanonicalResponse>)
        ensures
            r is None <==> merged(models(responses)) is None,
            r matches Some(x) ==> merged(models(responses)) == Some(x@),
    {
        let ghost rs = models(responses);
        if responses.len() == 0 {
            return None;
        }
        let n = responses.len();
        let mut i: usize = 1;
        let mut same = true;
        while i < n
            invariant
                n == responses@.len(),
                rs == models(responses),
                1 <= i <= n,
                same <==> forall|j: int| 0 <= j < i ==> #[trigger] rs[j] == rs[0],
            decreases n - i,
        {
            assert(rs[i as int] == responses@[i as int]@ && rs[0] == responses@[0]@);
            if !responses[i].same_as(&responses[0]) {
                same = false;
            }
            i = i + 1;
        }
        if same {
            return Some(responses[0].duplicate());
        }
        let mut k: usize = 0;
        while k < n
            invariant
                n == responses@.len(),
                rs == models(responses),
                !all_same(rs),
                0 <= k <= n,
                forall|j: int| 0 <= j < k ==> !(#[trigger] rs[j]).is_trivially_true(),
            decreases n - k,
        {
            if responses[k].value.certainty == Certainty::Yes && responses[k].has_no_inference_or_external_constraints() {
                proof {
                    lemma_first_trivial_skip(rs, k as int);
                }
                return Some(responses[k].duplicate());
            }
            k = k + 1;
        }
        proof {
            lemma_first_trivial_skip(rs, n as int);
        }
        None
    }

    /// The response for a goal whose candidates could not be merged: undecided, with the join
    /// of their certainties and no constraints. With no candidate at all the goal is refuted.
    /// Candidates that are all proved would have merged, so at least one must be undecided.
    pub fn flounder(&self, responses: &[CanonicalResponse]) -> (r: Result<CanonicalResponse, NoSolution>)
        requires
            self.variables@.len() <= u32::MAX,
            responses@.len() > 0 ==> exists|i: int| 0 <= i < responses@.len() && (#[trigger] responses@[i]).value.certainty is Maybe,
        ensures
            r is Err <==> responses@.len() == 0,
            r matches Ok(x) ==> x@ == no_constraints_model(
                self.max_input_universe,
                self.variables@,
                join_all(models(responses)),
            ),
            r matches Ok(x) ==> x@.certainty is Maybe,
    {
        let ghost rs = models(responses);
        if responses.len() == 0 {
            return Err(NoSolution);
        }
        let n = responses.len();
        let mut certainty = responses[0].value.certainty;
        let mut i: usize = 1;
        proof {
            assert(rs.subrange(0, 1).len() == 1);
        }
        while i < n
            invariant
                n == responses@.len(),
                rs == models(responses),
                1 <= i <= n,
                certainty == join_all(rs.subrange(0, i as int)),
            decreases n - i,
        {
            certainty = certainty.unify_with(responses[i].value.certainty);
            proof {
                let prefix = rs.subrange(0, i + 1);
                assert(prefix.drop_last() =~= rs.subrange(0, i as int));
            }
            i = i + 1;
        }
        proof {
            assert(rs.subrange(0, n as int) =~= rs);
            let k = choose|k: int| 0 <= k < responses@.len() && (#[trigger] responses@[k]).value.certainty is Maybe;
            assert(rs[k] == responses@[k]@);
            lemma_join_all_maybe(rs, k);
        }
        Ok(response_no_constraints_raw(self.max_input_universe, &self.variables, certainty))
    }
}

} // verus!
