//! Laws of the builder, stated over the spec functions its contracts use.

use vstd::prelude::*;
use crate::amount::in_range;
use crate::bundle::{outputs_model, AuthData, Bundle};
use crate::builder::{
    balance, checked_sum, reports_outcome, resolution_trace, step_succeeds, total, witness_outcome,
    witness_step, Error, ResolvedWitness, TzeBuilder,
};

verus! {

/// A checked sum, when it exists, is the plain sum.
proof fn lemma_checked_sum_is_total(s: Seq<int>)
    ensures
        checked_sum(s) matches Some(v) ==> v == total(s),
    decreases s.len(),
{
    if s.len() > 0 {
        lemma_checked_sum_is_total(s.drop_last());
    }
}

/// When every prefix sum lies in the amount range, the checked sum exists.
proof fn lemma_checked_sum_of_bounded_prefixes(s: Seq<int>)
    requires
        forall|k: int| 0 <= k <= s.len() ==> in_range(#[trigger] total(s.take(k))),
    ensures
        checked_sum(s) == Some(total(s)),
    decreases s.len(),
{
    assert(s.take(s.len() as int) =~= s);
    if s.len() > 0 {
        let t = s.drop_last();
        assert forall|k: int| 0 <= k <= t.len() implies in_range(#[trigger] total(t.take(k))) by {
            assert(t.take(k) =~= s.take(k));
        }
        lemma_checked_sum_of_bounded_prefixes(t);
    }
}

/// Prefix sums of non-negative values lie between zero and the whole sum.
proof fn lemma_prefix_totals_of_non_negative(s: Seq<int>, k: int)
    requires
        0 <= k <= s.len(),
        forall|i: int| 0 <= i < s.len() ==> 0 <= #[trigger] s[i],
    ensures
        0 <= total(s.take(k)) <= total(s),
    decreases s.len(),
{
    assert(s.take(s.len() as int) =~= s);
    if s.len() > 0 {
        let t = s.drop_last();
        if k < s.len() {
            assert(t.take(k) =~= s.take(k));
            lemma_prefix_totals_of_non_negative(t, k);
        } else {
            lemma_prefix_totals_of_non_negative(t, t.len() as int);
            assert(t.take(t.len() as int) =~= t);
        }
    }
}

/// The balance is consumed value minus created value whenever both sums are
/// representable, which for the consumed values means that each of their
/// running sums is; and it is absent whenever either sum or the difference
/// leaves the amount range. Created values are non-negative, as outputs are.
pub proof fn lemma_balance_is_difference(consumed: Seq<int>, created: Seq<int>)
    requires
        forall|i: int| 0 <= i < consumed.len() ==> in_range(#[trigger] consumed[i]),
        forall|i: int| 0 <= i < created.len() ==> 0 <= #[trigger] created[i] && in_range(created[i]),
    ensures
        !in_range(total(consumed)) || !in_range(total(created)) || !in_range(
            total(consumed) - total(created),
        ) ==> balance(consumed, created) is None,
        (forall|k: int| 0 <= k <= consumed.len() ==> in_range(#[trigger] total(consumed.take(k))))
            && in_range(total(created)) && in_range(total(consumed) - total(created))
            ==> balance(consumed, created) == Some(total(consumed) - total(created)),
{
    lemma_checked_sum_is_total(consumed);
    lemma_checked_sum_is_total(created);
    if (forall|k: int| 0 <= k <= consumed.len() ==> in_range(#[trigger] total(consumed.take(k))))
        && in_range(total(created)) {
        lemma_checked_sum_of_bounded_prefixes(consumed);
        assert forall|k: int| 0 <= k <= created.len() implies in_range(
            #[trigger] total(created.take(k)),
        ) by {
            lemma_prefix_totals_of_non_negative(created, k);
        }
        lemma_checked_sum_of_bounded_prefixes(created);
    }
    if checked_sum(consumed) is Some {
        assert(consumed.take(consumed.len() as int) =~= consumed);
    }
}

/// When every resolved witness agrees with its declared mode, the outcome is
/// the sequence of their payloads, in order.
proof fn lemma_outcome_when_all_succeed(modes: Seq<u32>, resolved: Seq<ResolvedWitness>)
    requires
        resolved.len() <= modes.len(),
        forall|j: int| 0 <= j < resolved.len() ==> step_succeeds(modes[j], #[trigger] resolved[j]),
    ensures
        witness_outcome(modes, resolved) matches Ok(payloads) && payloads.len() == resolved.len()
            && forall|j: int|
            0 <= j < resolved.len() ==> witness_step(modes[j], #[trigger] resolved[j]) == Ok::<
                Seq<u8>,
                Error,
            >(payloads[j]),
    decreases resolved.len(),
{
    if resolved.len() > 0 {
        let t = resolved.drop_last();
        lemma_outcome_when_all_succeed(modes, t);
        let last = resolved.len() - 1;
        assert(step_succeeds(modes[last], resolved[last]));
        let prefix = witness_outcome(modes, t)->Ok_0;
        let p = witness_step(modes[last], resolved[last])->Ok_0;
        assert(witness_outcome(modes, resolved) == Ok::<Seq<Seq<u8>>, Error>(prefix.push(p)));
        assert forall|j: int| 0 <= j < resolved.len() implies witness_step(
            modes[j],
            #[trigger] resolved[j],
        ) == Ok::<Seq<u8>, Error>(prefix.push(p)[j]) by {
            if j < last {
                assert(resolved[j] == t[j]);
            }
        }
    }
}

/// When every witness resolves to its declared mode, `create_witnesses`
/// returns one payload per input, in input order.
pub proof fn lemma_witnesses_in_input_order(
    modes: Seq<u32>,
    resolved: Seq<ResolvedWitness>,
    r: Result<Option<Vec<AuthData>>, Error>,
)
    requires
        resolution_trace(modes, resolved),
        reports_outcome(r, witness_outcome(modes, resolved)),
        forall|j: int| 0 <= j < resolved.len() ==> step_succeeds(modes[j], #[trigger] resolved[j]),
    ensures
        r matches Ok(Some(v)) && v@.len() == modes.len() && forall|j: int|
            0 <= j < modes.len() ==> resolved[j] == Ok::<(u32, Seq<u8>), Error>(
                (modes[j], (#[trigger] v@[j]).0@),
            ),
{
    lemma_outcome_when_all_succeed(modes, resolved);
    if resolved.len() > 0 {
        assert(step_succeeds(modes[resolved.len() - 1], resolved.last()));
    }
}

/// When the witness of input `k` is the first to resolve to a mode other
/// than its declared one, `create_witnesses` fails with that mismatch and no
/// witness after input `k` is computed.
pub proof fn lemma_first_mismatch_aborts(
    modes: Seq<u32>,
    resolved: Seq<ResolvedWitness>,
    r: Result<Option<Vec<AuthData>>, Error>,
    k: int,
)
    requires
        resolution_trace(modes, resolved),
        reports_outcome(r, witness_outcome(modes, resolved)),
        0 <= k < resolved.len(),
        forall|j: int| 0 <= j < k ==> step_succeeds(modes[j], #[trigger] resolved[j]),
        resolved[k] is Ok,
        resolved[k]->Ok_0.0 != modes[k],
    ensures
        resolved.len() == k + 1,
        r == Err::<Option<Vec<AuthData>>, Error>(
            Error::WitnessModeMismatch(modes[k], resolved[k]->Ok_0.0),
        ),
{
    if k < resolved.len() - 1 {
        assert(step_succeeds(modes[k], resolved[k]));
    }
    let t = resolved.drop_last();
    assert forall|j: int| 0 <= j < t.len() implies step_succeeds(modes[j], #[trigger] t[j]) by {
        assert(t[j] == resolved[j]);
    }
    lemma_outcome_when_all_succeed(modes, t);
}

/// Two builds of the same builder have the same content.
pub proof fn lemma_build_idempotent<B>(b: TzeBuilder<B>, r1: Option<Bundle>, r2: Option<Bundle>)
    requires
        b.builds(r1),
        b.builds(r2),
    ensures
        r1 is None <==> r2 is None,
        r1 matches Some(x) ==> r2 matches Some(y) && x.vin@ == y.vin@ && outputs_model(x.vout@)
            == outputs_model(y.vout@),
{
}

} // verus!
