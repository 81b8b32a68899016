//! What holds of every run of the store.

use super::model::{ClaimOutcome, Operation, RowKey, StoreState};
use super::response::ResponseView;
use vstd::prelude::*;

verus! {

/// No step of `ops` rolls back a transaction on `k`.
pub open spec fn no_abort_on(ops: Seq<Operation>, k: RowKey) -> bool {
    forall|i: int| 0 <= i < ops.len() ==> !((#[trigger] ops[i]) is Abort && ops[i].key() == k)
}

/// No step of `ops` is about `k`.
pub open spec fn none_on(ops: Seq<Operation>, k: RowKey) -> bool {
    forall|i: int| 0 <= i < ops.len() ==> (#[trigger] ops[i]).key() != k
}

/// Every step leaves a well-formed state well-formed.
pub proof fn lemma_step_wf(s: StoreState, op: Operation)
    requires
        s.wf(),
    ensures
        s.step(op).wf(),
{
}

/// Every run leaves a well-formed state well-formed.
pub proof fn lemma_run_wf(s: StoreState, ops: Seq<Operation>)
    requires
        s.wf(),
    ensures
        s.run(ops).wf(),
    decreases ops.len(),
{
    if ops.len() > 0 {
        lemma_run_wf(s, ops.drop_last());
        lemma_step_wf(s.run(ops.drop_last()), ops.last());
    }
}

/// A new claim opens a new transaction. The transaction under which a claim is
/// taken holds that claim and no other, and held none before.
pub proof fn law_transaction_is_fresh(s: StoreState, k: RowKey, now: u64, other: RowKey)
    requires
        s.wf(),
        s.claim_outcome(k) is Start,
    ensures
        s.claim(k, now).owns(k, s.next_transaction),
        !s.owns(other, s.next_transaction),
        other != k ==> !s.claim(k, now).owns(other, s.next_transaction),
{
}

/// At most once. However the steps of any number of callers interleave, as
/// long as no transaction on the pair `k` is rolled back, at most one attempt
/// to claim `k` is told to start processing; none is if `k` was claimed
/// before the run; and once one was, the claim is still there at the end.
pub proof fn law_at_most_once(s: StoreState, ops: Seq<Operation>, k: RowKey)
    requires
        no_abort_on(ops, k),
    ensures
        s.starts(ops, k) <= 1,
        s.rows.contains_key(k) ==> s.starts(ops, k) == 0,
        s.rows.contains_key(k) || s.starts(ops, k) == 1 ==> s.run(ops).rows.contains_key(k),
    decreases ops.len(),
{
    if ops.len() > 0 {
        let earlier = ops.drop_last();
        assert(no_abort_on(earlier, k)) by {
            assert forall|i: int| 0 <= i < earlier.len() implies !((#[trigger] earlier[i]) is Abort
                && earlier[i].key() == k) by {
                assert(earlier[i] == ops[i]);
            }
        }
        law_at_most_once(s, earlier, k);
        assert(!(ops[ops.len() - 1] is Abort && ops[ops.len() - 1].key() == k));
    }
}

/// A run can be cut in two: the state after the whole is the state after the
/// second part, run from the state after the first.
pub proof fn lemma_run_split(s: StoreState, ops: Seq<Operation>, n: int)
    requires
        0 <= n <= ops.len(),
    ensures
        s.run(ops) == s.run(ops.take(n)).run(ops.skip(n)),
    decreases ops.len(),
{
    if n == ops.len() {
        assert(ops.take(n) =~= ops);
        assert(ops.skip(n).len() == 0);
    } else {
        let earlier = ops.drop_last();
        lemma_run_split(s, earlier, n);
        assert(earlier.take(n) =~= ops.take(n));
        assert(earlier.skip(n) =~= ops.skip(n).drop_last());
        assert(ops.skip(n).last() == ops.last());
    }
}

/// No second start. In a run without a rollback on the pair `k`, once an
/// attempt to claim `k` was told to start processing, no later attempt is:
/// every later attempt finds the row of the first.
pub proof fn law_second_claim_does_not_start(
    s: StoreState,
    ops: Seq<Operation>,
    k: RowKey,
    first: int,
    second: int,
)
    requires
        no_abort_on(ops, k),
        0 <= first < second <= ops.len(),
        ops[first] is Claim,
        ops[first].key() == k,
        s.run(ops.take(first)).claim_outcome(k) is Start,
    ensures
        s.run(ops.take(second)).rows.contains_key(k),
        !(s.run(ops.take(second)).claim_outcome(k) is Start),
{
    let upto = ops.take(second);
    let after_first = s.run(ops.take(first + 1));
    assert(ops.take(first + 1).drop_last() =~= ops.take(first));
    assert(ops.take(first + 1).last() == ops[first]);
    assert(after_first.rows.contains_key(k));
    lemma_run_split(s, upto, first + 1);
    assert(upto.take(first + 1) =~= ops.take(first + 1));
    let between = upto.skip(first + 1);
    assert(no_abort_on(between, k)) by {
        assert forall|i: int| 0 <= i < between.len() implies !((#[trigger] between[i]) is Abort
            && between[i].key() == k) by {
            assert(between[i] == ops[i + first + 1]);
        }
    }
    law_at_most_once(after_first, between, k);
}

/// A claim after the save replays. Once transaction `t`, which holds the
/// claim on `k`, has saved `response` at some step of a run, every attempt to
/// claim `k` at a later step is handed `response`.
pub proof fn law_claim_after_save_replays(
    s: StoreState,
    ops: Seq<Operation>,
    k: RowKey,
    t: u64,
    response: ResponseView,
    saved_at: int,
    later: int,
)
    requires
        0 <= saved_at < later <= ops.len(),
        ops[saved_at] == (Operation::Save { key: k, transaction: t, response }),
        s.run(ops.take(saved_at)).owns(k, t),
    ensures
        s.run(ops.take(later)).claim_outcome(k) == (ClaimOutcome::Replay { response }),
{
    let upto = ops.take(later);
    let before = s.run(ops.take(saved_at));
    assert(ops.take(saved_at + 1).drop_last() =~= ops.take(saved_at));
    assert(ops.take(saved_at + 1).last() == ops[saved_at]);
    assert(s.run(ops.take(saved_at + 1)) == before.save(k, t, response));
    lemma_run_split(s, upto, saved_at + 1);
    assert(upto.take(saved_at + 1) =~= ops.take(saved_at + 1));
    law_replay_fidelity(before, k, t, response, upto.skip(saved_at + 1));
}

/// Exactly once. If `k` is unclaimed before the run, no transaction on `k` is
/// rolled back, a transaction can be opened for every step, and some step
/// attempts to claim `k`, then exactly one attempt is told to start
/// processing.
pub proof fn law_exactly_once(s: StoreState, ops: Seq<Operation>, k: RowKey)
    requires
        no_abort_on(ops, k),
        !s.rows.contains_key(k),
        s.next_transaction + ops.len() <= u64::MAX,
        exists|i: int| 0 <= i < ops.len() && (#[trigger] ops[i]) is Claim && ops[i].key() == k,
    ensures
        s.starts(ops, k) == 1,
    decreases ops.len(),
{
    let earlier = ops.drop_last();
    let last = ops.last();
    assert(no_abort_on(earlier, k)) by {
        assert forall|i: int| 0 <= i < earlier.len() implies !((#[trigger] earlier[i]) is Abort
            && earlier[i].key() == k) by {
            assert(earlier[i] == ops[i]);
        }
    }
    law_at_most_once(s, earlier, k);
    lemma_run_uses_one_transaction_per_step(s, earlier);
    if exists|i: int| 0 <= i < earlier.len() && (#[trigger] earlier[i]) is Claim && earlier[i].key() == k {
        law_exactly_once(s, earlier, k);
    } else {
        let i = choose|i: int| 0 <= i < ops.len() && (#[trigger] ops[i]) is Claim && ops[i].key() == k;
        if i < earlier.len() {
            assert(earlier[i] == ops[i]);
        }
        assert(i == ops.len() - 1);
        lemma_unclaimed_without_claim(s, earlier, k);
    }
}

/// A run opens at most one transaction per step.
pub proof fn lemma_run_uses_one_transaction_per_step(s: StoreState, ops: Seq<Operation>)
    ensures
        s.next_transaction <= s.run(ops).next_transaction <= s.next_transaction + ops.len(),
    decreases ops.len(),
{
    if ops.len() > 0 {
        lemma_run_uses_one_transaction_per_step(s, ops.drop_last());
    }
}

/// A pair that is unclaimed stays so, with no attempt told to start, through
/// a run without an attempt to claim it.
pub proof fn lemma_unclaimed_without_claim(s: StoreState, ops: Seq<Operation>, k: RowKey)
    requires
        !s.rows.contains_key(k),
        forall|i: int| 0 <= i < ops.len() ==> !((#[trigger] ops[i]) is Claim && ops[i].key() == k),
    ensures
        !s.run(ops).rows.contains_key(k),
        s.starts(ops, k) == 0,
    decreases ops.len(),
{
    if ops.len() > 0 {
        let earlier = ops.drop_last();
        assert forall|i: int| 0 <= i < earlier.len() implies !((#[trigger] earlier[i]) is Claim
            && earlier[i].key() == k) by {
            assert(earlier[i] == ops[i]);
        }
        lemma_unclaimed_without_claim(s, earlier, k);
        assert(!(ops[ops.len() - 1] is Claim && ops[ops.len() - 1].key() == k));
    }
}

/// Who does not start, replays or waits. An attempt to claim a pair that has
/// a row replays the saved response if the execution has finished, and is
/// told to wait if it is in flight; it never starts a second execution.
pub proof fn law_claimed_pair_replays_or_waits(s: StoreState, k: RowKey)
    requires
        s.rows.contains_key(k),
    ensures
        s.completed(k) ==> s.claim_outcome(k) == (ClaimOutcome::Replay {
            response: s.rows[k].response->0,
        }),
        s.in_flight(k) ==> s.claim_outcome(k) == ClaimOutcome::Busy,
        s.completed(k) || s.in_flight(k),
{
}

/// A waiting caller is answered. While transaction `t` holds the claim on
/// `k`, an attempt to claim `k` is told to wait. Once `t` has saved its
/// response the attempt replays that response; once `t` has been rolled back
/// the attempt is told to start processing, if a transaction can be opened.
pub proof fn law_blocked_then_resolved(s: StoreState, k: RowKey, t: u64, response: ResponseView)
    requires
        s.owns(k, t),
    ensures
        s.claim_outcome(k) == ClaimOutcome::Busy,
        s.save(k, t, response).claim_outcome(k) == (ClaimOutcome::Replay { response }),
        s.abort(k, t).has_room() ==> s.abort(k, t).claim_outcome(k) is Start,
{
}

/// Replay fidelity. Once transaction `t`, which holds the claim on `k`, has
/// saved `response`, every later lookup and every later attempt to claim `k`
/// gets exactly `response`, whatever steps come in between: status code,
/// headers in order and body.
pub proof fn law_replay_fidelity(
    s: StoreState,
    k: RowKey,
    t: u64,
    response: ResponseView,
    ops: Seq<Operation>,
)
    requires
        s.owns(k, t),
    ensures
        s.save(k, t, response).run(ops).saved_response(k) == Some(response),
        s.save(k, t, response).run(ops).claim_outcome(k) == (ClaimOutcome::Replay { response }),
{
    lemma_saved_is_kept(s.save(k, t, response), k, ops);
}

/// A response, once saved, is never changed or removed: the row under `k` is
/// after the run what it was before.
pub proof fn lemma_saved_is_kept(s: StoreState, k: RowKey, ops: Seq<Operation>)
    requires
        s.completed(k),
    ensures
        s.run(ops).rows.contains_key(k),
        s.run(ops).rows[k] == s.rows[k],
    decreases ops.len(),
{
    if ops.len() > 0 {
        lemma_saved_is_kept(s, k, ops.drop_last());
    }
}

/// Crash recovery. A claim that is taken and then rolled back, without a
/// response saved, leaves the rows as they were before it was taken, and the
/// next attempt to claim the same pair is told to start processing again, if
/// a transaction can be opened.
pub proof fn law_crash_recovery(s: StoreState, k: RowKey, now: u64)
    requires
        s.claim_outcome(k) is Start,
    ensures
        s.claim(k, now).abort(k, s.next_transaction).rows == s.rows,
        s.claim(k, now).abort(k, s.next_transaction).has_room() ==> s.claim(k, now).abort(
            k,
            s.next_transaction,
        ).claim_outcome(k) is Start,
{
    assert(s.rows.insert(
        k,
        s.claim(k, now).rows[k],
    ).remove(k) =~= s.rows);
}

/// A claim is held until its holder lets go. Through a run in which
/// transaction `t` neither saves under `k` nor is rolled back, `t` goes on
/// holding the claim on `k`, with no response to be seen.
pub proof fn law_claim_is_held(s: StoreState, k: RowKey, t: u64, ops: Seq<Operation>)
    requires
        s.owns(k, t),
        forall|i: int| 0 <= i < ops.len() ==> !(#[trigger] ops[i]).ends(k, t),
    ensures
        s.run(ops).owns(k, t),
        s.run(ops).saved_response(k) is None,
    decreases ops.len(),
{
    if ops.len() > 0 {
        let earlier = ops.drop_last();
        assert forall|i: int| 0 <= i < earlier.len() implies !(#[trigger] earlier[i]).ends(k, t) by {
            assert(earlier[i] == ops[i]);
        }
        law_claim_is_held(s, k, t, earlier);
        assert(!ops[ops.len() - 1].ends(k, t));
    }
}

/// Key isolation. Steps about other pairs leave the pair `k` alone: its row
/// is there or not as before and holds what it held, a lookup finds what it
/// found, and an attempt to claim `k` waits, replays or starts as it would
/// have before the run. Two pairs are different as soon as their callers
/// differ or their keys do.
pub proof fn law_key_isolation(s: StoreState, ops: Seq<Operation>, k: RowKey)
    requires
        none_on(ops, k),
    ensures
        s.run(ops).rows.contains_key(k) <==> s.rows.contains_key(k),
        s.rows.contains_key(k) ==> s.run(ops).rows[k] == s.rows[k],
        s.run(ops).saved_response(k) == s.saved_response(k),
        s.run(ops).claim_outcome(k) is Busy <==> s.claim_outcome(k) is Busy,
        s.claim_outcome(k) is Replay ==> s.run(ops).claim_outcome(k) == s.claim_outcome(k),
        s.run(ops).claim_outcome(k) is Replay ==> s.run(ops).claim_outcome(k) == s.claim_outcome(k),
        s.claim_outcome(k) is Start && s.run(ops).has_room() ==> s.run(ops).claim_outcome(k) is Start,
    decreases ops.len(),
{
    if ops.len() > 0 {
        let earlier = ops.drop_last();
        assert(none_on(earlier, k)) by {
            assert forall|i: int| 0 <= i < earlier.len() implies (#[trigger] earlier[i]).key() != k by {
                assert(earlier[i] == ops[i]);
            }
        }
        law_key_isolation(s, earlier, k);
        assert(ops[ops.len() - 1].key() != k);
    }
}

/// Caller isolation. What one caller does under a key leaves alone what
/// another caller has under the very same key.
pub proof fn law_caller_isolation(
    s: StoreState,
    ops: Seq<Operation>,
    caller: Seq<char>,
    other: Seq<char>,
    key: Seq<char>,
)
    requires
        caller != other,
        forall|i: int| 0 <= i < ops.len() ==> (#[trigger] ops[i]).key() == (caller, key),
    ensures
        s.run(ops).rows.contains_key((other, key)) <==> s.rows.contains_key((other, key)),
        s.run(ops).saved_response((other, key)) == s.saved_response((other, key)),
        s.run(ops).claim_outcome((other, key)) is Busy <==> s.claim_outcome((other, key)) is Busy,
        s.claim_outcome((other, key)) is Replay ==> s.run(ops).claim_outcome((other, key))
            == s.claim_outcome((other, key)),
        s.run(ops).claim_outcome((other, key)) is Replay ==> s.run(ops).claim_outcome(
            (other, key),
        ) == s.claim_outcome((other, key)),
        s.claim_outcome((other, key)) is Start && s.run(ops).has_room() ==> s.run(
            ops,
        ).claim_outcome((other, key)) is Start,
{
    law_key_isolation(s, ops, (other, key));
}

} // verus!
