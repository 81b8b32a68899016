//! What holds of every request to change a password, alone and among its
//! duplicates.

use super::post::{
    answer_view, held_by, holds_claim, is_next_action, new_password_defect, next_stage,
    request_pair, saves, stage_after, Action, Claimed, CredentialsOutcome, Event, FormData,
    Reply, SessionOutcome, Stage, UserId,
};
use crate::idempotency::laws::{
    law_claim_after_save_replays, law_exactly_once, law_second_claim_does_not_start, no_abort_on,
};
use crate::idempotency::{
    is_valid_key, ClaimOutcome, NextAction, Operation, ResponseView, RowKey, SavedResponse,
    StoreError, StoreState, Transaction,
};
use vstd::prelude::*;

verus! {

/// The user that a stage is about, if it is about one.
pub open spec fn stage_user(stage: Stage) -> Option<UserId> {
    match stage {
        Stage::Claim(user_id) => Some(user_id),
        Stage::Username(user_id) => Some(user_id),
        Stage::Credentials(user_id) => Some(user_id),
        Stage::Storing(user_id) => Some(user_id),
        Stage::Saving(user_id, _) => Some(user_id),
        Stage::Aborting(user_id) => Some(user_id),
        _ => None,
    }
}

/// The request was told by the store to start: it stood waiting for its
/// claim, and the claim came back as taken.
pub open spec fn was_started(form: &FormData, events: Seq<Event>) -> bool {
    exists|j: int|
        0 <= j < events.len() && stage_after(form, events.take(j)) is Claim && #[trigger] events[j]
            == Event::Claim(Claimed::Start)
}

/// The request was told to store the new password at some step.
pub open spec fn told_to_store(form: &FormData, events: Seq<Event>) -> bool {
    exists|n: int|
        0 <= n < events.len() && next_stage(
            form,
            stage_after(form, events.take(n)),
            #[trigger] events[n],
        ) is Storing
}

/// Storing is what the handler is told exactly when the request moves on to
/// wait for it.
pub proof fn lemma_store_action_is_storing_stage(
    form: &FormData,
    stage: Stage,
    event: Event,
    action: Action,
)
    requires
        is_next_action(form, stage, event, action),
    ensures
        action is StorePassword <==> next_stage(form, stage, event) is Storing,
{
}

/// A stage is reached for good reason only. A stage that is about a user is
/// reached only with a valid key and after the session was found to be that
/// user's; a stage that holds the claim only after the store said start; the
/// lookups and the storing only with an acceptable new password; the storing
/// only after the current password was found valid.
pub proof fn lemma_stage_is_earned(form: &FormData, events: Seq<Event>)
    ensures
        stage_user(stage_after(form, events)) matches Some(user_id) ==> is_valid_key(
            form.idempotency_key@,
        ) && exists|i: int|
            0 <= i < events.len() && #[trigger] events[i] == Event::Session(
                SessionOutcome::User(user_id),
            ),
        holds_claim(stage_after(form, events)) ==> was_started(form, events),
        stage_after(form, events) is Username || stage_after(form, events) is Credentials
            || stage_after(form, events) is Storing ==> new_password_defect(form) is None,
        stage_after(form, events) is Storing ==> events.len() > 0 && events.last()
            == Event::Credentials(CredentialsOutcome::Valid),
    decreases events.len(),
{
    if events.len() > 0 {
        let earlier = events.drop_last();
        let last = events.len() - 1;
        lemma_stage_is_earned(form, earlier);
        assert(events[last] == events.last());
        match stage_user(stage_after(form, events)) {
            Some(user_id) => {
                if stage_user(stage_after(form, earlier)) == Some(user_id) {
                    let i = choose|i: int|
                        0 <= i < earlier.len() && #[trigger] earlier[i] == Event::Session(
                            SessionOutcome::User(user_id),
                        );
                    assert(events[i] == earlier[i]);
                }
            },
            None => {},
        }
        if holds_claim(stage_after(form, events)) {
            if holds_claim(stage_after(form, earlier)) {
                let j = choose|j: int|
                    0 <= j < earlier.len() && stage_after(form, earlier.take(j)) is Claim
                        && #[trigger] earlier[j] == Event::Claim(Claimed::Start);
                assert(events.take(j) =~= earlier.take(j));
                assert(events[j] == earlier[j]);
            } else {
                assert(events.take(last) =~= earlier);
                assert(stage_after(form, events.take(last)) is Claim);
                assert(events[last] == Event::Claim(Claimed::Start));
            }
        }
    }
}

/// The password is changed for good reason only. Whatever events are handed
/// in, in whatever order, the handler is told to store a password only if it
/// is the new password of the form, that password is acceptable, the key of
/// the form is valid, the session was found to be that of the user whose
/// password is stored, the store said that this request is the one to start,
/// and the check of the current password has just come back valid.
pub proof fn law_update_is_guarded(form: &FormData, events: Seq<Event>, action: Action)
    requires
        events.len() > 0,
        is_next_action(form, stage_after(form, events.drop_last()), events.last(), action),
        action is StorePassword,
    ensures
        action->new_password == form.new_password,
        new_password_defect(form) is None,
        is_valid_key(form.idempotency_key@),
        was_started(form, events.drop_last()),
        events.last() == Event::Credentials(CredentialsOutcome::Valid),
        exists|i: int|
            0 <= i < events.len() && #[trigger] events[i] == Event::Session(
                SessionOutcome::User(action->user_id),
            ),
{
    let earlier = events.drop_last();
    lemma_stage_is_earned(form, earlier);
    let user_id = action->user_id;
    let i = choose|i: int|
        0 <= i < earlier.len() && #[trigger] earlier[i] == Event::Session(
            SessionOutcome::User(user_id),
        );
    assert(events[i] == earlier[i]);
}

/// A duplicate is answered with the saved answer and nothing else. When the
/// store hands a request the answer that an earlier one saved, the request is
/// over: the only thing the handler is told is to respond with that very
/// answer, with its status code, its headers and its body.
pub proof fn law_replay_is_verbatim(
    form: &FormData,
    events: Seq<Event>,
    saved: SavedResponse,
    action: Action,
)
    requires
        stage_after(form, events) is Claim,
        is_next_action(form, stage_after(form, events), Event::Claim(Claimed::Replay(saved)), action),
    ensures
        action == Action::Respond(Reply::Answer(saved)),
        next_stage(form, stage_after(form, events), Event::Claim(Claimed::Replay(saved)))
            == Stage::Done,
{
    lemma_stage_is_earned(form, events);
}

/// A claim is never left hanging. While a request holds the claim it is not
/// answered, but for the one case that its answer has just been saved, and
/// then it is answered with what was saved. Whatever else ends its hold is
/// the order to give up the claim on the pair of the request.
pub proof fn law_claim_is_resolved(
    form: &FormData,
    events: Seq<Event>,
    event: Event,
    action: Action,
)
    requires
        holds_claim(stage_after(form, events)),
        is_next_action(form, stage_after(form, events), event, action),
    ensures
        action is Respond ==> stage_after(form, events) is Saving && event == Event::Saved(true),
        stage_after(form, events) is Saving && event == Event::Saved(true) ==> (
        action matches Action::Respond(Reply::Answer(response)) && response@ == answer_view(
            stage_after(form, events)->Saving_1,
        )),
        !holds_claim(next_stage(form, stage_after(form, events), event)) && !(action is Respond)
            ==> (action matches Action::Abort { caller, key } && (caller@, key@) == request_pair(
            form,
            held_by(stage_after(form, events))->0,
        )) && next_stage(form, stage_after(form, events), event) is Aborting,
{
    lemma_stage_is_earned(form, events);
}

/// The answer is saved before it is sent, under the pair that was claimed.
/// A request that did the work moves on to wait for the save with the order
/// to save its answer under its own caller and key, and it is answered only
/// from there, with the answer that it was told to save.
pub proof fn law_answer_is_saved_first(
    form: &FormData,
    events: Seq<Event>,
    event: Event,
    action: Action,
)
    requires
        is_next_action(form, stage_after(form, events), event, action),
        next_stage(form, stage_after(form, events), event) is Saving,
    ensures
        saves(
            form,
            next_stage(form, stage_after(form, events), event)->Saving_0,
            next_stage(form, stage_after(form, events), event)->Saving_1,
            action,
        ),
        stage_user(stage_after(form, events)) == Some(
            next_stage(form, stage_after(form, events), event)->Saving_0,
        ),
{
}

/// Whether an event of the claim is what a store in this state hands over.
pub open spec fn hands_over(event: Event, outcome: ClaimOutcome) -> bool {
    match event {
        Event::Claim(Claimed::Start) => outcome is Start,
        Event::Claim(Claimed::Replay(saved)) => outcome == (ClaimOutcome::Replay {
            response: saved@,
        }),
        Event::Claim(Claimed::Busy) => outcome is Busy,
        _ => true,
    }
}

/// The event made of the store's answer is what the store hands over. When
/// the in-memory store is asked and its answer is turned into an event by
/// `claimed`, the event tells the request what the state of the store was.
pub proof fn law_store_answer_is_handed_over(
    before: StoreState,
    k: RowKey,
    answer: Result<NextAction<Transaction>, StoreError>,
    event: Claimed,
)
    requires
        match answer {
            Ok(NextAction::StartProcessing(transaction)) => before.claim_outcome(k) == (
            ClaimOutcome::Start { transaction: transaction@ }),
            Ok(NextAction::ReturnSavedResponse(response)) => before.claim_outcome(k) == (
            ClaimOutcome::Replay { response: response@ }),
            Err(StoreError::ConflictTimeout) => before.claim_outcome(k) == ClaimOutcome::Busy,
            Err(StoreError::TransactionUnavailable) => before.claim_outcome(k)
                == ClaimOutcome::Exhausted,
            Err(_) => false,
        },
        event == match answer {
            Ok(NextAction::StartProcessing(_)) => Claimed::Start,
            Ok(NextAction::ReturnSavedResponse(saved)) => Claimed::Replay(saved),
            Err(StoreError::ConflictTimeout) => Claimed::Busy,
            Err(_) => Claimed::Failed,
        },
    ensures
        hands_over(Event::Claim(event), before.claim_outcome(k)),
{
}

/// The request made its attempt to claim at step `at` of the run `ops` from
/// `s`: that step is an attempt on `k`, `k` is the pair of the request, and
/// the event that the request was handed while it waited for the claim is
/// what the store answered at that step.
pub open spec fn claimed_at(
    s: StoreState,
    ops: Seq<Operation>,
    at: int,
    k: RowKey,
    form: &FormData,
    events: Seq<Event>,
) -> bool {
    &&& 0 <= at < ops.len()
    &&& ops[at] is Claim
    &&& ops[at].key() == k
    &&& forall|j: int|
        0 <= j < events.len() && stage_after(form, events.take(j)) is Claim ==> request_pair(
            form,
            stage_after(form, events.take(j))->Claim_0,
        ) == k && hands_over(#[trigger] events[j], s.run(ops.take(at)).claim_outcome(k))
}

/// A request that is told to store the password was handed a start by the
/// store at the step of its claim.
pub proof fn lemma_store_needs_start(
    s: StoreState,
    ops: Seq<Operation>,
    at: int,
    k: RowKey,
    form: &FormData,
    events: Seq<Event>,
)
    requires
        claimed_at(s, ops, at, k, form, events),
        told_to_store(form, events),
    ensures
        s.run(ops.take(at)).claim_outcome(k) is Start,
{
    let n = choose|n: int|
        0 <= n < events.len() && next_stage(
            form,
            stage_after(form, events.take(n)),
            #[trigger] events[n],
        ) is Storing;
    let upto = events.take(n + 1);
    assert(upto.drop_last() =~= events.take(n));
    assert(upto.last() == events[n]);
    lemma_stage_is_earned(form, upto);
    let j = choose|j: int|
        0 <= j < upto.len() && stage_after(form, upto.take(j)) is Claim && #[trigger] upto[j]
            == Event::Claim(Claimed::Start);
    assert(upto.take(j) =~= events.take(j));
    assert(events[j] == upto[j]);
}

/// One request stores. However the steps of any number of requests on one
/// caller and key interleave in the store, as long as no claim on the pair is
/// given up, no two of the requests are told to store the password: the store
/// tells one of them to start, and the others replay or wait.
pub proof fn law_one_request_stores(
    s: StoreState,
    ops: Seq<Operation>,
    k: RowKey,
    form_a: &FormData,
    events_a: Seq<Event>,
    at_a: int,
    form_b: &FormData,
    events_b: Seq<Event>,
    at_b: int,
)
    requires
        no_abort_on(ops, k),
        at_a != at_b,
        claimed_at(s, ops, at_a, k, form_a, events_a),
        claimed_at(s, ops, at_b, k, form_b, events_b),
    ensures
        !(told_to_store(form_a, events_a) && told_to_store(form_b, events_b)),
{
    if told_to_store(form_a, events_a) && told_to_store(form_b, events_b) {
        lemma_store_needs_start(s, ops, at_a, k, form_a, events_a);
        lemma_store_needs_start(s, ops, at_b, k, form_b, events_b);
        if at_a < at_b {
            law_second_claim_does_not_start(s, ops, k, at_a, at_b);
        } else {
            law_second_claim_does_not_start(s, ops, k, at_b, at_a);
        }
    }
}

/// One request is started. If the pair is unclaimed before the run, no claim
/// on it is given up, and a transaction can be opened for every step, then of
/// all the attempts that requests make on the pair, exactly one is told by
/// the store to start; by `law_one_request_stores` no other request stores.
pub proof fn law_one_request_is_started(
    s: StoreState,
    ops: Seq<Operation>,
    k: RowKey,
    form: &FormData,
    events: Seq<Event>,
    at: int,
)
    requires
        no_abort_on(ops, k),
        !s.rows.contains_key(k),
        s.next_transaction + ops.len() <= u64::MAX,
        claimed_at(s, ops, at, k, form, events),
    ensures
        s.starts(ops, k) == 1,
{
    law_exactly_once(s, ops, k);
}

/// A duplicate gets the first answer. If a request claims its pair at a step
/// of the run that comes after the step at which an earlier request saved
/// `response` under that pair, then whatever it is handed while it waits for
/// its claim ends it: it is never told to store a password, and if it is
/// answered with an answer at all, that answer is `response`, the same in
/// status code, headers and body.
pub proof fn law_duplicate_gets_first_answer(
    s: StoreState,
    ops: Seq<Operation>,
    k: RowKey,
    t: u64,
    response: ResponseView,
    saved_at: int,
    form: &FormData,
    events: Seq<Event>,
    at: int,
    j: int,
    action: Action,
)
    requires
        0 <= saved_at < at,
        ops[saved_at] == (Operation::Save { key: k, transaction: t, response }),
        s.run(ops.take(saved_at)).owns(k, t),
        claimed_at(s, ops, at, k, form, events),
        0 <= j < events.len(),
        stage_after(form, events.take(j)) is Claim,
        is_next_action(form, stage_after(form, events.take(j)), events[j], action),
    ensures
        !told_to_store(form, events),
        action is Respond,
        action matches Action::Respond(Reply::Answer(answered)) ==> answered@ == response,
        events[j] matches Event::Claim(Claimed::Replay(saved)) ==> action == Action::Respond(
            Reply::Answer(saved),
        ) && saved@ == response,
        !(events[j] == Event::Claim(Claimed::Start)),
        !(events[j] == Event::Claim(Claimed::Busy)),
{
    law_claim_after_save_replays(s, ops, k, t, response, saved_at, at);
    assert(hands_over(events[j], s.run(ops.take(at)).claim_outcome(k)));
    if told_to_store(form, events) {
        lemma_store_needs_start(s, ops, at, k, form, events);
    }
}

} // verus!
