//! Running a handler under a claim: the side effect happens for the one
//! caller that takes the claim, and everybody after gets its response.

use super::caller::CallerId;
use super::key::IdempotencyKey;
use super::model::ClaimOutcome;
use super::persistence::{NextAction, PersistenceStore, StoreError, Transaction};
use super::response::SavedResponse;
use vstd::prelude::*;

verus! {

/// Why a request was not answered with a response.
#[derive(Debug)]
pub enum Failure<E> {
    /// The store did not let the request through.
    Store(StoreError),
    /// The handler ran and failed; its claim was given up.
    Handler(E),
}

/// Answers the request that `caller` filed under `key`. If nobody holds the
/// claim, `handler` runs under a new transaction; the response it returns is
/// saved and committed, and a failure it returns rolls the claim back, so
/// that the request can be tried again. If an earlier execution finished,
/// its response is the answer and `handler` does not run. If an execution is
/// in flight, nothing happens and the caller is told to come back.
pub fn execute<E, H: FnOnce(&Transaction) -> Result<SavedResponse, E>>(
    store: &mut PersistenceStore,
    caller: &CallerId,
    key: &IdempotencyKey,
    now: u64,
    handler: H,
) -> (r: Result<SavedResponse, Failure<E>>)
    requires
        forall|transaction: &Transaction| call_requires(handler, (transaction,)),
    ensures
        final(store)@.wf(),
        match old(store)@.claim_outcome((caller@, key@)) {
            ClaimOutcome::Start { transaction } => match r {
                Ok(response) => {
                    &&& final(store)@ == old(store)@.claim((caller@, key@), now).save(
                        (caller@, key@),
                        transaction,
                        response@,
                    )
                    &&& exists|t: &Transaction, made: SavedResponse|
                        t@ == transaction && made@ == response@ && call_ensures(
                            handler,
                            (t,),
                            Ok::<SavedResponse, E>(made),
                        )
                },
                Err(Failure::Handler(e)) => {
                    &&& final(store)@ == old(store)@.claim((caller@, key@), now).abort(
                        (caller@, key@),
                        transaction,
                    )
                    &&& final(store)@.rows == old(store)@.rows
                    &&& exists|t: &Transaction|
                        t@ == transaction && call_ensures(
                            handler,
                            (t,),
                            Err::<SavedResponse, E>(e),
                        )
                },
                Err(Failure::Store(_)) => false,
            },
            ClaimOutcome::Replay { response } => {
                &&& r matches Ok(replayed)
                &&& replayed@ == response
                &&& final(store)@ == old(store)@
            },
            ClaimOutcome::Busy => {
                &&& r matches Err(Failure::Store(StoreError::ConflictTimeout))
                &&& final(store)@ == old(store)@
            },
            ClaimOutcome::Exhausted => {
                &&& r matches Err(Failure::Store(StoreError::TransactionUnavailable))
                &&& final(store)@ == old(store)@
            },
        },
{
    match store.try_claim(caller, key, now) {
        Ok(NextAction::StartProcessing(transaction)) => {
            match handler(&transaction) {
                Ok(response) => {
                    let answer = response.clone();
                    match store.save_response(transaction, caller, key, response) {
                        Ok(()) => Ok(answer),
                        Err(e) => Err(Failure::Store(e)),
                    }
                },
                Err(e) => {
                    match store.abort(transaction, caller, key) {
                        Ok(()) => {
                            assert(store@.rows =~= old(store)@.rows);
                            Err(Failure::Handler(e))
                        },
                        Err(e) => Err(Failure::Store(e)),
                    }
                },
            }
        },
        Ok(NextAction::ReturnSavedResponse(response)) => Ok(response),
        Err(e) => Err(Failure::Store(e)),
    }
}

} // verus!
