//! The store of claims as a mathematical state machine. The executable store
//! is specified against it, and the laws of the protocol are proved of it.

use super::response::ResponseView;
use vstd::prelude::*;

verus! {

/// What a claim is filed under: the caller's identity and the key.
pub type RowKey = (Seq<char>, Seq<char>);

/// One persisted claim.
pub struct Row {
    /// When the claim was taken.
    pub created_at: u64,
    /// The transaction that took the claim.
    pub transaction: u64,
    /// The response of the finished execution; absent while it is in flight.
    pub response: Option<ResponseView>,
}

/// How one attempt to claim ends.
pub enum ClaimOutcome {
    /// The claim was taken under a new transaction: the caller processes.
    Start { transaction: u64 },
    /// An earlier execution finished: the caller replays its response.
    Replay { response: ResponseView },
    /// Another execution holds the claim and has not finished: the caller
    /// waits until that transaction ends and tries again.
    Busy,
    /// No transaction can be opened any more.
    Exhausted,
}

/// The state of the store: its rows, and the number of the next transaction.
pub struct StoreState {
    pub rows: Map<RowKey, Row>,
    pub next_transaction: u64,
}

impl StoreState {
    /// The store without rows.
    pub open spec fn empty() -> StoreState {
        StoreState { rows: Map::empty(), next_transaction: 0 }
    }

    /// Every row was claimed by a transaction that has been opened.
    pub open spec fn wf(self) -> bool {
        forall|k: RowKey| #[trigger]
            self.rows.contains_key(k) ==> self.rows[k].transaction < self.next_transaction
    }

    /// Whether a claim on `k` is held by an execution that has not finished.
    pub open spec fn in_flight(self, k: RowKey) -> bool {
        self.rows.contains_key(k) && self.rows[k].response is None
    }

    /// Whether the execution under `k` has finished and left its response.
    pub open spec fn completed(self, k: RowKey) -> bool {
        self.rows.contains_key(k) && self.rows[k].response is Some
    }

    /// Whether transaction `t` holds the claim on `k`, still in flight.
    pub open spec fn owns(self, k: RowKey, t: u64) -> bool {
        self.in_flight(k) && self.rows[k].transaction == t
    }

    /// Whether a transaction can still be opened.
    pub open spec fn has_room(self) -> bool {
        self.next_transaction < u64::MAX
    }

    /// How an attempt to claim `k` ends in this state.
    pub open spec fn claim_outcome(self, k: RowKey) -> ClaimOutcome {
        if self.rows.contains_key(k) {
            match self.rows[k].response {
                Some(response) => ClaimOutcome::Replay { response },
                None => ClaimOutcome::Busy,
            }
        } else if self.has_room() {
            ClaimOutcome::Start { transaction: self.next_transaction }
        } else {
            ClaimOutcome::Exhausted
        }
    }

    /// The state after an attempt to claim `k` at time `now`: a row is
    /// inserted if there was none, and nothing changes otherwise.
    pub open spec fn claim(self, k: RowKey, now: u64) -> StoreState {
        if self.claim_outcome(k) is Start {
            StoreState {
                rows: self.rows.insert(
                    k,
                    Row { created_at: now, transaction: self.next_transaction, response: None },
                ),
                next_transaction: (self.next_transaction + 1) as u64,
            }
        } else {
            self
        }
    }

    /// The state after transaction `t` saves `response` under `k` and
    /// commits: the row gets its response if `t` holds the claim, and nothing
    /// changes otherwise.
    pub open spec fn save(self, k: RowKey, t: u64, response: ResponseView) -> StoreState {
        if self.owns(k, t) {
            StoreState {
                rows: self.rows.insert(
                    k,
                    Row {
                        created_at: self.rows[k].created_at,
                        transaction: t,
                        response: Some(response),
                    },
                ),
                next_transaction: self.next_transaction,
            }
        } else {
            self
        }
    }

    /// The state after transaction `t` is rolled back: its claim on `k` is
    /// gone if it held it, and nothing changes otherwise.
    pub open spec fn abort(self, k: RowKey, t: u64) -> StoreState {
        if self.owns(k, t) {
            StoreState { rows: self.rows.remove(k), next_transaction: self.next_transaction }
        } else {
            self
        }
    }

    /// The response saved under `k`, if the execution has finished.
    pub open spec fn saved_response(self, k: RowKey) -> Option<ResponseView> {
        if self.rows.contains_key(k) {
            self.rows[k].response
        } else {
            None
        }
    }
}

/// One atomic step on the store.
pub enum Operation {
    /// An attempt to claim `key` at time `now`.
    Claim { key: RowKey, now: u64 },
    /// Transaction `transaction` saves `response` under `key` and commits.
    Save { key: RowKey, transaction: u64, response: ResponseView },
    /// Transaction `transaction`, which claimed `key`, is rolled back.
    Abort { key: RowKey, transaction: u64 },
}

impl Operation {
    /// The caller and key that the step is about.
    pub open spec fn key(self) -> RowKey {
        match self {
            Operation::Claim { key, .. } => key,
            Operation::Save { key, .. } => key,
            Operation::Abort { key, .. } => key,
        }
    }

    /// Whether the step is transaction `t` saving under `k` or being rolled
    /// back on `k`.
    pub open spec fn ends(self, k: RowKey, t: u64) -> bool {
        match self {
            Operation::Claim { .. } => false,
            Operation::Save { key, transaction, .. } => key == k && transaction == t,
            Operation::Abort { key, transaction } => key == k && transaction == t,
        }
    }
}

impl StoreState {
    /// The state after one step.
    pub open spec fn step(self, op: Operation) -> StoreState {
        match op {
            Operation::Claim { key, now } => self.claim(key, now),
            Operation::Save { key, transaction, response } => self.save(
                key,
                transaction,
                response,
            ),
            Operation::Abort { key, transaction } => self.abort(key, transaction),
        }
    }

    /// The state after the steps of `ops`, taken in order. Steps of callers
    /// that run side by side are atomic, so every such run is some `ops`.
    pub open spec fn run(self, ops: Seq<Operation>) -> StoreState
        decreases ops.len(),
    {
        if ops.len() == 0 {
            self
        } else {
            self.run(ops.drop_last()).step(ops.last())
        }
    }

    /// How many steps of `ops` are attempts to claim `k` that are told to
    /// start processing.
    pub open spec fn starts(self, ops: Seq<Operation>, k: RowKey) -> nat
        decreases ops.len(),
    {
        if ops.len() == 0 {
            0
        } else {
            let before = self.run(ops.drop_last());
            let told_to_start = ops.last() is Claim && ops.last().key() == k
                && before.claim_outcome(k) is Start;
            self.starts(ops.drop_last(), k) + if told_to_start {
                1nat
            } else {
                0nat
            }
        }
    }
}

} // verus!
