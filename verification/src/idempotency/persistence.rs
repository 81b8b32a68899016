//! The store of claims: who may process a request, and what is replayed to
//! those who come after.

use super::caller::CallerId;
use super::key::IdempotencyKey;
use super::model::{ClaimOutcome, Row, RowKey, StoreState};
use super::response::{ResponseView, SavedResponse};
use vstd::prelude::*;

verus! {

/// Why the store did not do what it was asked.
#[derive(Debug, Clone, Copy, PartialEq, Eq, Structural)]
pub enum StoreError {
    /// Another execution holds the claim and has not finished; the request
    /// may be tried again later.
    ConflictTimeout,
    /// No transaction could be opened.
    TransactionUnavailable,
    /// The transaction holds no claim under the caller and key it was
    /// presented with.
    UnknownTransaction,
    /// The claim was reported as taken, but no response was found under it.
    MissingResponse,
}

/// An open transaction that holds a claim. It cannot be copied: whoever has
/// it is the one execution that may save a response or give the claim up.
#[derive(Debug)]
pub struct Transaction {
    id: u64,
}

impl View for Transaction {
    type V = u64;

    closed spec fn view(&self) -> u64 {
        self.id
    }
}

impl Transaction {
    /// The number of the transaction.
    pub fn id(&self) -> (id: u64)
        ensures
            id == self@,
    {
        self.id
    }
}

/// What a caller does after an attempt to claim: process under the open
/// transaction `T`, or replay what an earlier execution saved.
#[derive(Debug)]
pub enum NextAction<T> {
    StartProcessing(T),
    ReturnSavedResponse(SavedResponse),
}

/// The response of an optional snapshot, as a mathematical value.
pub open spec fn response_view(response: Option<SavedResponse>) -> Option<ResponseView> {
    match response {
        Some(r) => Some(r@),
        None => None,
    }
}

/// A persisted claim: who took it, under which key, when, under which
/// transaction, and the response once the execution has finished.
#[derive(Debug)]
pub struct ProcessingRecord {
    caller: CallerId,
    key: IdempotencyKey,
    created_at: u64,
    transaction: u64,
    response: Option<SavedResponse>,
}

impl ProcessingRecord {
    /// What the record is filed under.
    pub closed spec fn row_key(&self) -> RowKey {
        (self.caller@, self.key@)
    }

    /// What the record holds.
    pub closed spec fn row(&self) -> Row {
        Row {
            created_at: self.created_at,
            transaction: self.transaction,
            response: response_view(self.response),
        }
    }

    /// The caller who took the claim.
    pub fn caller(&self) -> (caller: &CallerId)
        ensures
            caller@ == self.row_key().0,
    {
        &self.caller
    }

    /// The key under which the claim was taken.
    pub fn key(&self) -> (key: &IdempotencyKey)
        ensures
            key@ == self.row_key().1,
    {
        &self.key
    }

    /// When the claim was taken.
    pub fn created_at(&self) -> (at: u64)
        ensures
            at == self.row().created_at,
    {
        self.created_at
    }

    /// The saved response, once the execution has finished.
    pub fn response(&self) -> (response: &Option<SavedResponse>)
        ensures
            response_view(*response) == self.row().response,
    {
        &self.response
    }
}

/// Whether a record is filed under `k`.
spec fn has_key(records: Seq<ProcessingRecord>, k: RowKey) -> bool {
    exists|i: int| 0 <= i < records.len() && (#[trigger] records[i]).row_key() == k
}

/// The place of a record filed under `k`.
spec fn index_of(records: Seq<ProcessingRecord>, k: RowKey) -> int {
    choose|i: int| 0 <= i < records.len() && (#[trigger] records[i]).row_key() == k
}

/// No two records are filed under the same caller and key.
spec fn distinct_keys(records: Seq<ProcessingRecord>) -> bool {
    forall|i: int, j: int|
        0 <= i < records.len() && 0 <= j < records.len() && i != j ==> (#[trigger] records[i]).row_key()
            != (#[trigger] records[j]).row_key()
}

/// The rows that a list of records stands for.
spec fn rows_of(records: Seq<ProcessingRecord>) -> Map<RowKey, Row> {
    Map::new(|k: RowKey| has_key(records, k), |k: RowKey| records[index_of(records, k)].row())
}

/// With distinct keys, the record at place `i` is the row under its key.
proof fn lemma_rows_at(records: Seq<ProcessingRecord>, i: int)
    requires
        distinct_keys(records),
        0 <= i < records.len(),
    ensures
        rows_of(records).contains_key(records[i].row_key()),
        rows_of(records)[records[i].row_key()] == records[i].row(),
{
    let k = records[i].row_key();
    assert(has_key(records, k));
    let j = index_of(records, k);
    assert(j == i);
}

/// Without a record under `k`, there is no row under `k`.
proof fn lemma_rows_absent(records: Seq<ProcessingRecord>, k: RowKey)
    requires
        forall|i: int| 0 <= i < records.len() ==> (#[trigger] records[i]).row_key() != k,
    ensures
        !rows_of(records).contains_key(k),
{
}

/// Appending a record under a new key inserts its row.
proof fn lemma_rows_push(records: Seq<ProcessingRecord>, record: ProcessingRecord)
    requires
        distinct_keys(records),
        !rows_of(records).contains_key(record.row_key()),
    ensures
        distinct_keys(records.push(record)),
        rows_of(records.push(record)) == rows_of(records).insert(record.row_key(), record.row()),
{
    let after = records.push(record);
    assert forall|i: int| 0 <= i < records.len() implies (#[trigger] records[i]).row_key()
        != record.row_key() by {
        if records[i].row_key() == record.row_key() {
            assert(has_key(records, record.row_key()));
        }
    }
    assert(distinct_keys(after));
    assert forall|k: RowKey| #[trigger]
        rows_of(after).contains_key(k) <==> rows_of(records).insert(
            record.row_key(),
            record.row(),
        ).contains_key(k) by {
        if has_key(after, k) {
            let i = index_of(after, k);
            if i < records.len() {
                assert(records[i].row_key() == k);
                assert(has_key(records, k));
            }
        }
        if has_key(records, k) {
            let i = index_of(records, k);
            assert(after[i].row_key() == k);
        }
        if k == record.row_key() {
            assert(after[records.len() as int].row_key() == k);
        }
    }
    assert forall|k: RowKey| #[trigger] rows_of(after).contains_key(k) implies rows_of(after)[k]
        == rows_of(records).insert(record.row_key(), record.row())[k] by {
        let i = index_of(after, k);
        lemma_rows_at(after, i);
        if i < records.len() {
            lemma_rows_at(records, i);
        }
    }
    assert(rows_of(after) =~= rows_of(records).insert(record.row_key(), record.row()));
}

/// Moving the last record into place `i` and dropping the tail removes the
/// row that stood at `i`.
proof fn lemma_rows_swap_remove(records: Seq<ProcessingRecord>, i: int)
    requires
        distinct_keys(records),
        0 <= i < records.len(),
    ensures
        distinct_keys(records.update(i, records.last()).drop_last()),
        rows_of(records.update(i, records.last()).drop_last()) == rows_of(records).remove(
            records[i].row_key(),
        ),
{
    let after = records.update(i, records.last()).drop_last();
    let last = records.len() - 1;
    let gone = records[i].row_key();
    assert forall|j: int| 0 <= j < after.len() implies #[trigger] after[j] == records[if j == i {
        last
    } else {
        j
    }] by {}
    assert(distinct_keys(after)) by {
        assert forall|a: int, b: int|
            0 <= a < after.len() && 0 <= b < after.len() && a != b implies (#[trigger] after[a]).row_key()
            != (#[trigger] after[b]).row_key() by {
            let a0 = if a == i { last } else { a };
            let b0 = if b == i { last } else { b };
            assert(after[a] == records[a0]);
            assert(after[b] == records[b0]);
            assert(a0 != b0);
        }
    }
    assert forall|k: RowKey| #[trigger]
        rows_of(after).contains_key(k) <==> rows_of(records).remove(gone).contains_key(k) by {
        if has_key(after, k) {
            let j = index_of(after, k);
            let j0 = if j == i { last } else { j };
            assert(after[j] == records[j0]);
            assert(records[j0].row_key() == k);
            assert(has_key(records, k));
            assert(j0 != i);
            assert(k != gone);
        }
        if has_key(records, k) && k != gone {
            let j = index_of(records, k);
            assert(j != i);
            if j == last {
                assert(after[i] == records[last]);
                assert(after[i].row_key() == k);
            } else {
                assert(after[j] == records[j]);
                assert(after[j].row_key() == k);
            }
        }
    }
    assert forall|k: RowKey| #[trigger] rows_of(after).contains_key(k) implies rows_of(after)[k]
        == rows_of(records).remove(gone)[k] by {
        let j = index_of(after, k);
        let j0 = if j == i { last } else { j };
        assert(after[j] == records[j0]);
        lemma_rows_at(after, j);
        lemma_rows_at(records, j0);
    }
    assert(rows_of(after) =~= rows_of(records).remove(gone));
}

/// The store of claims, held in memory. Each method is one atomic step:
/// callers that run side by side reach the store one at a time, in some order.
///
/// A claim is filed under caller and key and nothing else. Requests of
/// different kinds that could meet under one key need a store each, or a key
/// that names the kind.
#[derive(Debug)]
pub struct PersistenceStore {
    records: Vec<ProcessingRecord>,
    next_transaction: u64,
}

impl View for PersistenceStore {
    type V = StoreState;

    closed spec fn view(&self) -> StoreState {
        StoreState { rows: rows_of(self.records@), next_transaction: self.next_transaction }
    }
}

impl PersistenceStore {
    #[verifier::type_invariant]
    spec fn well_formed(&self) -> bool {
        &&& distinct_keys(self.records@)
        &&& forall|i: int|
            0 <= i < self.records.len() ==> (#[trigger] self.records[i]).transaction
                < self.next_transaction
    }

    /// The view of a well-formed store is a well-formed state.
    proof fn lemma_view_wf(&self)
        requires
            self.well_formed(),
        ensures
            self@.wf(),
    {
        assert forall|k: RowKey| #[trigger] self@.rows.contains_key(k) implies self@.rows[k].transaction
            < self@.next_transaction by {
            let i = index_of(self.records@, k);
            lemma_rows_at(self.records@, i);
        }
    }

    /// A store without claims.
    pub fn new() -> (store: PersistenceStore)
        ensures
            store@ == StoreState::empty(),
            store@.wf(),
    {
        PersistenceStore::starting_at(0)
    }

    /// A store without claims whose transactions are numbered from `first`
    /// on; `u64::MAX - first` of them can be opened.
    pub fn starting_at(first: u64) -> (store: PersistenceStore)
        ensures
            store@ == (StoreState { rows: Map::empty(), next_transaction: first }),
            store@.wf(),
    {
        let store = PersistenceStore { records: Vec::new(), next_transaction: first };
        assert(store@.rows =~= Map::empty());
        store
    }

    /// Takes the records out of the store, leaving none behind.
    fn take_records(&mut self) -> (records: Vec<ProcessingRecord>)
        ensures
            records@ == old(self).records@,
            final(self).records@.len() == 0,
            final(self).next_transaction == old(self).next_transaction,
    {
        let mut records: Vec<ProcessingRecord> = Vec::new();
        std::mem::swap(&mut self.records, &mut records);
        records
    }

    /// Puts `records` in the place of those that the store holds.
    fn put_records(&mut self, records: Vec<ProcessingRecord>)
        requires
            distinct_keys(records@),
            forall|i: int|
                0 <= i < records.len() ==> (#[trigger] records[i]).transaction < old(
                    self,
                ).next_transaction,
        ensures
            final(self).records@ == records@,
            final(self).next_transaction == old(self).next_transaction,
    {
        let mut records = records;
        std::mem::swap(&mut self.records, &mut records);
    }

    /// The place of the record filed under `caller` and `key`.
    fn find(&self, caller: &CallerId, key: &IdempotencyKey) -> (place: Option<usize>)
        ensures
            match place {
                Some(i) => i < self.records.len() && self.records[i as int].row_key() == (
                    caller@,
                    key@,
                ),
                None => forall|i: int|
                    0 <= i < self.records.len() ==> (#[trigger] self.records[i]).row_key() != (
                        caller@,
                        key@,
                    ),
            },
    {
        let mut i: usize = 0;
        while i < self.records.len()
            invariant
                i <= self.records.len(),
                forall|j: int|
                    0 <= j < i ==> (#[trigger] self.records[j]).row_key() != (caller@, key@),
            decreases self.records.len() - i,
        {
            if self.records[i].caller.same(caller) && self.records[i].key.same(key) {
                return Some(i);
            }
            i += 1;
        }
        None
    }

    /// Attempts to claim the request that `caller` filed under `key`, at time
    /// `now`. If nobody holds the claim, it is taken under a new transaction
    /// and the caller is told to process. If an earlier execution finished,
    /// its response is handed out for replay. If an execution is in flight,
    /// the attempt ends with `ConflictTimeout` and changes nothing.
    pub fn try_claim(&mut self, caller: &CallerId, key: &IdempotencyKey, now: u64) -> (r: Result<
        NextAction<Transaction>,
        StoreError,
    >)
        ensures
            final(self)@ == old(self)@.claim((caller@, key@), now),
            final(self)@.wf(),
            match r {
                Ok(NextAction::StartProcessing(transaction)) => old(self)@.claim_outcome(
                    (caller@, key@),
                ) == (ClaimOutcome::Start { transaction: transaction@ }),
                Ok(NextAction::ReturnSavedResponse(response)) => old(self)@.claim_outcome(
                    (caller@, key@),
                ) == (ClaimOutcome::Replay { response: response@ }),
                Err(StoreError::ConflictTimeout) => old(self)@.claim_outcome((caller@, key@))
                    == ClaimOutcome::Busy,
                Err(StoreError::TransactionUnavailable) => old(self)@.claim_outcome(
                    (caller@, key@),
                ) == ClaimOutcome::Exhausted,
                Err(_) => false,
            },
    {
        proof {
            use_type_invariant(&*self);
            self.lemma_view_wf();
        }
        match self.find(caller, key) {
            Some(i) => {
                proof {
                    lemma_rows_at(self.records@, i as int);
                }
                match &self.records[i].response {
                    Some(response) => Ok(NextAction::ReturnSavedResponse(response.clone())),
                    None => Err(StoreError::ConflictTimeout),
                }
            },
            None => {
                proof {
                    lemma_rows_absent(self.records@, (caller@, key@));
                }
                if self.next_transaction == u64::MAX {
                    return Err(StoreError::TransactionUnavailable);
                }
                let id = self.next_transaction;
                let record = ProcessingRecord {
                    caller: caller.clone(),
                    key: key.clone(),
                    created_at: now,
                    transaction: id,
                    response: None,
                };
                proof {
                    lemma_rows_push(self.records@, record);
                }
                let mut records = self.take_records();
                records.push(record);
                self.next_transaction = id + 1;
                self.put_records(records);
                proof {
                    use_type_invariant(&*self);
                    self.lemma_view_wf();
                }
                Ok(NextAction::StartProcessing(Transaction { id }))
            },
        }
    }

    /// The place of the claim that `transaction` holds under `caller` and
    /// `key`, if it holds it and the execution is still in flight.
    fn find_owned(&self, transaction: &Transaction, caller: &CallerId, key: &IdempotencyKey) -> (place:
        Option<usize>)
        ensures
            place is Some <==> self@.owns((caller@, key@), transaction@),
            place matches Some(i) ==> i < self.records.len() && self.records[i as int].row_key()
                == (caller@, key@),
    {
        proof {
            use_type_invariant(self);
        }
        match self.find(caller, key) {
            Some(i) => {
                proof {
                    lemma_rows_at(self.records@, i as int);
                }
                if self.records[i].transaction == transaction.id
                    && self.records[i].response.is_none() {
                    Some(i)
                } else {
                    None
                }
            },
            None => {
                proof {
                    lemma_rows_absent(self.records@, (caller@, key@));
                }
                None
            },
        }
    }

    /// Saves `response` under the claim that `transaction` holds for `caller`
    /// and `key`, and commits. From then on the response is what every
    /// attempt to claim gets. A transaction that does not hold that claim
    /// saves nothing.
    pub fn save_response(
        &mut self,
        transaction: Transaction,
        caller: &CallerId,
        key: &IdempotencyKey,
        response: SavedResponse,
    ) -> (r: Result<(), StoreError>)
        ensures
            final(self)@ == old(self)@.save((caller@, key@), transaction@, response@),
            final(self)@.wf(),
            r is Ok <==> old(self)@.owns((caller@, key@), transaction@),
            r matches Err(e) ==> e == StoreError::UnknownTransaction,
    {
        proof {
            use_type_invariant(&*self);
            self.lemma_view_wf();
        }
        match self.find_owned(&transaction, caller, key) {
            Some(i) => {
                let ghost before = self.records@;
                let mut records = self.take_records();
                let claimed = records.swap_remove(i);
                let record = ProcessingRecord {
                    caller: claimed.caller,
                    key: claimed.key,
                    created_at: claimed.created_at,
                    transaction: claimed.transaction,
                    response: Some(response),
                };
                proof {
                    lemma_rows_at(before, i as int);
                    lemma_rows_swap_remove(before, i as int);
                    lemma_rows_push(records@, record);
                    assert(rows_of(before).remove(record.row_key()).insert(
                        record.row_key(),
                        record.row(),
                    ) =~= rows_of(before).insert(record.row_key(), record.row()));
                }
                records.push(record);
                self.put_records(records);
                proof {
                    use_type_invariant(&*self);
                    self.lemma_view_wf();
                }
                Ok(())
            },
            None => Err(StoreError::UnknownTransaction),
        }
    }

    /// Rolls `transaction` back: the claim it holds for `caller` and `key` is
    /// gone, as if it had never been taken, and the request can be claimed
    /// again. A transaction that does not hold that claim changes nothing.
    pub fn abort(&mut self, transaction: Transaction, caller: &CallerId, key: &IdempotencyKey) -> (r:
        Result<(), StoreError>)
        ensures
            final(self)@ == old(self)@.abort((caller@, key@), transaction@),
            final(self)@.wf(),
            r is Ok <==> old(self)@.owns((caller@, key@), transaction@),
            r matches Err(e) ==> e == StoreError::UnknownTransaction,
    {
        proof {
            use_type_invariant(&*self);
            self.lemma_view_wf();
        }
        match self.find_owned(&transaction, caller, key) {
            Some(i) => {
                let ghost before = self.records@;
                let mut records = self.take_records();
                let _ = records.swap_remove(i);
                proof {
                    lemma_rows_swap_remove(before, i as int);
                }
                self.put_records(records);
                proof {
                    use_type_invariant(&*self);
                    self.lemma_view_wf();
                }
                Ok(())
            },
            None => Err(StoreError::UnknownTransaction),
        }
    }

    /// Looks up the response saved for `caller` under `key`. It is there once
    /// the execution has finished, and not before.
    pub fn get_saved_response(&self, caller: &CallerId, key: &IdempotencyKey) -> (r: Option<
        SavedResponse,
    >)
        ensures
            response_view(r) == self@.saved_response((caller@, key@)),
    {
        proof {
            use_type_invariant(self);
        }
        match self.find(caller, key) {
            Some(i) => {
                proof {
                    lemma_rows_at(self.records@, i as int);
                }
                match &self.records[i].response {
                    Some(response) => Some(response.clone()),
                    None => None,
                }
            },
            None => {
                proof {
                    lemma_rows_absent(self.records@, (caller@, key@));
                }
                None
            },
        }
    }

    /// Looks up the claim of `caller` under `key`, finished or in flight.
    pub fn record(&self, caller: &CallerId, key: &IdempotencyKey) -> (r: Option<&ProcessingRecord>)
        ensures
            r is Some <==> self@.rows.contains_key((caller@, key@)),
            r matches Some(record) ==> record.row_key() == (caller@, key@) && record.row()
                == self@.rows[(caller@, key@)],
    {
        proof {
            use_type_invariant(self);
        }
        match self.find(caller, key) {
            Some(i) => {
                proof {
                    lemma_rows_at(self.records@, i as int);
                }
                Some(&self.records[i])
            },
            None => {
                proof {
                    lemma_rows_absent(self.records@, (caller@, key@));
                }
                None
            },
        }
    }
}

/// Where an attempt to claim stands once the insert has been tried.
#[derive(Debug)]
pub enum ClaimStep<T> {
    /// The attempt is over.
    Resolved(NextAction<T>),
    /// A row was there already: the transaction is to be rolled back, and
    /// the saved response looked up.
    Conflict(T),
}

/// Decides what follows the insert of a claim under the open transaction
/// `transaction`, from the number of rows that the insert added. A row that
/// went in makes the caller the one that processes; none means that the claim
/// was taken before.
pub fn resolve_insert<T>(transaction: T, rows_inserted: u64) -> (step: ClaimStep<T>)
    ensures
        rows_inserted > 0 ==> step == ClaimStep::Resolved(NextAction::StartProcessing(transaction)),
        rows_inserted == 0 ==> step == ClaimStep::Conflict(transaction),
{
    if rows_inserted > 0 {
        ClaimStep::Resolved(NextAction::StartProcessing(transaction))
    } else {
        ClaimStep::Conflict(transaction)
    }
}

/// Decides what follows a conflict, from what the lookup of the saved
/// response found. A response is replayed; a claim without one, after the
/// store reported it as taken and finished, is an error of the store.
pub fn resolve_conflict<T>(saved: Option<SavedResponse>) -> (r: Result<NextAction<T>, StoreError>)
    ensures
        match saved {
            Some(response) => r == Ok::<NextAction<T>, StoreError>(
                NextAction::ReturnSavedResponse(response),
            ),
            None => r == Err::<NextAction<T>, StoreError>(StoreError::MissingResponse),
        },
{
    match saved {
        Some(response) => Ok(NextAction::ReturnSavedResponse(response)),
        None => Err(StoreError::MissingResponse),
    }
}

} // verus!
