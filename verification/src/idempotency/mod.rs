//! Idempotent request handling: a caller that resubmits a request under the
//! same key observes the outcome of the first attempt, and the side effect
//! behind it runs at most once.
//!
//! A request is named by its caller and an [`IdempotencyKey`]. The
//! [`PersistenceStore`] holds one claim for each such pair. Whoever takes the
//! claim processes the request and saves a [`SavedResponse`] under it;
//! whoever comes after is handed that response. [`execute`] wraps a handler
//! in this protocol. The store is specified against the state machine
//! [`StoreState`], and [`laws`] proves what holds of every run of it.

mod caller;
pub mod codec;
mod execute;
mod key;
pub mod laws;
mod model;
mod persistence;
mod response;

pub use caller::{
    hex_digit, law_number_text_is_injective, lemma_number_text_len, number_text, CallerId,
};
pub use execute::{execute, Failure};
pub use key::{
    control_character, is_control, is_valid_key, key_defect, lemma_valid_iff_no_defect,
    IdempotencyKey, ValidationError, MAX_KEY_LENGTH,
};
pub use model::{ClaimOutcome, Operation, Row, RowKey, StoreState};
pub use persistence::{
    resolve_conflict, resolve_insert, response_view, ClaimStep, NextAction,
    PersistenceStore, ProcessingRecord, StoreError, Transaction,
};
pub use response::{
    copy_headers, headers_view, is_status_code, HeaderPair, ResponseError, ResponseView,
    SavedResponse, MAX_STATUS_CODE, MIN_STATUS_CODE,
};
