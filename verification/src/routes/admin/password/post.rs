//! The decisions of the password form, one step at a time. The handler does
//! the outside work (it reads the session, asks the stores, answers the
//! browser) and hands each result in as an event; what to do next is decided
//! here.
//!
//! A request is processed under a claim on its caller and its idempotency
//! key. The one request that takes the claim does the work, and its answer is
//! saved under the claim before it is sent; every duplicate is answered with
//! that saved answer. A request that fails on the server's side gives its
//! claim up, so that it can be tried again.

use crate::idempotency::{
    is_valid_key, key_defect, number_text, CallerId, IdempotencyKey, NextAction, ResponseView,
    SavedResponse, StoreError, ValidationError,
};
use vstd::prelude::*;
use vstd::slice::slice_to_vec;
use vstd::utf8::{encode_utf8, encode_utf8_decode_utf8};

verus! {

/// The shortest new password accepted, in bytes.
pub const MIN_PASSWORD_LENGTH: usize = 12;

/// The longest new password accepted, in bytes.
pub const MAX_PASSWORD_LENGTH: usize = 129;

/// The identity of a user, as a number.
pub type UserId = u128;

/// What the form sends in: the passwords, and the key under which the
/// request is to be processed once.
pub struct FormData {
    pub current_password: String,
    pub new_password: String,
    pub new_password_check: String,
    pub idempotency_key: String,
}

/// How grave a notice is.
#[derive(Debug, Clone, Copy, PartialEq, Eq, Structural)]
pub enum NoticeLevel {
    Info,
    Error,
}

/// What the user is told on the page they are sent back to.
#[derive(Debug, Clone, Copy, PartialEq, Eq, Structural)]
pub enum Notice {
    PasswordsDiffer,
    PasswordLength,
    WrongCurrentPassword,
    PasswordChanged,
}

impl Notice {
    /// The words of the notice.
    pub open spec fn message(self) -> Seq<char> {
        match self {
            Notice::PasswordsDiffer => "You entered two different new passwords - the field values must match."@,
            Notice::PasswordLength => "The password must have 12 to 129 characters."@,
            Notice::WrongCurrentPassword => "The current password is incorrect."@,
            Notice::PasswordChanged => "Your password has been changed."@,
        }
    }

    /// The words of the notice.
    pub fn text(&self) -> (text: &'static str)
        ensures
            text@ == self.message(),
    {
        match self {
            Notice::PasswordsDiffer => "You entered two different new passwords - the field values must match.",
            Notice::PasswordLength => "The password must have 12 to 129 characters.",
            Notice::WrongCurrentPassword => "The current password is incorrect.",
            Notice::PasswordChanged => "Your password has been changed.",
        }
    }

    /// Every notice but that of success is an error.
    pub fn level(&self) -> (level: NoticeLevel)
        ensures
            level == if self == Notice::PasswordChanged {
                NoticeLevel::Info
            } else {
                NoticeLevel::Error
            },
    {
        match self {
            Notice::PasswordChanged => NoticeLevel::Info,
            _ => NoticeLevel::Error,
        }
    }
}

/// The answer that carries `notice`, as a mathematical value: a redirect
/// back to the form, with the words of the notice as its body.
pub open spec fn answer_view(notice: Notice) -> ResponseView {
    ResponseView {
        status_code: 303,
        headers: seq![("location"@, encode_utf8("/admin/password"@))],
        body: encode_utf8(notice.message()),
    }
}

/// The notice that a body carries, if it carries one.
pub open spec fn notice_in(body: Seq<u8>) -> Option<Notice> {
    if body == encode_utf8(Notice::PasswordsDiffer.message()) {
        Some(Notice::PasswordsDiffer)
    } else if body == encode_utf8(Notice::PasswordLength.message()) {
        Some(Notice::PasswordLength)
    } else if body == encode_utf8(Notice::WrongCurrentPassword.message()) {
        Some(Notice::WrongCurrentPassword)
    } else if body == encode_utf8(Notice::PasswordChanged.message()) {
        Some(Notice::PasswordChanged)
    } else {
        None
    }
}

/// The answer that carries `notice`.
pub fn answer(notice: Notice) -> (response: SavedResponse)
    ensures
        response@ == answer_view(notice),
{
    SavedResponse::see_other("/admin/password", slice_to_vec(notice.text().as_bytes()))
}

/// Tells whether two runs of bytes are the same.
fn same_bytes(a: &[u8], b: &[u8]) -> (same: bool)
    ensures
        same == (a@ == b@),
{
    if a.len() != b.len() {
        return false;
    }
    let mut i: usize = 0;
    while i < a.len()
        invariant
            i <= a.len() == b.len(),
            forall|j: int| 0 <= j < i ==> a@[j] == b@[j],
        decreases a.len() - i,
    {
        if a[i] != b[i] {
            return false;
        }
        i += 1;
    }
    assert(a@ =~= b@);
    true
}

/// Reads the notice back from an answer.
pub fn notice_of(response: &SavedResponse) -> (notice: Option<Notice>)
    ensures
        notice == notice_in(response@.body),
{
    let body = response.body().as_slice();
    if same_bytes(body, Notice::PasswordsDiffer.text().as_bytes()) {
        Some(Notice::PasswordsDiffer)
    } else if same_bytes(body, Notice::PasswordLength.text().as_bytes()) {
        Some(Notice::PasswordLength)
    } else if same_bytes(body, Notice::WrongCurrentPassword.text().as_bytes()) {
        Some(Notice::WrongCurrentPassword)
    } else if same_bytes(body, Notice::PasswordChanged.text().as_bytes()) {
        Some(Notice::PasswordChanged)
    } else {
        None
    }
}

/// An answer carries the notice it was made for, and no other.
pub proof fn law_notice_round_trip(notice: Notice)
    ensures
        notice_in(answer_view(notice).body) == Some(notice),
{
    reveal_strlit("You entered two different new passwords - the field values must match.");
    reveal_strlit("The password must have 12 to 129 characters.");
    reveal_strlit("The current password is incorrect.");
    reveal_strlit("Your password has been changed.");
    encode_utf8_decode_utf8(Notice::PasswordsDiffer.message());
    encode_utf8_decode_utf8(Notice::PasswordLength.message());
    encode_utf8_decode_utf8(Notice::WrongCurrentPassword.message());
    encode_utf8_decode_utf8(Notice::PasswordChanged.message());
}

/// How the request is answered.
#[derive(Debug, PartialEq, Eq)]
pub enum Reply {
    /// The user is not logged in: they are sent to the login page.
    Login,
    /// The idempotency key of the form is no key.
    BadRequest(ValidationError),
    /// The answer of the request that was processed under the claim: the
    /// same for the one that did the work and for every duplicate.
    Answer(SavedResponse),
    /// A duplicate is being processed and has not finished: the request may
    /// be sent again later.
    RetryLater,
    /// Something failed on the server's side.
    ServerError,
}

impl Reply {
    /// The status code of the reply.
    pub fn status_code(&self) -> (code: u16)
        ensures
            code == match self {
                Reply::Login => 303u16,
                Reply::BadRequest(_) => 400u16,
                Reply::Answer(response) => response@.status_code,
                Reply::RetryLater => 409u16,
                Reply::ServerError => 500u16,
            },
    {
        match self {
            Reply::Login => 303,
            Reply::BadRequest(_) => 400,
            Reply::Answer(response) => response.status_code(),
            Reply::RetryLater => 409,
            Reply::ServerError => 500,
        }
    }

    /// Where the login page is, if the reply sends the browser there.
    pub fn location(&self) -> (location: Option<&'static str>)
        ensures
            match self {
                Reply::Login => location matches Some(l) && l@ == "/login"@,
                _ => location is None,
            },
    {
        match self {
            Reply::Login => Some("/login"),
            _ => None,
        }
    }

    /// Why the request was not processed, in words, where the reply is a
    /// refusal.
    pub fn reason(&self) -> (reason: Option<&'static str>)
        ensures
            match self {
                Reply::Login => reason matches Some(r) && r@ == "The user has not logged in."@,
                Reply::BadRequest(_) => reason matches Some(r) && r@
                    == "The idempotency key is not valid."@,
                Reply::RetryLater => reason matches Some(r) && r@
                    == "The request is being processed."@,
                Reply::ServerError => reason matches Some(r) && r@
                    == "The request could not be handled."@,
                Reply::Answer(_) => reason is None,
            },
    {
        match self {
            Reply::Login => Some("The user has not logged in."),
            Reply::BadRequest(_) => Some("The idempotency key is not valid."),
            Reply::RetryLater => Some("The request is being processed."),
            Reply::ServerError => Some("The request could not be handled."),
            Reply::Answer(_) => None,
        }
    }
}

/// What reading the session gave.
#[derive(Debug, Clone, Copy, PartialEq, Eq, Structural)]
pub enum SessionOutcome {
    /// The session belongs to this user.
    User(UserId),
    /// Nobody is logged in.
    Anonymous,
    /// The session could not be read.
    Failed,
}

/// What the attempt to claim the request gave.
pub enum Claimed {
    /// The claim was taken: this request does the work.
    Start,
    /// An earlier request did the work and saved this answer.
    Replay(SavedResponse),
    /// Another request holds the claim and has not finished.
    Busy,
    /// The store failed.
    Failed,
}

/// What checking the current password gave.
#[derive(Debug, Clone, Copy, PartialEq, Eq, Structural)]
pub enum CredentialsOutcome {
    Valid,
    Invalid,
    Failed,
}

/// A result of outside work, handed in by the handler.
pub enum Event {
    /// The session was read.
    Session(SessionOutcome),
    /// The claim was attempted.
    Claim(Claimed),
    /// The user's name was looked up; `None` if the lookup failed.
    Username(Option<String>),
    /// The current password was checked.
    Credentials(CredentialsOutcome),
    /// The new password was stored, or storing it failed.
    Stored(bool),
    /// The answer was saved under the claim and committed, or saving failed.
    Saved(bool),
    /// The claim was given up.
    Aborted,
}

/// Where the handling of one request stands: what it is waiting for.
#[derive(Debug, Clone, Copy, PartialEq, Eq, Structural)]
pub enum Stage {
    /// Waiting for the session to be read.
    Session,
    /// Waiting for the attempt to claim the request.
    Claim(UserId),
    /// Holding the claim, waiting for the name of the user.
    Username(UserId),
    /// Holding the claim, waiting for the check of the current password.
    Credentials(UserId),
    /// Holding the claim, waiting for the new password to be stored.
    Storing(UserId),
    /// Holding the claim, waiting for the answer with this notice to be saved.
    Saving(UserId, Notice),
    /// Waiting for the claim to be given up.
    Aborting(UserId),
    /// The request was answered.
    Done,
}

/// What the handler is to do next.
pub enum Action {
    /// Attempt to claim the request of this caller under this key.
    Claim { caller: CallerId, key: IdempotencyKey },
    /// Look up the name of the user.
    FetchUsername(UserId),
    /// Check the current password of the user of that name.
    ValidateCredentials { username: String, password: String },
    /// Store the new password of the user.
    StorePassword { user_id: UserId, new_password: String },
    /// Save this answer under the claim of this caller and key, and commit.
    SaveResponse { caller: CallerId, key: IdempotencyKey, response: SavedResponse },
    /// Give the claim of this caller and key up.
    Abort { caller: CallerId, key: IdempotencyKey },
    /// Answer the request.
    Respond(Reply),
}

/// What is wrong with the new password of the form, if anything: its two
/// entries differ, or its length in bytes is out of bounds.
pub open spec fn new_password_defect(form: &FormData) -> Option<Notice> {
    let length = encode_utf8(form.new_password@).len();
    if form.new_password@ != form.new_password_check@ {
        Some(Notice::PasswordsDiffer)
    } else if length < MIN_PASSWORD_LENGTH || length > MAX_PASSWORD_LENGTH {
        Some(Notice::PasswordLength)
    } else {
        None
    }
}

/// Tells what is wrong with the new password of the form, if anything.
pub fn acceptable_new_password(form: &FormData) -> (defect: Option<Notice>)
    ensures
        defect == new_password_defect(form),
{
    let length = form.new_password.as_str().as_bytes().len();
    if !(form.new_password == form.new_password_check) {
        Some(Notice::PasswordsDiffer)
    } else if length < MIN_PASSWORD_LENGTH || length > MAX_PASSWORD_LENGTH {
        Some(Notice::PasswordLength)
    } else {
        None
    }
}

/// Lets a logged-in user through, and says how everybody else is answered:
/// the anonymous are sent to the login page, and a session that cannot be
/// read is an error of the server.
pub fn reject_anonymous_users(session: SessionOutcome) -> (r: Result<UserId, Reply>)
    ensures
        r == match session {
            SessionOutcome::User(user_id) => Ok::<UserId, Reply>(user_id),
            SessionOutcome::Anonymous => Err::<UserId, Reply>(Reply::Login),
            SessionOutcome::Failed => Err::<UserId, Reply>(Reply::ServerError),
        },
{
    match session {
        SessionOutcome::User(user_id) => Ok(user_id),
        SessionOutcome::Anonymous => Err(Reply::Login),
        SessionOutcome::Failed => Err(Reply::ServerError),
    }
}

/// The pair that the request of `user_id` with `form` is claimed under.
pub open spec fn request_pair(form: &FormData, user_id: UserId) -> (Seq<char>, Seq<char>) {
    (number_text(user_id as nat), form.idempotency_key@)
}

/// The user whose claim a request at `stage` holds, if it holds one.
pub open spec fn held_by(stage: Stage) -> Option<UserId> {
    match stage {
        Stage::Username(user_id) => Some(user_id),
        Stage::Credentials(user_id) => Some(user_id),
        Stage::Storing(user_id) => Some(user_id),
        Stage::Saving(user_id, _) => Some(user_id),
        _ => None,
    }
}

/// Whether a request at `stage` holds the claim.
pub open spec fn holds_claim(stage: Stage) -> bool {
    held_by(stage) is Some
}

/// Whether a request at `stage` has been through the check of its key.
pub open spec fn past_the_key(stage: Stage) -> bool {
    stage is Claim || holds_claim(stage)
}

/// The stage that a request moves to from `stage` when `event` comes in. An
/// event that the stage was not waiting for ends the request: with an error
/// at once if it holds no claim, and by giving the claim up if it holds one.
/// A stage past the check of the key that is met with a form whose key is
/// invalid is no stage of this request, and ends it.
pub open spec fn next_stage(form: &FormData, stage: Stage, event: Event) -> Stage {
    if past_the_key(stage) && !is_valid_key(form.idempotency_key@) {
        Stage::Done
    } else {
        match (stage, event) {
            (
                Stage::Session,
                Event::Session(SessionOutcome::User(user_id)),
            ) => if is_valid_key(form.idempotency_key@) {
                Stage::Claim(user_id)
            } else {
                Stage::Done
            },
            (Stage::Claim(user_id), Event::Claim(Claimed::Start)) => match new_password_defect(
                form,
            ) {
                Some(notice) => Stage::Saving(user_id, notice),
                None => Stage::Username(user_id),
            },
            (Stage::Username(user_id), Event::Username(Some(_))) => Stage::Credentials(user_id),
            (
                Stage::Credentials(user_id),
                Event::Credentials(CredentialsOutcome::Valid),
            ) => Stage::Storing(user_id),
            (
                Stage::Credentials(user_id),
                Event::Credentials(CredentialsOutcome::Invalid),
            ) => Stage::Saving(user_id, Notice::WrongCurrentPassword),
            (Stage::Storing(user_id), Event::Stored(true)) => Stage::Saving(
                user_id,
                Notice::PasswordChanged,
            ),
            (Stage::Saving(_, _), Event::Saved(true)) => Stage::Done,
            _ => match held_by(stage) {
                Some(user_id) => Stage::Aborting(user_id),
                None => Stage::Done,
            },
        }
    }
}

/// Whether `action` is the order to save an answer with `notice` under the
/// pair of the request.
pub open spec fn saves(form: &FormData, user_id: UserId, notice: Notice, action: Action) -> bool {
    action matches Action::SaveResponse { caller, key, response } && (caller@, key@)
        == request_pair(form, user_id) && response@ == answer_view(notice)
}

/// Whether `action` is what the handler is told to do when `event` comes in
/// at `stage`. Every case names one action; the caller, the key and the
/// answer in it are given by what they hold.
pub open spec fn is_next_action(form: &FormData, stage: Stage, event: Event, action: Action) -> bool {
    if past_the_key(stage) && !is_valid_key(form.idempotency_key@) {
        action == Action::Respond(Reply::ServerError)
    } else {
        match (stage, event) {
            (Stage::Session, Event::Session(SessionOutcome::User(user_id))) => match key_defect(
                form.idempotency_key@,
            ) {
                Some(e) => action == Action::Respond(Reply::BadRequest(e)),
                None => action matches Action::Claim { caller, key } && (caller@, key@)
                    == request_pair(form, user_id),
            },
            (Stage::Session, Event::Session(SessionOutcome::Anonymous)) => action
                == Action::Respond(Reply::Login),
            (Stage::Claim(user_id), Event::Claim(Claimed::Start)) => match new_password_defect(
                form,
            ) {
                Some(notice) => saves(form, user_id, notice, action),
                None => action == Action::FetchUsername(user_id),
            },
            (Stage::Claim(_), Event::Claim(Claimed::Replay(saved))) => action == Action::Respond(
                Reply::Answer(saved),
            ),
            (Stage::Claim(_), Event::Claim(Claimed::Busy)) => action == Action::Respond(
                Reply::RetryLater,
            ),
            (Stage::Username(_), Event::Username(Some(username))) => action
                == (Action::ValidateCredentials { username, password: form.current_password }),
            (Stage::Credentials(user_id), Event::Credentials(CredentialsOutcome::Valid)) => action
                == (Action::StorePassword { user_id, new_password: form.new_password }),
            (Stage::Credentials(user_id), Event::Credentials(CredentialsOutcome::Invalid)) => saves(
                form,
                user_id,
                Notice::WrongCurrentPassword,
                action,
            ),
            (Stage::Storing(user_id), Event::Stored(true)) => saves(
                form,
                user_id,
                Notice::PasswordChanged,
                action,
            ),
            (Stage::Saving(_, notice), Event::Saved(true)) => action matches Action::Respond(
                Reply::Answer(response),
            ) && response@ == answer_view(notice),
            _ => match held_by(stage) {
                Some(user_id) => action matches Action::Abort { caller, key } && (caller@, key@)
                    == request_pair(form, user_id),
                None => action == Action::Respond(Reply::ServerError),
            },
        }
    }
}

/// Takes one step of the handling of a request: from the stage it stands at
/// and the event that came in, to the stage it moves to and what the handler
/// does next. A request starts at `Stage::Session`, and is over once the
/// action is `Respond`.
pub fn change_password(form: &FormData, stage: Stage, event: Event) -> (r: (Stage, Action))
    ensures
        r.0 == next_stage(form, stage, event),
        is_next_action(form, stage, event, r.1),
{
    let parsed = IdempotencyKey::parse(form.idempotency_key.clone());
    match stage {
        Stage::Session => match event {
            Event::Session(session) => match reject_anonymous_users(session) {
                Ok(user_id) => match parsed {
                    Ok(key) => (
                        Stage::Claim(user_id),
                        Action::Claim { caller: CallerId::of_user(user_id), key },
                    ),
                    Err(e) => (Stage::Done, Action::Respond(Reply::BadRequest(e))),
                },
                Err(reply) => (Stage::Done, Action::Respond(reply)),
            },
            _ => (Stage::Done, Action::Respond(Reply::ServerError)),
        },
        Stage::Aborting(_) => (Stage::Done, Action::Respond(Reply::ServerError)),
        Stage::Done => (Stage::Done, Action::Respond(Reply::ServerError)),
        Stage::Claim(user_id) => match parsed {
            Err(_) => (Stage::Done, Action::Respond(Reply::ServerError)),
            Ok(key) => match event {
                Event::Claim(Claimed::Start) => match acceptable_new_password(form) {
                    Some(notice) => save(user_id, key, notice),
                    None => (Stage::Username(user_id), Action::FetchUsername(user_id)),
                },
                Event::Claim(Claimed::Replay(saved)) => (
                    Stage::Done,
                    Action::Respond(Reply::Answer(saved)),
                ),
                Event::Claim(Claimed::Busy) => (Stage::Done, Action::Respond(Reply::RetryLater)),
                _ => (Stage::Done, Action::Respond(Reply::ServerError)),
            },
        },
        Stage::Username(user_id) => match parsed {
            Err(_) => (Stage::Done, Action::Respond(Reply::ServerError)),
            Ok(key) => match event {
                Event::Username(Some(username)) => (
                    Stage::Credentials(user_id),
                    Action::ValidateCredentials {
                        username,
                        password: form.current_password.clone(),
                    },
                ),
                _ => abort(user_id, key),
            },
        },
        Stage::Credentials(user_id) => match parsed {
            Err(_) => (Stage::Done, Action::Respond(Reply::ServerError)),
            Ok(key) => match event {
                Event::Credentials(CredentialsOutcome::Valid) => (
                    Stage::Storing(user_id),
                    Action::StorePassword { user_id, new_password: form.new_password.clone() },
                ),
                Event::Credentials(CredentialsOutcome::Invalid) => save(
                    user_id,
                    key,
                    Notice::WrongCurrentPassword,
                ),
                _ => abort(user_id, key),
            },
        },
        Stage::Storing(user_id) => match parsed {
            Err(_) => (Stage::Done, Action::Respond(Reply::ServerError)),
            Ok(key) => match event {
                Event::Stored(true) => save(user_id, key, Notice::PasswordChanged),
                _ => abort(user_id, key),
            },
        },
        Stage::Saving(user_id, notice) => match parsed {
            Err(_) => (Stage::Done, Action::Respond(Reply::ServerError)),
            Ok(key) => match event {
                Event::Saved(true) => (
                    Stage::Done,
                    Action::Respond(Reply::Answer(answer(notice))),
                ),
                _ => abort(user_id, key),
            },
        },
    }
}

/// The step that orders the answer with `notice` to be saved under the claim
/// of `user_id` and `key`.
fn save(user_id: UserId, key: IdempotencyKey, notice: Notice) -> (r: (Stage, Action))
    ensures
        r.0 == Stage::Saving(user_id, notice),
        r.1 matches Action::SaveResponse { caller, key: under, response } && caller@
            == number_text(user_id as nat) && under@ == key@ && response@ == answer_view(notice),
{
    (
        Stage::Saving(user_id, notice),
        Action::SaveResponse { caller: CallerId::of_user(user_id), key, response: answer(notice) },
    )
}

/// The step that orders the claim of `user_id` and `key` to be given up.
fn abort(user_id: UserId, key: IdempotencyKey) -> (r: (Stage, Action))
    ensures
        r.0 == Stage::Aborting(user_id),
        r.1 matches Action::Abort { caller, key: under } && caller@ == number_text(user_id as nat)
            && under@ == key@,
{
    (Stage::Aborting(user_id), Action::Abort { caller: CallerId::of_user(user_id), key })
}

/// Turns what the store answered to the attempt to claim into the event for
/// the request, and keeps the open transaction, which only a start brings.
/// A claim in flight elsewhere is `Busy`; every other error of the store is
/// `Failed`.
pub fn claimed<T>(answer: Result<NextAction<T>, StoreError>) -> (r: (Claimed, Option<T>))
    ensures
        match answer {
            Ok(NextAction::StartProcessing(transaction)) => r == (
                Claimed::Start,
                Some(transaction),
            ),
            Ok(NextAction::ReturnSavedResponse(saved)) => r == (
                Claimed::Replay(saved),
                None::<T>,
            ),
            Err(StoreError::ConflictTimeout) => r == (Claimed::Busy, None::<T>),
            Err(_) => r == (Claimed::Failed, None::<T>),
        },
{
    match answer {
        Ok(NextAction::StartProcessing(transaction)) => (Claimed::Start, Some(transaction)),
        Ok(NextAction::ReturnSavedResponse(saved)) => (Claimed::Replay(saved), None),
        Err(StoreError::ConflictTimeout) => (Claimed::Busy, None),
        Err(_) => (Claimed::Failed, None),
    }
}

/// The stage that a request stands at after the events of `events`, handed
/// in one by one from the start.
pub open spec fn stage_after(form: &FormData, events: Seq<Event>) -> Stage
    decreases events.len(),
{
    if events.len() == 0 {
        Stage::Session
    } else {
        next_stage(form, stage_after(form, events.drop_last()), events.last())
    }
}

} // verus!
