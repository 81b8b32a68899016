use zero2prod::idempotency::{
    CallerId, IdempotencyKey, PersistenceStore, SavedResponse, Transaction, ValidationError,
};
use zero2prod::routes::admin::password::{
    acceptable_new_password, answer, change_password, claimed, notice_of, reject_anonymous_users,
    Action, Claimed, CredentialsOutcome, Event, FormData, Notice, NoticeLevel, Reply,
    SessionOutcome, Stage,
};

fn form(current: &str, new: &str, check: &str, key: &str) -> FormData {
    FormData {
        current_password: current.to_string(),
        new_password: new.to_string(),
        new_password_check: check.to_string(),
        idempotency_key: key.to_string(),
    }
}

fn valid_form() -> FormData {
    form("the-old-password", "a-new-password", "a-new-password", "abc-123")
}

const USER: u128 = 0x1234_5678_9abc_def0_1234_5678_9abc_def0;

/// Whether `action` orders the answer with `notice` to be saved under the
/// pair of the valid form.
fn saves_under_the_pair(action: Action, notice: Notice) -> bool {
    match action {
        Action::SaveResponse { caller, key, response } => {
            caller == CallerId::of_user(USER) && key.as_str() == "abc-123" && response == answer(notice)
        }
        _ => false,
    }
}

/// The users on the other side of the handler: one user, with a name and a
/// password, and a count of how often the password was stored.
struct Users {
    password: String,
    stores: u32,
    fail_storing: bool,
}

impl Users {
    fn new() -> Users {
        Users { password: "the-old-password".to_string(), stores: 0, fail_storing: false }
    }
}

/// A request on its way: where it stands, what it does next, and the
/// transaction of its claim if it holds one.
struct Request {
    form: FormData,
    stage: Stage,
    action: Action,
    held: Option<Transaction>,
}

impl Request {
    fn arrive(form: FormData, session: SessionOutcome) -> Request {
        let (stage, action) = change_password(&form, Stage::Session, Event::Session(session));
        Request { form, stage, action, held: None }
    }

    /// Does what the request was told, and hands the result in. Gives the
    /// reply once the request is answered.
    fn step(mut self, store: &mut PersistenceStore, users: &mut Users) -> Result<Reply, Request> {
        let event = match self.action {
            Action::Respond(reply) => return Ok(reply),
            Action::Claim { caller, key } => {
                let (event, transaction) = claimed(store.try_claim(&caller, &key, 0));
                self.held = transaction;
                Event::Claim(event)
            }
            Action::FetchUsername(user_id) => {
                assert_eq!(user_id, USER);
                Event::Username(Some("admin".to_string()))
            }
            Action::ValidateCredentials { username, password } => {
                assert_eq!(username, "admin");
                Event::Credentials(if password == users.password {
                    CredentialsOutcome::Valid
                } else {
                    CredentialsOutcome::Invalid
                })
            }
            Action::StorePassword { user_id, new_password } => {
                assert_eq!(user_id, USER);
                if users.fail_storing {
                    Event::Stored(false)
                } else {
                    users.password = new_password;
                    users.stores += 1;
                    Event::Stored(true)
                }
            }
            Action::SaveResponse { caller, key, response } => {
                let transaction = self.held.take().unwrap();
                Event::Saved(store.save_response(transaction, &caller, &key, response).is_ok())
            }
            Action::Abort { caller, key } => {
                let transaction = self.held.take().unwrap();
                store.abort(transaction, &caller, &key).unwrap();
                Event::Aborted
            }
        };
        let (stage, action) = change_password(&self.form, self.stage, event);
        Err(Request { form: self.form, stage, action, held: self.held })
    }

    fn finish(self, store: &mut PersistenceStore, users: &mut Users) -> Reply {
        let mut request = self;
        loop {
            match request.step(store, users) {
                Ok(reply) => return reply,
                Err(next) => request = next,
            }
        }
    }
}

#[test]
fn an_anonymous_user_is_sent_to_the_login_page() {
    assert_eq!(reject_anonymous_users(SessionOutcome::Anonymous), Err(Reply::Login));
    assert_eq!(reject_anonymous_users(SessionOutcome::Failed), Err(Reply::ServerError));
    assert_eq!(reject_anonymous_users(SessionOutcome::User(USER)), Ok(USER));
    assert_eq!(Reply::Login.location(), Some("/login"));
    assert_eq!(Reply::Login.reason(), Some("The user has not logged in."));
    assert_eq!(Reply::Login.status_code(), 303);

    let mut store = PersistenceStore::new();
    let mut users = Users::new();
    let reply = Request::arrive(valid_form(), SessionOutcome::Anonymous).finish(&mut store, &mut users);
    assert_eq!(reply, Reply::Login);
    assert!(store.record(&CallerId::of_user(USER), &IdempotencyKey::parse("abc-123".to_string()).unwrap()).is_none());
}

#[test]
fn an_invalid_key_ends_the_request_before_any_work() {
    let cases = [
        ("", ValidationError::Empty),
        ("abc\n123", ValidationError::UnsafeCharacter),
    ];
    for (key, error) in cases {
        let form = form("the-old-password", "a-new-password", "a-new-password", key);
        let (stage, action) =
            change_password(&form, Stage::Session, Event::Session(SessionOutcome::User(USER)));
        assert_eq!(stage, Stage::Done);
        assert!(matches!(action, Action::Respond(Reply::BadRequest(e)) if e == error));
    }
    let long = "k".repeat(300);
    let form = form("the-old-password", "a-new-password", "a-new-password", &long);
    let (_, action) =
        change_password(&form, Stage::Session, Event::Session(SessionOutcome::User(USER)));
    assert!(matches!(action, Action::Respond(Reply::BadRequest(ValidationError::TooLong))));
    assert_eq!(Reply::BadRequest(ValidationError::Empty).status_code(), 400);
    assert_eq!(Reply::BadRequest(ValidationError::Empty).location(), None);
}

#[test]
fn a_logged_in_user_with_a_valid_key_claims_the_request() {
    let (stage, action) =
        change_password(&valid_form(), Stage::Session, Event::Session(SessionOutcome::User(USER)));
    assert_eq!(stage, Stage::Claim(USER));
    match action {
        Action::Claim { caller, key } => {
            assert_eq!(caller, CallerId::of_user(USER));
            assert_eq!(caller.as_str(), "123456789abcdef0123456789abcdef0");
            assert_eq!(key.as_str(), "abc-123");
        }
        _ => panic!("the request was not told to claim"),
    }
}

#[test]
fn two_different_new_passwords_are_refused() {
    let form = form("old", "a-new-password", "another-password", "abc-123");
    assert_eq!(acceptable_new_password(&form), Some(Notice::PasswordsDiffer));
    let (stage, action) = change_password(&form, Stage::Claim(USER), Event::Claim(Claimed::Start));
    assert_eq!(stage, Stage::Saving(USER, Notice::PasswordsDiffer));
    assert!(saves_under_the_pair(action, Notice::PasswordsDiffer));
    assert_eq!(
        Notice::PasswordsDiffer.text(),
        "You entered two different new passwords - the field values must match."
    );
    assert_eq!(Notice::PasswordsDiffer.level(), NoticeLevel::Error);
}

#[test]
fn a_new_password_must_have_12_to_129_bytes() {
    for (length, accepted) in [(0, false), (11, false), (12, true), (129, true), (130, false)] {
        let password = "p".repeat(length);
        let form = form("old", &password, &password, "abc-123");
        let expected = if accepted { None } else { Some(Notice::PasswordLength) };
        assert_eq!(acceptable_new_password(&form), expected, "length {}", length);
    }
    // Six characters of two bytes each are twelve bytes.
    let form = form("old", "éééééé", "éééééé", "abc-123");
    assert_eq!(acceptable_new_password(&form), None);
    assert_eq!(
        Notice::PasswordLength.text(),
        "The password must have 12 to 129 characters."
    );
}

#[test]
fn a_mismatch_is_reported_before_the_length() {
    let form = form("old", "short", "other", "abc-123");
    assert_eq!(acceptable_new_password(&form), Some(Notice::PasswordsDiffer));
}

#[test]
fn an_answer_is_a_redirect_that_carries_its_notice() {
    for notice in [
        Notice::PasswordsDiffer,
        Notice::PasswordLength,
        Notice::WrongCurrentPassword,
        Notice::PasswordChanged,
    ] {
        let response = answer(notice);
        assert_eq!(response.status_code(), 303);
        assert_eq!(response.headers().len(), 1);
        assert_eq!(response.headers()[0].name, "location");
        assert_eq!(response.headers()[0].value, b"/admin/password".to_vec());
        assert_eq!(response.body().as_slice(), notice.text().as_bytes());
        assert_eq!(notice_of(&response), Some(notice));
    }
    let other = SavedResponse::new(200, Vec::new(), b"something else".to_vec()).unwrap();
    assert_eq!(notice_of(&other), None);
    assert_eq!(Notice::PasswordChanged.text(), "Your password has been changed.");
    assert_eq!(Notice::PasswordChanged.level(), NoticeLevel::Info);
    assert_eq!(Notice::WrongCurrentPassword.text(), "The current password is incorrect.");
    assert_eq!(Notice::WrongCurrentPassword.level(), NoticeLevel::Error);
}

#[test]
fn a_valid_request_changes_the_password_and_saves_its_answer() {
    let form = valid_form();
    let (stage, action) = change_password(&form, Stage::Claim(USER), Event::Claim(Claimed::Start));
    assert_eq!(stage, Stage::Username(USER));
    assert!(matches!(action, Action::FetchUsername(USER)));

    let (stage, action) = change_password(&form, stage, Event::Username(Some("admin".to_string())));
    assert_eq!(stage, Stage::Credentials(USER));
    match action {
        Action::ValidateCredentials { username, password } => {
            assert_eq!(username, "admin");
            assert_eq!(password, "the-old-password");
        }
        _ => panic!("the request was not told to check the password"),
    }

    let (stage, action) =
        change_password(&form, stage, Event::Credentials(CredentialsOutcome::Valid));
    assert_eq!(stage, Stage::Storing(USER));
    match action {
        Action::StorePassword { user_id, new_password } => {
            assert_eq!(user_id, USER);
            assert_eq!(new_password, "a-new-password");
        }
        _ => panic!("the request was not told to store the password"),
    }

    let (stage, action) = change_password(&form, stage, Event::Stored(true));
    assert_eq!(stage, Stage::Saving(USER, Notice::PasswordChanged));
    assert!(saves_under_the_pair(action, Notice::PasswordChanged));

    let (stage, action) = change_password(&form, stage, Event::Saved(true));
    assert_eq!(stage, Stage::Done);
    assert!(matches!(
        action,
        Action::Respond(Reply::Answer(r)) if r == answer(Notice::PasswordChanged)
    ));
}

#[test]
fn a_wrong_current_password_is_saved_as_the_answer() {
    let form = valid_form();
    let (stage, action) = change_password(
        &form,
        Stage::Credentials(USER),
        Event::Credentials(CredentialsOutcome::Invalid),
    );
    assert_eq!(stage, Stage::Saving(USER, Notice::WrongCurrentPassword));
    assert!(saves_under_the_pair(action, Notice::WrongCurrentPassword));
}

#[test]
fn a_replayed_answer_is_the_only_thing_a_duplicate_is_told() {
    let saved = SavedResponse::new(
        303,
        vec![zero2prod::idempotency::HeaderPair {
            name: "location".to_string(),
            value: b"/elsewhere".to_vec(),
        }],
        vec![0, 1, 2, 255],
    )
    .unwrap();
    // The form does not matter: not even an unacceptable one is looked at.
    for form in [valid_form(), form("x", "short", "other", "abc-123")] {
        let (stage, action) = change_password(
            &form,
            Stage::Claim(USER),
            Event::Claim(Claimed::Replay(saved.clone())),
        );
        assert_eq!(stage, Stage::Done);
        assert!(matches!(action, Action::Respond(Reply::Answer(r)) if r == saved));
    }
    assert_eq!(Reply::Answer(saved).status_code(), 303);
}

#[test]
fn a_claim_in_flight_elsewhere_tells_the_caller_to_come_back() {
    let (stage, action) =
        change_password(&valid_form(), Stage::Claim(USER), Event::Claim(Claimed::Busy));
    assert_eq!(stage, Stage::Done);
    assert!(matches!(action, Action::Respond(Reply::RetryLater)));
    assert_eq!(Reply::RetryLater.status_code(), 409);
    assert_eq!(Reply::RetryLater.reason(), Some("The request is being processed."));

    let (stage, action) =
        change_password(&valid_form(), Stage::Claim(USER), Event::Claim(Claimed::Failed));
    assert_eq!(stage, Stage::Done);
    assert!(matches!(action, Action::Respond(Reply::ServerError)));
    assert_eq!(Reply::ServerError.status_code(), 500);
}

#[test]
fn a_failure_under_the_claim_gives_the_claim_up() {
    let form = valid_form();
    let failures = [
        (Stage::Username(USER), Event::Username(None)),
        (Stage::Credentials(USER), Event::Credentials(CredentialsOutcome::Failed)),
        (Stage::Storing(USER), Event::Stored(false)),
        (Stage::Saving(USER, Notice::PasswordChanged), Event::Saved(false)),
        (Stage::Username(USER), Event::Stored(true)),
        (Stage::Storing(USER), Event::Credentials(CredentialsOutcome::Valid)),
    ];
    for (stage, event) in failures {
        let (stage, action) = change_password(&form, stage, event);
        assert_eq!(stage, Stage::Aborting(USER));
        match action {
            Action::Abort { caller, key } => {
                assert_eq!(caller, CallerId::of_user(USER));
                assert_eq!(key.as_str(), "abc-123");
            }
            _ => panic!("the request was not told to give its claim up"),
        }
        let (stage, action) = change_password(&form, stage, Event::Aborted);
        assert_eq!(stage, Stage::Done);
        assert!(matches!(action, Action::Respond(Reply::ServerError)));
    }
}

#[test]
fn a_failure_without_a_claim_is_answered_at_once() {
    let form = valid_form();
    let failures = [
        (Stage::Session, Event::Session(SessionOutcome::Failed)),
        (Stage::Session, Event::Claim(Claimed::Start)),
        (Stage::Claim(USER), Event::Stored(true)),
        (Stage::Done, Event::Stored(true)),
        (Stage::Done, Event::Claim(Claimed::Start)),
        (Stage::Aborting(USER), Event::Saved(true)),
    ];
    for (stage, event) in failures {
        let (stage, action) = change_password(&form, stage, event);
        assert_eq!(stage, Stage::Done);
        assert!(matches!(action, Action::Respond(Reply::ServerError)));
    }
}

#[test]
fn a_duplicate_in_sequence_is_answered_alike_and_stores_nothing() {
    let mut store = PersistenceStore::new();
    let mut users = Users::new();
    let first =
        Request::arrive(valid_form(), SessionOutcome::User(USER)).finish(&mut store, &mut users);
    assert_eq!(first, Reply::Answer(answer(Notice::PasswordChanged)));
    assert_eq!(users.stores, 1);
    assert_eq!(users.password, "a-new-password");

    // The current password of the form is the old one by now; the duplicate
    // is answered from the store all the same.
    let second =
        Request::arrive(valid_form(), SessionOutcome::User(USER)).finish(&mut store, &mut users);
    assert_eq!(second, first);
    assert_eq!(users.stores, 1);
    let key = IdempotencyKey::parse("abc-123".to_string()).unwrap();
    assert_eq!(
        store.get_saved_response(&CallerId::of_user(USER), &key),
        Some(answer(Notice::PasswordChanged))
    );
}

#[test]
fn two_racing_duplicates_store_once_and_are_answered_alike() {
    let mut store = PersistenceStore::new();
    let mut users = Users::new();
    let mut first = Request::arrive(valid_form(), SessionOutcome::User(USER));
    // The first request takes the claim and looks up the user.
    for _ in 0..2 {
        first = first.step(&mut store, &mut users).err().unwrap();
    }
    assert_eq!(first.stage, Stage::Credentials(USER));

    // The second arrives now, and is told to come back.
    let second =
        Request::arrive(valid_form(), SessionOutcome::User(USER)).finish(&mut store, &mut users);
    assert_eq!(second, Reply::RetryLater);
    assert_eq!(users.stores, 0);

    let first = first.finish(&mut store, &mut users);
    let second =
        Request::arrive(valid_form(), SessionOutcome::User(USER)).finish(&mut store, &mut users);
    assert_eq!(users.stores, 1);
    assert_eq!(first, second);
    match (first, second) {
        (Reply::Answer(a), Reply::Answer(b)) => {
            assert_eq!(a.status_code(), b.status_code());
            assert_eq!(a.headers(), b.headers());
            assert_eq!(a.body(), b.body());
        }
        _ => panic!("a request was not answered with the saved answer"),
    }
}

#[test]
fn a_request_that_failed_can_be_tried_again() {
    let mut store = PersistenceStore::new();
    let mut users = Users::new();
    users.fail_storing = true;
    let failed =
        Request::arrive(valid_form(), SessionOutcome::User(USER)).finish(&mut store, &mut users);
    assert_eq!(failed, Reply::ServerError);
    assert_eq!(users.stores, 0);
    let key = IdempotencyKey::parse("abc-123".to_string()).unwrap();
    assert!(store.record(&CallerId::of_user(USER), &key).is_none());

    users.fail_storing = false;
    let retried =
        Request::arrive(valid_form(), SessionOutcome::User(USER)).finish(&mut store, &mut users);
    assert_eq!(retried, Reply::Answer(answer(Notice::PasswordChanged)));
    assert_eq!(users.stores, 1);
}

#[test]
fn another_key_and_another_user_are_processed_on_their_own() {
    let mut store = PersistenceStore::new();
    let mut users = Users::new();
    let mut in_flight = Request::arrive(valid_form(), SessionOutcome::User(USER));
    in_flight = in_flight.step(&mut store, &mut users).err().unwrap();
    assert_eq!(in_flight.stage, Stage::Username(USER));

    // The same user under another key neither waits nor is answered from
    // the request in flight.
    let other_key = form("a-wrong-password", "a-new-password", "a-new-password", "abc-124");
    let reply = Request::arrive(other_key, SessionOutcome::User(USER)).finish(&mut store, &mut users);
    assert_eq!(reply, Reply::Answer(answer(Notice::WrongCurrentPassword)));

    // Another user under the same key takes a claim of their own.
    let other_user = Request::arrive(valid_form(), SessionOutcome::User(USER + 1))
        .step(&mut store, &mut users)
        .err()
        .unwrap();
    assert_eq!(other_user.stage, Stage::Username(USER + 1));

    let reply = in_flight.finish(&mut store, &mut users);
    assert_eq!(reply, Reply::Answer(answer(Notice::PasswordChanged)));
    assert_eq!(users.stores, 1);
}

#[test]
fn a_stage_past_the_key_met_with_an_invalid_key_ends_the_request() {
    let form = form("the-old-password", "a-new-password", "a-new-password", "");
    let cases = [
        (Stage::Claim(USER), Event::Claim(Claimed::Start)),
        (Stage::Username(USER), Event::Username(Some("admin".to_string()))),
        (Stage::Credentials(USER), Event::Credentials(CredentialsOutcome::Valid)),
        (Stage::Storing(USER), Event::Stored(true)),
        (Stage::Saving(USER, Notice::PasswordChanged), Event::Saved(true)),
    ];
    for (stage, event) in cases {
        let (stage, action) = change_password(&form, stage, event);
        assert_eq!(stage, Stage::Done);
        assert!(matches!(action, Action::Respond(Reply::ServerError)));
    }
}
