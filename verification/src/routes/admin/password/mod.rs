//! Changing the administrator's password.

pub mod laws;
mod post;

pub use post::{
    acceptable_new_password, answer, answer_view, change_password, claimed, held_by, holds_claim, is_next_action,
    law_notice_round_trip, new_password_defect, next_stage, notice_in, notice_of, past_the_key,
    reject_anonymous_users, request_pair, saves, stage_after, Action, Claimed, CredentialsOutcome, Event,
    FormData, Notice, NoticeLevel, Reply, SessionOutcome, Stage, UserId, MAX_PASSWORD_LENGTH,
    MIN_PASSWORD_LENGTH,
};
