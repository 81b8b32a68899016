//! Validated value objects of the subscription domain.

pub mod subscriber_name;

pub use subscriber_name::SubscriberName;
