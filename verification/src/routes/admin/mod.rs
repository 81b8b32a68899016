//! Routes open to a logged-in administrator.

pub mod password;
