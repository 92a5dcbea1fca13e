//! The authentication layer's own value types and utilities: bearer
//! tokens, password hashing, one-time codes and profile creation data. The
//! relational rows these feed live with the driver that runs the queries.

pub mod password;
pub mod session;
pub mod user_session_list;
pub mod email_otp;
pub mod jwt;
pub mod user_profile;
