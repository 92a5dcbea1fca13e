//! Building blocks for reliable backend services on top of a message broker:
//! a bounded resource pool, a closed error taxonomy with its status mapping,
//! broker topology declaration, a publish path with confirms, a consume path
//! with an acknowledgment policy, and a one-shot scheduler.

pub mod auth;
pub mod cron;
pub mod error;
pub mod message;
pub mod pool;
pub mod processor;
pub mod rabbitmq;
pub mod redis;

pub use error::Error;
