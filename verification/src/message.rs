//! The message and its parts: class, method, transaction id and attributes.

pub mod attribute;
pub mod class;
pub mod message;
pub mod method;
pub mod transaction_id;
