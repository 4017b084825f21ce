//! A codec for STUN (RFC 5389) binding messages: the in-memory message, its exact
//! wire layout, and machine-checked contracts that tie the two together.

pub mod buffer;
pub mod error;
pub mod message;
pub mod server;
pub mod utils;

pub use crate::error::Error;
pub use crate::message::attribute::Attribute;
pub use crate::message::class::Class;
pub use crate::message::message::Message;
pub use crate::message::method::Method;
pub use crate::message::transaction_id::TransactionId;
pub use crate::utils::{Address, IPKind};
