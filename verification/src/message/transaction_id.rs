//! The 96-bit identifier that ties a response to its request.

use vstd::prelude::*;
use bytes::Bytes;
use rand::Rng;
use crate::buffer::{remaining, split_to, to_vec, unread};
use crate::error::Error;

verus! {

/// The number of bytes of a transaction id.
pub const TRANSACTION_ID_LENGTH: usize = 12;

/// A transaction id: twelve bytes, chosen at random by whoever sends a request
/// and echoed in the response. Two ids are equal where all twelve bytes are.
#[derive(Debug, Clone, Copy, PartialEq, Eq)]
pub struct TransactionId(pub [u8; 12]);

impl View for TransactionId {
    type V = Seq<u8>;

    open spec fn view(&self) -> Seq<u8> {
        self.0@
    }
}

/// `Rng::fill` on `rand::thread_rng()`: twelve bytes from the thread's
/// generator, a stream cipher seeded by the operating system. Nothing is
/// claimed of the bytes: two calls are unrelated.
#[verifier::external_body]
fn random_bytes() -> (bytes: [u8; 12]) {
    let mut transaction_id = [0u8; 12];
    rand::thread_rng().fill(&mut transaction_id[..]);
    transaction_id
}

impl TransactionId {
    /// A fresh id from a cryptographically strong random source. What the
    /// bytes are is open; only the length is fixed.
    pub fn new() -> (id: TransactionId)
        ensures
            id@.len() == TRANSACTION_ID_LENGTH,
    {
        TransactionId(TransactionId::random())
    }

    /// Twelve fresh random bytes.
    pub fn random() -> (bytes: [u8; 12])
        ensures
            bytes@.len() == TRANSACTION_ID_LENGTH,
    {
        random_bytes()
    }

    /// Takes the next twelve bytes of the buffer as a transaction id. Where
    /// fewer than twelve are left, the buffer is not touched and `TooShort` is
    /// returned.
    pub fn decode(buffer: &mut Bytes) -> (id: Result<TransactionId, Error>)
        ensures
            unread(*old(buffer)).len() < TRANSACTION_ID_LENGTH ==> {
                &&& id == Err::<TransactionId, Error>(Error::TooShort)
                &&& unread(*final(buffer)) == unread(*old(buffer))
            },
            unread(*old(buffer)).len() >= TRANSACTION_ID_LENGTH ==> {
                &&& id is Ok
                &&& id.unwrap()@ == unread(*old(buffer)).take(TRANSACTION_ID_LENGTH as int)
                &&& unread(*final(buffer)) == unread(*old(buffer)).skip(
                    TRANSACTION_ID_LENGTH as int,
                )
            },
    {
        if remaining(buffer) < TRANSACTION_ID_LENGTH {
            return Err(Error::TooShort);
        }
        let head = split_to(buffer, TRANSACTION_ID_LENGTH);
        let bytes = to_vec(&head);
        Ok(TransactionId::from_twelve(bytes.as_slice()))
    }

    /// The id whose bytes are those of the slice, or `None` where the slice
    /// does not hold exactly twelve bytes.
    pub fn from_slice(bytes: &[u8]) -> (id: Option<TransactionId>)
        ensures
            match id {
                Some(id) => id@ == bytes@,
                None => bytes@.len() != TRANSACTION_ID_LENGTH,
            },
    {
        if bytes.len() == TRANSACTION_ID_LENGTH {
            Some(TransactionId::from_twelve(bytes))
        } else {
            None
        }
    }

    fn from_twelve(bytes: &[u8]) -> (id: TransactionId)
        requires
            bytes@.len() == TRANSACTION_ID_LENGTH,
        ensures
            id@ == bytes@,
    {
        let array: [u8; 12] = [
            bytes[0],
            bytes[1],
            bytes[2],
            bytes[3],
            bytes[4],
            bytes[5],
            bytes[6],
            bytes[7],
            bytes[8],
            bytes[9],
            bytes[10],
            bytes[11],
        ];
        assert(array@ =~= bytes@);
        TransactionId(array)
    }

    /// The twelve bytes of the id.
    pub fn as_bytes(&self) -> (bytes: &[u8])
        ensures
            bytes@ == self@,
    {
        self.0.as_slice()
    }
}

} // verus!
