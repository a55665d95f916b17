//! The ways an operation of the library can fail, and the message each
//! failure is reported with.

use vstd::prelude::*;
use vstd::string::*;
use crate::text::{decimal, natural_string};

verus! {

/// Why a transport-encoded payload could not be decoded.
#[derive(Clone, Copy, Debug, PartialEq, Eq, Structural)]
pub enum DecodeFault {
    /// A byte outside the alphabet, or misplaced padding, at `offset`.
    InvalidByte { offset: usize, byte: u8 },
    /// The number of symbols cannot be the length of an encoding.
    InvalidLength { length: usize },
    /// The last symbol, at `offset`, carries bits that would be discarded.
    InvalidLastSymbol { offset: usize, byte: u8 },
    /// Padding is missing or is not the canonical one.
    InvalidPadding,
}

/// Why the record store refused a change.
#[derive(Clone, Copy, Debug, PartialEq, Eq, Structural)]
pub enum StorageFault {
    /// A session was submitted for a client that the store does not hold.
    UnknownClient,
    /// Every identity or session number that fits the record has been given out.
    Exhausted,
    /// Persisted records do not make a well-formed store.
    Inconsistent,
}

/// A failure of one of the library's operations.
#[derive(Clone, Copy, Debug, PartialEq, Eq, Structural)]
pub enum RecordError {
    /// The store refused the change.
    Storage(StorageFault),
    /// A lookup of a single record found none.
    NotFound,
    /// An image payload is not valid base64.
    Decode(DecodeFault),
    /// An image-slot name is none of the four known ones.
    InvalidSlot,
}

impl DecodeFault {
    /// The message of this fault.
    pub open spec fn message_text(self) -> Seq<char> {
        match self {
            DecodeFault::InvalidByte { offset, byte } => "Invalid symbol "@ + decimal(byte as int)
                + ", offset "@ + decimal(offset as int) + "."@,
            DecodeFault::InvalidLength { length } => "Invalid input length: "@ + decimal(
                length as int,
            ),
            DecodeFault::InvalidLastSymbol { offset, byte } => "Invalid last symbol "@ + decimal(
                byte as int,
            ) + ", offset "@ + decimal(offset as int) + "."@,
            DecodeFault::InvalidPadding => "Invalid padding"@,
        }
    }

    /// Renders the message of this fault.
    pub fn message(&self) -> (message: String)
        ensures
            message@ == self.message_text(),
    {
        match *self {
            DecodeFault::InvalidByte { offset, byte } => {
                let mut message = String::from_str("Invalid symbol ");
                message.append(natural_string(byte as u64).as_str());
                message.append(", offset ");
                message.append(natural_string(offset as u64).as_str());
                message.append(".");
                message
            },
            DecodeFault::InvalidLength { length } => {
                let mut message = String::from_str("Invalid input length: ");
                message.append(natural_string(length as u64).as_str());
                message
            },
            DecodeFault::InvalidLastSymbol { offset, byte } => {
                let mut message = String::from_str("Invalid last symbol ");
                message.append(natural_string(byte as u64).as_str());
                message.append(", offset ");
                message.append(natural_string(offset as u64).as_str());
                message.append(".");
                message
            },
            DecodeFault::InvalidPadding => String::from_str("Invalid padding"),
        }
    }
}

impl StorageFault {
    /// The message of this fault.
    pub open spec fn message_text(self) -> Seq<char> {
        match self {
            StorageFault::UnknownClient => "The session's client does not exist"@,
            StorageFault::Exhausted => "No further record can be numbered"@,
            StorageFault::Inconsistent => "The stored records are inconsistent"@,
        }
    }

    /// Renders the message of this fault.
    pub fn message(&self) -> (message: String)
        ensures
            message@ == self.message_text(),
    {
        match *self {
            StorageFault::UnknownClient => String::from_str("The session's client does not exist"),
            StorageFault::Exhausted => String::from_str("No further record can be numbered"),
            StorageFault::Inconsistent => String::from_str("The stored records are inconsistent"),
        }
    }
}

impl RecordError {
    /// The message this failure is reported with.
    pub open spec fn message_text(self) -> Seq<char> {
        match self {
            RecordError::Storage(fault) => fault.message_text(),
            RecordError::NotFound => "Session not found"@,
            RecordError::Decode(fault) => fault.message_text(),
            RecordError::InvalidSlot => "Invalid image type"@,
        }
    }

    /// Renders the message this failure is reported with.
    pub fn message(&self) -> (message: String)
        ensures
            message@ == self.message_text(),
    {
        match *self {
            RecordError::Storage(fault) => fault.message(),
            RecordError::NotFound => String::from_str("Session not found"),
            RecordError::Decode(fault) => fault.message(),
            RecordError::InvalidSlot => String::from_str("Invalid image type"),
        }
    }
}

} // verus!
