//! The protocol's data types.
mod bool;
mod chat;
mod identifier;
mod nums;
mod option;
mod pair;
mod string;
mod uuid;
mod varint;
mod varlong;
mod vec;

pub use chat::Chat;
pub use identifier::Identifier;
pub use uuid::{lemma_uuid_eq, Uuid};
pub use varint::{lemma_varint_eq, varint_size, Varint};
pub use varlong::{lemma_varlong_eq, Varlong};
pub(crate) use string::string_from_utf8;

use vstd::prelude::*;

verus! {

/// The compression setting of a connection; `-1` means no compression.
pub struct Compression {
    pub threshold: i32,
}

impl Default for Compression {
    fn default() -> (r: Self)
        ensures
            r.threshold == -1,
    {
        Self { threshold: -1 }
    }
}

/// The protocol state a connection is in.
#[derive(Debug, Clone, Copy, PartialEq, Eq, Structural)]
pub enum State {
    Handshaking,
    Status,
    Login,
    Play,
}

/// Which way a packet travels.
#[derive(Debug, Clone, Copy, PartialEq, Eq, Structural)]
pub enum Direction {
    Clientbound,
    Serverbound,
}

} // verus!
