//! A chat server and its client: the messages, their framing, the pool of user
//! identifiers, and the decisions that the reading and writing loops take.

pub mod client;
pub mod dispatch;
pub mod error;
pub mod id_pool;
pub mod incoming;
pub mod json;
pub mod message;
pub mod paket;
pub mod pakket;
pub mod server;
pub mod text;

pub use dispatch::Dispatch;
pub use error::ChatError;
pub use id_pool::{SharedIdPool, MAX_NUM_USERS};
pub use incoming::INCOMING_BUFFER_LEN;
pub use message::{Message, UserStatus};
pub use pakket::TcpPakket;

use vstd::prelude::*;

verus! {

/// Where the server listens.
pub const SERVER_ADDR: &'static str = "127.0.0.1:6440";

} // verus!
