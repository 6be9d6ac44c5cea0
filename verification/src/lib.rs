//! An encrypted, message-framed transport for TCP, without the sockets.
//!
//! Two peers negotiate a 256-bit key with RSA and then exchange messages
//! under AES-256-CBC, each in a frame behind a length prefix of four bytes.
//! This library holds every decision of that protocol and proves what it
//! decides. It never reads or writes a socket: its caller makes one attempt
//! at a time and hands over the outcome.
//!
//! - [`message`]: the typed fields of a message.
//! - [`endian`]: little-endian byte strings and the numbers they stand for.
//! - [`queue`]: the bytes that wait to be sent.
//! - [`frame`]: the frames on the wire, read in fragments and written in parts.
//! - [`stream`]: the handshake and the encryption of one connection.
//! - [`server`]: the key of a listener.
//! - [`utils`]: readiness events and deadlines.
//! - [`error`]: what can go wrong.
//! - [`crypto`]: what is taken on trust from OpenSSL and the random generator.

pub mod crypto;
pub mod endian;
pub mod error;
pub mod frame;
pub mod message;
pub mod queue;
pub mod server;
pub mod stream;
pub mod utils;

pub use error::Error;
pub use frame::{FrameReader, ReadOutcome, ReadProgress, WriteOutcome, MAX_FRAME_SIZE};
pub use message::{Message, MessageError};
pub use queue::DequeueBuffer;
pub use server::ServerKey;
pub use stream::{EncryptedStream, State};
