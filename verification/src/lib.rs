//! The core of an in-memory key-value server that speaks the Redis wire
//! protocol, with the handshake by which a replica introduces itself to a
//! master.
//!
//! The library does no input or output and reads no clock. A caller hands
//! it the text it has read and the current time in milliseconds, and gets
//! back the bytes to write:
//!
//! - [`parser`] decodes the text of a request frame into a command;
//! - [`store`] holds the keys, each value with the instant at which it
//!   expires, if it does;
//! - [`execute`] carries a command out and says what is answered;
//! - [`reply`] and [`format`] turn answers and requests into frames;
//! - [`context`] holds the state of a server and takes the step that a
//!   session takes with each buffer it has read;
//! - [`handshake`] decides what a replica sends to its master and how it
//!   takes the replies;
//! - [`config`] reads the options of the command line;
//! - [`text`] and [`decimal`] split text into lines and read and write
//!   numbers;
//! - [`roundtrip`] and [`wire`] state what holds of encoding and decoding
//!   together, and of whole exchanges.
//!
//! Every function states what it returns and what it changes over plain
//! mathematical values: sequences of characters and of bytes, and, for the
//! store, a map from keys to entries.

pub mod config;
pub mod context;
pub mod decimal;
pub mod execute;
pub mod format;
pub mod handshake;
pub mod parser;
pub mod reply;
pub mod roundtrip;
pub mod store;
pub mod text;
pub mod wire;
