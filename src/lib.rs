//! Core of a message-bus broker: name ownership, signal matching, message
//! routing, reply tracking, the connection handshake and the wire codec.
pub mod address;
pub mod auth;
pub mod body;
pub mod bus;
pub mod bytes;
pub mod calls;
pub mod codec;
pub mod fields;
pub mod lifecycle;
pub mod matching;
pub mod message;
pub mod names;
pub mod outbound;
pub mod pending;
pub mod rules;
pub mod signature;
pub mod startup;
pub mod unique;
