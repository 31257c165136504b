//! Binary record layer for a real-time multiplayer game protocol.
//!
//! The crate defines the player-state records exchanged between a game
//! server and its clients, together with a verified encode/decode contract
//! that turns each record into (and out of) a compact byte representation.
//! Every record implements the [`codec::Codec`] interface: an encoder that
//! appends the record's exact byte image to a buffer, a decoder that reads
//! it back, and a size query that predicts the encoded length without
//! performing the encode.

pub mod codec;
pub mod color;
pub mod fast_string;
pub mod meta;
pub mod player;
