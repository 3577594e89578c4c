//! A small remote procedure call core: the error model, method
//! identification and dispatch, and the two wire codecs (a length-framed
//! binary codec and a JSON envelope codec), written as functions on plain
//! values and bytes so that each step carries a checked contract.
//!
//! The transports hold their byte channel but do not read or write it:
//! their methods build the bytes to send and take apart the bytes
//! received, and the code that owns the channel moves the bytes.
pub mod bincode_codec;
pub mod channel;
pub mod error;
pub mod frame;
pub mod json_codec;
pub mod method;
pub mod server;

pub use bincode_codec::{BincodeTransport, VecReader};
pub use channel::ReadWrite;
pub use error::{
    channel_error, ChannelFault, DecodeFailure, GenericSerializableError, RPCError, RPCErrorKind,
};
pub use json_codec::{JRXState, JSONCodec, JSONTransport, JTXState, JsonTextStatus, JsonValue};
pub use method::{MethodId, MethodTable, PartialMethodId};
pub use server::{serve_step, serve_until_step, RPCServer, ServeStep};
