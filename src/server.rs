//! Serving calls: the trait that a generated server implements, and the
//! decisions of its serve loops, which run one call after another on one
//! transport.
use vstd::prelude::*;

use crate::error::RPCError;

verus! {

/// A server for one transport: it reads one call, invokes the
/// implementation and sends the one response.
pub trait RPCServer {
    /// Serve a single RPC call.
    fn serve_single_call(&mut self) -> Result<(), RPCError>;
}

/// What a serve loop does after a call has been served.
#[derive(Debug)]
pub enum ServeStep {
    /// Serve the next call.
    Continue,
    /// Stop serving, with this result.
    Stop(Result<(), RPCError>),
}

/// Decision of a loop that serves until a condition, checked between calls
/// only, turns false: a failed call ends the loop with its error; after a
/// served call the loop goes on while `again` holds.
pub fn serve_until_step(outcome: Result<(), RPCError>, again: bool) -> (r: ServeStep)
    ensures
        outcome matches Err(e) ==> r == ServeStep::Stop(Err(e)),
        outcome is Ok && again ==> r is Continue,
        outcome is Ok && !again ==> r == ServeStep::Stop(Ok(())),
{
    match outcome {
        Err(e) => ServeStep::Stop(Err(e)),
        Ok(()) => if again {
            ServeStep::Continue
        } else {
            ServeStep::Stop(Ok(()))
        },
    }
}

/// Decision of a loop that serves indefinitely: it ends only with the error
/// of a failed call, usually an end of stream once the client disconnects.
pub fn serve_step(outcome: Result<(), RPCError>) -> (r: ServeStep)
    ensures
        outcome matches Err(e) ==> r == ServeStep::Stop(Err(e)),
        outcome is Ok ==> r is Continue,
{
    serve_until_step(outcome, true)
}

} // verus!
