//! The request handler: one request in, at most one change to the store,
//! exactly one response out.

use crate::message::{
    compare_response, done_response, error_response, Command, ProtocolError, Request, Response,
};
use crate::scan::{ComputeState, OpType};
use crate::store::{ComputeMap, Store};
use vstd::prelude::*;

verus! {

/// Starts a search for the largest or smallest of `length` elements.
pub fn start_scan(map: &mut ComputeMap, op: OpType, length: usize) -> (r: Response)
    ensures
        (final(map)@, r@) == old(map)@.start(op, length as nat),
        old(map)@.wf() ==> final(map)@.wf(),
{
    let state = match ComputeState::new(op, length) {
        Some(state) => state,
        None => {
            return error_response(ProtocolError::MalformedRequest);
        },
    };
    // handle case when list is of length 1
    if state.is_done() {
        return done_response(0);
    }
    match map.allocate_id() {
        Some(id) => {
            // send the first "compare" response with the initial set of
            // indices
            map.insert(id, state);
            compare_response(state.left(), state.right(), id)
        },
        None => error_response(ProtocolError::Internal),
    }
}

/// Folds the verdict on the last comparison into the search `request_id`.
pub fn fold_answer(map: &mut ComputeMap, request_id: u32, answer: bool) -> (r: Response)
    ensures
        (final(map)@, r@) == old(map)@.answer(request_id as nat, answer),
        old(map)@.wf() ==> final(map)@.wf(),
{
    // check to ensure that the comparison operation is a pre-existing one
    let mut state = match map.get(request_id) {
        Some(state) => state,
        None => {
            return error_response(ProtocolError::UnknownComputation);
        },
    };
    match state.advance(answer) {
        Ok(()) => {},
        Err(reason) => {
            return error_response(reason);
        },
    }
    // check if the computation has reached the end of the list; otherwise,
    // continue the computation by sending a "compare" response with the next
    // set of indices
    if state.is_done() {
        map.remove(request_id);
        done_response(state.left())
    } else {
        map.update(request_id, state);
        compare_response(state.left(), state.right(), request_id)
    }
}

/// Carries out a validated request.
pub fn execute(map: &mut ComputeMap, command: Command) -> (r: Response)
    ensures
        (final(map)@, r@) == old(map)@.step(command@),
        old(map)@.wf() ==> final(map)@.wf(),
{
    match command {
        Command::Start { op, length } => start_scan(map, op, length),
        Command::Answer { request_id, answer } => fold_answer(map, request_id, answer),
    }
}

/// Generates a response according to the type of `Request`. Receives a
/// `Request` as well as the map which stores the states of any in-progress
/// comparison operations.
///
/// A request that does not decode is turned down with the reason, and the
/// store stays as it was. One that decodes is carried out.
pub fn generate_response(req: Request, map: &mut ComputeMap) -> (r: Response)
    ensures
        (final(map)@, r@) == old(map)@.handle(req@),
        old(map)@.wf() ==> final(map)@.wf(),
{
    match req.decode() {
        Ok(command) => execute(map, command),
        Err(reason) => error_response(reason),
    }
}

/// Builds the state that the server manages from its launch on: an empty
/// store that has handed out no id.
pub fn rocket() -> (map: ComputeMap)
    ensures
        map@ == Store::empty(),
        map@.wf(),
{
    ComputeMap::new()
}

} // verus!
