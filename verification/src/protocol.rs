//! The protocol as a transition function: what one request does to the
//! store, and what the server replies.

use crate::message::{lemma_types_distinct, Event, ProtocolError, Reply, RequestView};
use crate::scan::{lemma_advance_shrinks, OpType, Scan};
use crate::store::Store;
use vstd::prelude::*;

verus! {

impl Store {
    /// Starting a search over a list of `length` elements.
    ///
    /// A list of one element needs no comparison: the result is position 0
    /// and nothing is stored. A longer list gets the next id and a window
    /// over the whole list.
    pub open spec fn start(self, op: OpType, length: nat) -> (Store, Reply) {
        if length == 0 {
            (self, Reply::Error { reason: ProtocolError::MalformedRequest })
        } else if length == 1 {
            (self, Reply::Done { result: 0 })
        } else if self.last_id >= u32::MAX {
            (self, Reply::Error { reason: ProtocolError::Internal })
        } else {
            let id = self.last_id + 1;
            let scan = Scan::fresh(op, length);
            (
                Store { last_id: id, live: self.live.insert(id, scan) },
                Reply::Compare { left: scan.left, right: scan.right, id },
            )
        }
    }

    /// Folding one answer into the search running under `id`.
    ///
    /// The window shrinks by one position. If a single position is left, it
    /// is the result and the search leaves the store; otherwise the next
    /// comparison is asked for. An id under which no search runs changes
    /// nothing.
    pub open spec fn answer(self, id: nat, answer: bool) -> (Store, Reply) {
        if !self.live.contains_key(id) {
            (self, Reply::Error { reason: ProtocolError::UnknownComputation })
        } else if !self.live[id].scanning() {
            (self, Reply::Error { reason: ProtocolError::Internal })
        } else {
            let next = self.live[id].advance(answer);
            if next.done() {
                (Store { live: self.live.remove(id), ..self }, Reply::Done { result: next.left })
            } else {
                (
                    Store { live: self.live.insert(id, next), ..self },
                    Reply::Compare { left: next.left, right: next.right, id },
                )
            }
        }
    }

    /// One validated request: the store after it, and the reply.
    pub open spec fn step(self, event: Event) -> (Store, Reply) {
        match event {
            Event::Start { op, length } => self.start(op, length),
            Event::Answer { id, answer } => self.answer(id, answer),
        }
    }

    /// One request as it comes off the wire: the store after it, and the
    /// reply. A request that does not decode changes nothing and is replied
    /// to with the reason.
    pub open spec fn handle(self, request: RequestView) -> (Store, Reply) {
        match request.decode() {
            Ok(event) => self.step(event),
            Err(reason) => (self, Reply::Error { reason }),
        }
    }
}

/// What one answer does to a search, seen on its own: `None` stands for no
/// search in flight.
pub open spec fn answered(slot: Option<Scan>, answer: bool) -> Option<Scan> {
    match slot {
        Some(scan) if scan.scanning() => {
            let next = scan.advance(answer);
            if next.done() {
                None
            } else {
                Some(next)
            }
        },
        _ => slot,
    }
}

/// The reply to one answer, from the search it is addressed to alone.
pub open spec fn verdict(slot: Option<Scan>, id: nat, answer: bool) -> Reply {
    match slot {
        None => Reply::Error { reason: ProtocolError::UnknownComputation },
        Some(scan) => {
            let next = scan.advance(answer);
            if !scan.scanning() {
                Reply::Error { reason: ProtocolError::Internal }
            } else if next.done() {
                Reply::Done { result: next.left }
            } else {
                Reply::Compare { left: next.left, right: next.right, id }
            }
        },
    }
}

/// No request breaks the store's invariant.
pub proof fn lemma_step_keeps_wf(store: Store, event: Event)
    requires
        store.wf(),
    ensures
        store.step(event).0.wf(),
{
    match event {
        Event::Start { op, length } => {},
        Event::Answer { id, answer } => {
            if store.live.contains_key(id) && store.live[id].scanning() {
                lemma_advance_shrinks(store.live[id], answer);
            }
        },
    }
}

/// Ids are handed out in increasing order and never taken back: no request
/// lowers the last id, and a search that is started gets an id greater than
/// every id handed out before.
pub proof fn lemma_step_ids(store: Store, event: Event)
    ensures
        store.last_id <= store.step(event).0.last_id,
        event is Start && store.step(event).1 is Compare ==> {
            &&& store.step(event).1->id == store.last_id + 1
            &&& store.step(event).0.last_id == store.last_id + 1
        },
        event is Answer ==> store.step(event).0.last_id == store.last_id,
{
}

/// A request that is turned down, for whatever reason, leaves the store as
/// it was.
pub proof fn lemma_error_changes_nothing(store: Store, request: RequestView)
    requires
        store.handle(request).1 is Error,
    ensures
        store.handle(request).0 == store,
{
}

/// A search with one element is over at once: the result is position 0, no
/// id is handed out and nothing is stored.
pub proof fn lemma_single_element(store: Store, request: RequestView)
    requires
        request.ty == "compute_max"@ || request.ty == "compute_min"@,
        request.length == Some(1nat),
    ensures
        store.handle(request) == (store, Reply::Done { result: 0 }),
        store.start(OpType::Max, 1) == (store, Reply::Done { result: 0 }),
        store.start(OpType::Min, 1) == (store, Reply::Done { result: 0 }),
{
}

/// A request whose type is none of the three is turned down as of unknown
/// type, whatever its other fields hold, and the store stays as it was.
pub proof fn lemma_unknown_type(store: Store, request: RequestView)
    requires
        request.ty != "compute_max"@,
        request.ty != "compute_min"@,
        request.ty != "comp_result"@,
    ensures
        store.handle(request) == (store, Reply::Error { reason: ProtocolError::UnknownType }),
{
}

/// A request that lacks a field which its type needs, or asks for a search
/// on an empty list, is turned down as malformed, and the store stays as it
/// was.
pub proof fn lemma_malformed(store: Store, request: RequestView)
    requires
        ({
            ||| (request.ty == "compute_max"@ || request.ty == "compute_min"@) && (
            request.length is None || request.length == Some(0nat))
            ||| request.ty == "comp_result"@ && (request.request_id is None
                || request.answer is None)
        }),
    ensures
        store.handle(request) == (
            store,
            Reply::Error { reason: ProtocolError::MalformedRequest },
        ),
{
    lemma_types_distinct();
}

/// An answer under an id that no search runs under is turned down, and the
/// store stays as it was. In a well-formed store this holds of every id that
/// was never handed out.
pub proof fn lemma_unknown_id(store: Store, id: nat, answer: bool)
    requires
        !store.live.contains_key(id) || (store.wf() && (id == 0 || id > store.last_id)),
    ensures
        store.answer(id, answer) == (
            store,
            Reply::Error { reason: ProtocolError::UnknownComputation },
        ),
{
}

/// A search that has delivered its result is gone from the store.
pub proof fn lemma_done_leaves(store: Store, id: nat, answer: bool)
    requires
        store.answer(id, answer).1 is Done,
    ensures
        !store.answer(id, answer).0.live.contains_key(id),
{
}

/// Searches do not touch each other. A request changes the search running
/// under `id` only if it is an answer addressed to `id`, and then as if that
/// search were alone; the reply to such an answer depends on that search
/// alone.
pub proof fn lemma_step_isolated(store: Store, event: Event, id: nat)
    requires
        event is Start ==> id != store.last_id + 1,
    ensures
        store.step(event).0.probe(id) == (match event {
            Event::Answer { id: to, answer } if to == id => answered(store.probe(id), answer),
            _ => store.probe(id),
        }),
        event matches Event::Answer { id: to, answer } ==> to == id ==> store.step(event).1
            == verdict(store.probe(id), id, answer),
{
}

/// Answers to different searches commute: the order in which the server
/// hears them changes neither the store nor either reply.
pub proof fn lemma_answers_commute(store: Store, a: nat, x: bool, b: nat, y: bool)
    requires
        a != b,
    ensures
        store.answer(a, x).0.answer(b, y).0 == store.answer(b, y).0.answer(a, x).0,
        store.answer(a, x).0.answer(b, y).1 == store.answer(b, y).1,
        store.answer(b, y).0.answer(a, x).1 == store.answer(a, x).1,
{
    let first = store.answer(a, x).0.answer(b, y).0;
    let second = store.answer(b, y).0.answer(a, x).0;
    assert(first.live =~= second.live);
}

} // verus!
