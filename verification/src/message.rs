//! What travels between client and server: requests, the commands they
//! decode to, responses, and the reasons a request can be turned down.

use crate::scan::OpType;
use vstd::prelude::*;
use vstd::string::*;

verus! {

/// Why a request was turned down. None of these ends the process or changes
/// the store.
#[derive(Clone, Copy, Debug, PartialEq, Eq, Structural)]
pub enum ProtocolError {
    /// The request's type is none of the three that the protocol knows.
    UnknownType,
    /// The request names a search that is not in flight: its id was never
    /// handed out, or the search has already delivered its result.
    UnknownComputation,
    /// A field that the request's type needs is missing or out of range.
    MalformedRequest,
    /// The server cannot go on without breaking one of its own invariants:
    /// the ids are used up, or a stored window has no end left to move.
    Internal,
}

/// A validated request: one variant for each thing a client can ask.
#[derive(Clone, Copy, Debug, PartialEq, Eq, Structural)]
pub enum Command {
    /// Start a search over a list of `length` elements.
    Start { op: OpType, length: usize },
    /// Fold the verdict on the last comparison into search `request_id`.
    Answer { request_id: u32, answer: bool },
}

/// The mathematical content of a `Command`.
pub enum Event {
    Start { op: OpType, length: nat },
    Answer { id: nat, answer: bool },
}

impl View for Command {
    type V = Event;

    open spec fn view(&self) -> Event {
        match *self {
            Command::Start { op, length } => Event::Start { op, length: length as nat },
            Command::Answer { request_id, answer } => Event::Answer {
                id: request_id as nat,
                answer,
            },
        }
    }
}

/// What the server tells the client after one request.
#[derive(Clone, Copy, Debug, PartialEq, Eq, Structural)]
pub enum Response {
    /// The search is over: `result` is the position of the element sought.
    Done { result: usize },
    /// Compare the elements at `left` and `right` and answer under
    /// `request_id`.
    Compare { left: usize, right: usize, request_id: u32 },
    /// The request was turned down.
    Error { reason: ProtocolError },
}

/// The mathematical content of a `Response`.
pub enum Reply {
    Done { result: nat },
    Compare { left: nat, right: nat, id: nat },
    Error { reason: ProtocolError },
}

impl View for Response {
    type V = Reply;

    open spec fn view(&self) -> Reply {
        match *self {
            Response::Done { result } => Reply::Done { result: result as nat },
            Response::Compare { left, right, request_id } => Reply::Compare {
                left: left as nat,
                right: right as nat,
                id: request_id as nat,
            },
            Response::Error { reason } => Reply::Error { reason },
        }
    }
}

/// Constructs a "done" response from the position of the result.
pub fn done_response(result: usize) -> (r: Response)
    ensures
        r == (Response::Done { result }),
{
    Response::Done { result }
}

/// Constructs a "compare" response from the two ends of the window and the
/// id of the search.
pub fn compare_response(left: usize, right: usize, id: u32) -> (r: Response)
    ensures
        r == (Response::Compare { left, right, request_id: id }),
{
    Response::Compare { left, right, request_id: id }
}

/// Constructs an "error" response from the reason for turning the request
/// down.
pub fn error_response(reason: ProtocolError) -> (r: Response)
    ensures
        r == (Response::Error { reason }),
{
    Response::Error { reason }
}

/// Represents the possible fields that may be passed in from a JSON request.
/// Which of them must be present depends on `ty`.
#[derive(Debug)]
pub struct Request {
    /// The type of the request.
    ty: String,
    /// The length of the list; needed to start a search.
    length: Option<usize>,
    /// The id of the search; needed to answer a comparison.
    request_id: Option<u32>,
    /// The verdict on the comparison; needed to answer a comparison.
    answer: Option<bool>,
}

/// The mathematical content of a `Request`.
pub struct RequestView {
    pub ty: Seq<char>,
    pub length: Option<nat>,
    pub request_id: Option<nat>,
    pub answer: Option<bool>,
}

impl RequestView {
    /// What a request asks for, or why it asks for nothing.
    ///
    /// The type decides which fields count; fields that the type does not
    /// need are ignored. A search cannot be started on an empty list.
    pub open spec fn decode(self) -> Result<Event, ProtocolError> {
        if self.ty == "compute_max"@ {
            Self::decode_start(OpType::Max, self.length)
        } else if self.ty == "compute_min"@ {
            Self::decode_start(OpType::Min, self.length)
        } else if self.ty == "comp_result"@ {
            match (self.request_id, self.answer) {
                (Some(id), Some(answer)) => Ok(Event::Answer { id, answer }),
                _ => Err(ProtocolError::MalformedRequest),
            }
        } else {
            Err(ProtocolError::UnknownType)
        }
    }

    pub open spec fn decode_start(op: OpType, length: Option<nat>) -> Result<Event, ProtocolError> {
        match length {
            Some(n) if n >= 1 => Ok(Event::Start { op, length: n }),
            _ => Err(ProtocolError::MalformedRequest),
        }
    }
}

/// The three request types are three different strings, so at most one
/// branch of `decode` applies to a request.
pub proof fn lemma_types_distinct()
    ensures
        "compute_max"@ != "compute_min"@,
        "compute_max"@ != "comp_result"@,
        "compute_min"@ != "comp_result"@,
{
    reveal_strlit("compute_max");
    reveal_strlit("compute_min");
    reveal_strlit("comp_result");
    assert("compute_max"@[9] != "compute_min"@[9]);
    assert("compute_max"@[4] != "comp_result"@[4]);
    assert("compute_min"@[4] != "comp_result"@[4]);
}

impl View for Request {
    type V = RequestView;

    closed spec fn view(&self) -> RequestView {
        RequestView {
            ty: self.ty@,
            length: match self.length {
                Some(n) => Some(n as nat),
                None => None,
            },
            request_id: match self.request_id {
                Some(id) => Some(id as nat),
                None => None,
            },
            answer: self.answer,
        }
    }
}

impl Request {
    /// A request with the given fields, as they came off the wire.
    pub fn new(
        ty: String,
        length: Option<usize>,
        request_id: Option<u32>,
        answer: Option<bool>,
    ) -> (r: Request)
        ensures
            r@.ty == ty@,
            r@.length == (match length {
                Some(n) => Some(n as nat),
                None => None,
            }),
            r@.request_id == (match request_id {
                Some(id) => Some(id as nat),
                None => None,
            }),
            r@.answer == answer,
    {
        Request { ty, length, request_id, answer }
    }

    /// The type of the request.
    pub fn ty(&self) -> (r: &str)
        ensures
            r@ == self@.ty,
    {
        self.ty.as_str()
    }

    /// The length of the list, if the request carries one.
    pub fn length(&self) -> (r: Option<usize>)
        ensures
            self@.length == (match r {
                Some(n) => Some(n as nat),
                None => None,
            }),
    {
        self.length
    }

    /// The id of the search, if the request carries one.
    pub fn request_id(&self) -> (r: Option<u32>)
        ensures
            self@.request_id == (match r {
                Some(id) => Some(id as nat),
                None => None,
            }),
    {
        self.request_id
    }

    /// The verdict on the comparison, if the request carries one.
    pub fn answer(&self) -> (r: Option<bool>)
        ensures
            r == self@.answer,
    {
        self.answer
    }

    /// Validates the request: checks once, for the type it names, that the
    /// fields this type needs are there.
    pub fn decode(&self) -> (r: Result<Command, ProtocolError>)
        ensures
            match r {
                Ok(command) => self@.decode() == Ok::<Event, ProtocolError>(command@),
                Err(reason) => self@.decode() == Err::<Event, ProtocolError>(reason),
            },
    {
        if self.ty == String::from_str("compute_max") {
            Self::decode_start(OpType::Max, self.length)
        } else if self.ty == String::from_str("compute_min") {
            Self::decode_start(OpType::Min, self.length)
        } else if self.ty == String::from_str("comp_result") {
            match (self.request_id, self.answer) {
                (Some(request_id), Some(answer)) => Ok(Command::Answer { request_id, answer }),
                _ => Err(ProtocolError::MalformedRequest),
            }
        } else {
            Err(ProtocolError::UnknownType)
        }
    }

    fn decode_start(op: OpType, length: Option<usize>) -> (r: Result<Command, ProtocolError>)
        ensures
            match r {
                Ok(command) => RequestView::decode_start(
                    op,
                    match length {
                        Some(n) => Some(n as nat),
                        None => None,
                    },
                ) == Ok::<Event, ProtocolError>(command@),
                Err(reason) => RequestView::decode_start(
                    op,
                    match length {
                        Some(n) => Some(n as nat),
                        None => None,
                    },
                ) == Err::<Event, ProtocolError>(reason),
            },
    {
        match length {
            Some(n) => {
                if n >= 1 {
                    Ok(Command::Start { op, length: n })
                } else {
                    Err(ProtocolError::MalformedRequest)
                }
            },
            None => Err(ProtocolError::MalformedRequest),
        }
    }
}

} // verus!
