//! The shape of a response on the wire: the fields of the JSON object it is
//! sent as, in order, with their values.

use crate::message::{ProtocolError, Reply, Response};
use vstd::prelude::*;
use vstd::string::*;

verus! {

/// The value of one field: text or a number.
#[derive(Debug, PartialEq, Eq)]
pub enum WireValue {
    Text(String),
    Number(u64),
}

/// The mathematical content of a `WireValue`.
pub enum WireValueView {
    Text(Seq<char>),
    Number(nat),
}

impl View for WireValue {
    type V = WireValueView;

    open spec fn view(&self) -> WireValueView {
        match self {
            WireValue::Text(text) => WireValueView::Text(text@),
            WireValue::Number(number) => WireValueView::Number(*number as nat),
        }
    }
}

/// One field of the object: its name and its value.
#[derive(Debug, PartialEq, Eq)]
pub struct WireField {
    pub name: String,
    pub value: WireValue,
}

impl View for WireField {
    type V = (Seq<char>, WireValueView);

    open spec fn view(&self) -> (Seq<char>, WireValueView) {
        (self.name@, self.value@)
    }
}

impl ProtocolError {
    /// The text that tells the client why its request was turned down.
    pub open spec fn reason_text(self) -> Seq<char> {
        match self {
            ProtocolError::UnknownType => "unrecognized request type."@,
            ProtocolError::UnknownComputation => "no such computation."@,
            ProtocolError::MalformedRequest => "malformed request."@,
            ProtocolError::Internal => "internal error."@,
        }
    }

    /// Renders the reason as text.
    pub fn reason(&self) -> (r: String)
        ensures
            r@ == self.reason_text(),
    {
        match self {
            ProtocolError::UnknownType => String::from_str("unrecognized request type."),
            ProtocolError::UnknownComputation => String::from_str("no such computation."),
            ProtocolError::MalformedRequest => String::from_str("malformed request."),
            ProtocolError::Internal => String::from_str("internal error."),
        }
    }
}

impl Reply {
    /// The fields that a reply is sent as.
    ///
    /// A result and a comparison carry their kind under `ty`; an error
    /// carries `status` and the reason instead.
    pub open spec fn fields(self) -> Seq<(Seq<char>, WireValueView)> {
        match self {
            Reply::Done { result } => seq![
                ("ty"@, WireValueView::Text("done"@)),
                ("result"@, WireValueView::Number(result)),
            ],
            Reply::Compare { left, right, id } => seq![
                ("ty"@, WireValueView::Text("compare"@)),
                ("left"@, WireValueView::Number(left)),
                ("right"@, WireValueView::Number(right)),
                ("request_id"@, WireValueView::Number(id)),
            ],
            Reply::Error { reason } => seq![
                ("status"@, WireValueView::Text("error"@)),
                ("reason"@, WireValueView::Text(reason.reason_text())),
            ],
        }
    }
}

/// A text field.
fn text_field(name: &str, text: String) -> (r: WireField)
    ensures
        r@ == (name@, WireValueView::Text(text@)),
{
    WireField { name: String::from_str(name), value: WireValue::Text(text) }
}

/// A number field.
fn number_field(name: &str, number: u64) -> (r: WireField)
    ensures
        r@ == (name@, WireValueView::Number(number as nat)),
{
    WireField { name: String::from_str(name), value: WireValue::Number(number) }
}

impl Response {
    /// The fields of the JSON object that this response is sent as, in
    /// order.
    pub fn fields(&self) -> (r: Vec<WireField>)
        ensures
            r@.map_values(|field: WireField| field@) == self@.fields(),
    {
        let mut fields: Vec<WireField> = Vec::new();
        match *self {
            Response::Done { result } => {
                fields.push(text_field("ty", String::from_str("done")));
                fields.push(number_field("result", result as u64));
            },
            Response::Compare { left, right, request_id } => {
                fields.push(text_field("ty", String::from_str("compare")));
                fields.push(number_field("left", left as u64));
                fields.push(number_field("right", right as u64));
                fields.push(number_field("request_id", request_id as u64));
            },
            Response::Error { reason } => {
                fields.push(text_field("status", String::from_str("error")));
                fields.push(text_field("reason", reason.reason()));
            },
        }
        assert(fields@.map_values(|field: WireField| field@) =~= self@.fields());
        fields
    }
}

} // verus!
