//! One connection from end to end, without the socket and without the
//! table: from the bytes that were read to what is to be done, and from the
//! table's reply to the bytes that are to be written.

use vstd::prelude::*;
use vstd::utf8::encode_utf8;
use crate::operation::{
    finish, operation_of, outcome_of, plan, response_of, step_of, Reply, Response, ResponseView,
    Statement, StatementView, Step, StepView,
};
use crate::wire::{decode, encode, request_of, response_text, utf8_lossy};

verus! {

/// What the owner of a connection does next.
#[derive(Debug, PartialEq, Eq)]
pub enum Action {
    /// Write these bytes; the connection is done.
    Write(Vec<u8>),
    /// Send this statement to the table, and hand its reply to `handle_reply`.
    Execute(Statement),
}

/// An action as contracts see it.
pub ghost enum ActionView {
    Write(Seq<u8>),
    Execute(StatementView),
}

impl View for Action {
    type V = ActionView;

    open spec fn view(&self) -> ActionView {
        match *self {
            Action::Write(bytes) => ActionView::Write(bytes@),
            Action::Execute(statement) => ActionView::Execute(statement@),
        }
    }
}

/// The bytes of a response.
pub open spec fn response_bytes(response: ResponseView) -> Seq<u8> {
    encode_utf8(response_text(response.status, response.payload))
}

/// The action that carries out a step.
pub open spec fn action_of(step: StepView) -> ActionView {
    match step {
        StepView::Answer(response) => ActionView::Write(response_bytes(response)),
        StepView::Execute(statement) => ActionView::Execute(statement),
    }
}

/// Encodes a response.
pub fn write(response: &Response) -> (bytes: Vec<u8>)
    ensures
        bytes@ == response_bytes(response@),
{
    encode(response.status, response.payload.as_str())
}

/// Takes the bytes that were read from a connection and says what to do:
/// the request is decoded, routed, and planned.
pub fn handle_client(buffer: &[u8]) -> (action: Action)
    ensures
        action@ == action_of(step_of(request_of(utf8_lossy(buffer@)))),
{
    let request = decode(buffer);
    match plan(&request) {
        Step::Answer(response) => Action::Write(write(&response)),
        Step::Execute(statement) => Action::Execute(statement),
    }
}

/// Takes the table's reply to the statement of a request and gives the
/// bytes to write.
pub fn handle_reply(statement: &Statement, reply: &Reply) -> (bytes: Vec<u8>)
    ensures
        bytes@ == response_bytes(
            response_of(operation_of(statement@), outcome_of(statement@, reply@)),
        ),
{
    write(&finish(statement, reply))
}

} // verus!
