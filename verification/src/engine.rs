//! One connection, from the bytes read to the text written.
//!
//! A connection serves one request. It goes through its phases in one
//! order: the bytes are read and parsed, the request is routed, the handler
//! plans its statement, the statement is run, the outcome is settled, the
//! response is written, and the connection is closed. Reading, running the
//! statement and writing are done by whoever drives the connection; every
//! decision in between is taken here.

use crate::entity::{Record, RecordView};
use crate::handler::{
    no_route, no_route_response, plan, planned, settle, settled, Step, StepView,
};
use crate::response::{encode, respond, wire_text, Response, ResponseView, Status, Variant};
use crate::route::{route, routed, Route, RouteView, Target};
use crate::store::{Outcome, OutcomeView, Statement, StatementView};
use crate::wire::{read_request, request_of, utf8_lossy, Request, RequestView};
use vstd::prelude::*;

verus! {

/// Where a parsed request goes.
#[derive(Debug, Clone, PartialEq, Eq)]
pub enum Dispatch {
    /// It is answered at once.
    Reply(Response),
    /// It goes to the handler of this target.
    Handle(Target),
}

/// The mathematical content of a dispatch.
pub enum DispatchView {
    Reply(ResponseView),
    Handle(Target),
}

impl View for Dispatch {
    type V = DispatchView;

    open spec fn view(&self) -> DispatchView {
        match self {
            Dispatch::Reply(response) => DispatchView::Reply(response@),
            Dispatch::Handle(target) => DispatchView::Handle(*target),
        }
    }
}

/// The answer to a preflight request: success, with no body.
pub open spec fn preflight() -> ResponseView {
    ResponseView { status: Status::Success, body: Seq::empty() }
}

/// Whether a request is a preflight request that the variant answers.
pub open spec fn is_preflight(variant: Variant, method: Seq<char>) -> bool {
    variant == Variant::Cors && method == "OPTIONS"@
}

/// Where a request with this method and path goes: a preflight request is
/// answered before the table is read; any other request goes where the
/// table sends it, and is answered as not found when no entry matches.
pub open spec fn dispatched(
    variant: Variant,
    table: Seq<RouteView>,
    method: Seq<char>,
    path: Seq<char>,
) -> DispatchView {
    if is_preflight(variant, method) {
        DispatchView::Reply(preflight())
    } else {
        match routed(table, method, path) {
            Some(target) => DispatchView::Handle(target),
            None => DispatchView::Reply(no_route()),
        }
    }
}

/// Tells whether `method` is `OPTIONS`.
fn is_options(method: &String) -> (b: bool)
    ensures
        b == (method@ == "OPTIONS"@),
{
    let options = "OPTIONS".to_owned();
    *method == options
}

/// Decides where a parsed request goes. A request that no entry of the
/// table matches is answered as not found, whatever else it holds.
pub fn dispatch(variant: Variant, table: &Vec<Route>, request: &Request) -> (d: Dispatch)
    ensures
        d@ == dispatched(variant, table.deep_view(), request@.method, request@.path),
        routed(table.deep_view(), request@.method, request@.path) is None && !is_preflight(
            variant,
            request@.method,
        ) ==> d@ == DispatchView::Reply(no_route()),
{
    let cors = match variant {
        Variant::Cors => true,
        Variant::Plain => false,
    };
    if cors && is_options(&request.method) {
        proof {
            reveal_strlit("");
            assert(""@ =~= Seq::<char>::empty());
        }
        return Dispatch::Reply(respond(Status::Success, ""));
    }
    match route(table, request.method.as_str(), request.path.as_str()) {
        Some(target) => Dispatch::Handle(target),
        None => Dispatch::Reply(no_route_response()),
    }
}

/// The phases of a connection that wait for something from outside.
#[derive(Debug, Clone, PartialEq, Eq)]
pub enum Connection {
    /// Accepted; its bytes have not been read yet.
    Accepted,
    /// Routed to a handler that reads the body; the body is being turned
    /// into a record.
    Routed(Target, Request),
    /// The statement of the handler is being run.
    Handled(Target),
    /// The response is being written.
    Written,
    /// Closed; nothing more happens.
    Closed,
}

/// The mathematical content of a connection.
pub enum ConnectionView {
    Accepted,
    Routed(Target, RequestView),
    Handled(Target),
    Written,
    Closed,
}

impl View for Connection {
    type V = ConnectionView;

    open spec fn view(&self) -> ConnectionView {
        match self {
            Connection::Accepted => ConnectionView::Accepted,
            Connection::Routed(target, request) => ConnectionView::Routed(*target, request@),
            Connection::Handled(target) => ConnectionView::Handled(*target),
            Connection::Written => ConnectionView::Written,
            Connection::Closed => ConnectionView::Closed,
        }
    }
}

/// What happened outside since the last action.
#[derive(Debug, Clone, PartialEq, Eq)]
pub enum Event {
    /// These bytes were read.
    Bytes(Vec<u8>),
    /// The read failed.
    ReadFailed,
    /// The body was turned into this record, or is no record.
    Body(Option<Record>),
    /// The statement was run, with this outcome.
    Stored(Outcome),
    /// The write ended, well or not.
    Wrote,
}

/// The mathematical content of an event.
pub enum EventView {
    Bytes(Seq<u8>),
    ReadFailed,
    Body(Option<RecordView>),
    Stored(OutcomeView),
    Wrote,
}

impl View for Event {
    type V = EventView;

    open spec fn view(&self) -> EventView {
        match self {
            Event::Bytes(bytes) => EventView::Bytes(bytes@),
            Event::ReadFailed => EventView::ReadFailed,
            Event::Body(body) => EventView::Body(body.deep_view()),
            Event::Stored(outcome) => EventView::Stored(outcome@),
            Event::Wrote => EventView::Wrote,
        }
    }
}

/// What is to be done outside next.
#[derive(Debug, Clone, PartialEq, Eq)]
pub enum Action {
    /// Turn this body into a record for this target.
    Decode(Target, String),
    /// Run this statement.
    Run(Statement),
    /// Write this text.
    Write(String),
    /// Close the connection.
    Close,
}

/// The mathematical content of an action.
pub enum ActionView {
    Decode(Target, Seq<char>),
    Run(StatementView),
    Write(Seq<char>),
    Close,
}

impl View for Action {
    type V = ActionView;

    open spec fn view(&self) -> ActionView {
        match self {
            Action::Decode(target, body) => ActionView::Decode(*target, body@),
            Action::Run(statement) => ActionView::Run(statement@),
            Action::Write(text) => ActionView::Write(text@),
            Action::Close => ActionView::Close,
        }
    }
}

/// The phase and the action after the response is known: it is written.
pub open spec fn answer(variant: Variant, response: ResponseView) -> (ConnectionView, ActionView) {
    (ConnectionView::Written, ActionView::Write(wire_text(variant, response)))
}

/// The phase and the action after a handler has planned its step.
pub open spec fn after_plan(variant: Variant, target: Target, step: StepView) -> (
    ConnectionView,
    ActionView,
) {
    match step {
        StepView::Run(statement) => (ConnectionView::Handled(target), ActionView::Run(statement)),
        StepView::Reply(response) => answer(variant, response),
    }
}

/// The phase and the action after the request has been parsed.
pub open spec fn after_parse(variant: Variant, table: Seq<RouteView>, request: RequestView) -> (
    ConnectionView,
    ActionView,
) {
    match dispatched(variant, table, request.method, request.path) {
        DispatchView::Reply(response) => answer(variant, response),
        DispatchView::Handle(target) => if target.reads_body() {
            (ConnectionView::Routed(target, request), ActionView::Decode(target, request.body))
        } else {
            after_plan(variant, target, planned(target, request.id, None))
        },
    }
}

/// The next phase of a connection and the action to take, for each phase
/// and event. An event that the phase does not wait for closes the
/// connection; a closed connection stays closed.
pub open spec fn stepped(
    variant: Variant,
    table: Seq<RouteView>,
    connection: ConnectionView,
    event: EventView,
) -> (ConnectionView, ActionView) {
    match (connection, event) {
        (ConnectionView::Accepted, EventView::Bytes(bytes)) => after_parse(
            variant,
            table,
            request_of(utf8_lossy(bytes)),
        ),
        (ConnectionView::Routed(target, request), EventView::Body(body)) => after_plan(
            variant,
            target,
            planned(target, request.id, body),
        ),
        (ConnectionView::Handled(target), EventView::Stored(outcome)) => answer(
            variant,
            settled(target, outcome),
        ),
        _ => (ConnectionView::Closed, ActionView::Close),
    }
}

/// No route. A connection whose request no entry of the table matches is
/// answered as not found, with the fixed body, whatever its identifier and
/// body hold and whatever state the store is in: the store is not asked.
pub proof fn law_unroutable_is_not_found(variant: Variant, table: Seq<RouteView>, bytes: Seq<u8>)
    requires
        routed(
            table,
            request_of(utf8_lossy(bytes)).method,
            request_of(utf8_lossy(bytes)).path,
        ) is None,
        !is_preflight(variant, request_of(utf8_lossy(bytes)).method),
    ensures
        stepped(variant, table, ConnectionView::Accepted, EventView::Bytes(bytes)) == (
            ConnectionView::Written,
            ActionView::Write(wire_text(variant, no_route())),
        ),
        no_route().status == Status::NotFound,
        wire_text(variant, no_route()) == "HTTP/1.1 404 NOT FOUND\r\n"@ + variant.headers()
            + "\r\n"@ + "404 not found"@,
{
    assert(Status::NotFound.content_type() =~= Seq::<char>::empty());
    assert(wire_text(variant, no_route()) =~= "HTTP/1.1 404 NOT FOUND\r\n"@ + variant.headers()
        + "\r\n"@ + "404 not found"@);
}

/// Writes the response.
fn answer_with(variant: Variant, response: &Response) -> (r: (Connection, Action))
    ensures
        r.0@ == answer(variant, response@).0,
        r.1@ == answer(variant, response@).1,
{
    (Connection::Written, Action::Write(encode(variant, response)))
}

/// Runs the statement of a planned step, or writes its response.
fn go_on_after_plan(variant: Variant, target: Target, step: Step) -> (r: (Connection, Action))
    ensures
        r.0@ == after_plan(variant, target, step@).0,
        r.1@ == after_plan(variant, target, step@).1,
{
    match step {
        Step::Run(statement) => (Connection::Handled(target), Action::Run(statement)),
        Step::Reply(response) => answer_with(variant, &response),
    }
}

/// Advances a connection by one event. The connection starts as
/// `Accepted`, with the bytes of its first read; each action that comes back
/// is performed outside, and what came of it is the next event, until the
/// action is `Close`.
pub fn step(variant: Variant, table: &Vec<Route>, connection: Connection, event: Event) -> (r: (
    Connection,
    Action,
))
    ensures
        r.0@ == stepped(variant, table.deep_view(), connection@, event@).0,
        r.1@ == stepped(variant, table.deep_view(), connection@, event@).1,
{
    match (connection, event) {
        (Connection::Accepted, Event::Bytes(bytes)) => {
            let request = read_request(bytes.as_slice());
            match dispatch(variant, table, &request) {
                Dispatch::Reply(response) => answer_with(variant, &response),
                Dispatch::Handle(target) => {
                    if target.needs_body() {
                        let body = request.body.clone();
                        (Connection::Routed(target, request), Action::Decode(target, body))
                    } else {
                        let planned_step = plan(target, &request, None);
                        go_on_after_plan(variant, target, planned_step)
                    }
                },
            }
        },
        (Connection::Routed(target, request), Event::Body(body)) => {
            let planned_step = plan(target, &request, body);
            go_on_after_plan(variant, target, planned_step)
        },
        (Connection::Handled(target), Event::Stored(outcome)) => {
            let response = settle(target, &outcome);
            answer_with(variant, &response)
        },
        _ => (Connection::Closed, Action::Close),
    }
}

} // verus!
