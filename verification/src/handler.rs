//! The handlers: for each target, which statement it needs, and which
//! response each outcome of that statement gives.
//!
//! A handler never talks to the store. `plan` turns a routed request into
//! the one statement to run, or into a response when the request cannot be
//! served; `settle` turns the outcome of the statement into the response.
//! Every failure on the way (an identifier that is no number, a body that is
//! no record, no connection, a statement that fails) gives the same internal
//! error.

use crate::entity::{Entity, Record, RecordView};
use crate::json::{
    all_fit, json_list, json_record, list_json, login_failure, login_failure_json, login_success,
    login_success_json, record_json, rows_fit,
};
use crate::response::{respond, Response, ResponseView, Status};
use crate::route::Target;
use crate::store::{Call, Outcome, OutcomeView, Param, ParamView, Statement, StatementView};
use crate::wire::Request;
use vstd::prelude::*;
use vstd::string::StringExecFns;

verus! {

/// What a handler does next.
#[derive(Debug, Clone, PartialEq, Eq)]
pub enum Step {
    /// Answer at once, without the store.
    Reply(Response),
    /// Run this statement, then settle its outcome.
    Run(Statement),
}

/// The mathematical content of a step.
pub enum StepView {
    Reply(ResponseView),
    Run(StatementView),
}

impl View for Step {
    type V = StepView;

    open spec fn view(&self) -> StepView {
        match self {
            Step::Reply(response) => StepView::Reply(response@),
            Step::Run(statement) => StepView::Run(statement@),
        }
    }
}

impl Target {
    /// How many values the body of a request for this target must hold; 0
    /// for the targets that read no body.
    pub open spec fn body_len(self) -> nat {
        match self {
            Target::Create(entity) | Target::Update(entity) => entity.columns().len(),
            Target::Login => 2,
            Target::Read(_) | Target::List(_) | Target::Delete(_) => 0,
        }
    }

    /// Whether the target reads the body of the request.
    pub open spec fn reads_body(self) -> bool {
        self is Create || self is Update || self is Login
    }

    /// Whether the target reads the identifier in the path.
    pub open spec fn reads_id(self) -> bool {
        self is Read || self is Update || self is Delete
    }

    /// How the statement of the target is run.
    pub open spec fn call(self) -> Call {
        match self {
            Target::Create(_) | Target::Update(_) | Target::Delete(_) => Call::Execute,
            Target::Read(_) => Call::QueryOne,
            Target::List(_) | Target::Login => Call::QueryAll,
        }
    }

    /// The text of the statement of the target.
    pub open spec fn sql(self) -> Seq<char> {
        match self {
            Target::Create(Entity::User) =>
                "INSERT INTO users (name, email, password) VALUES ($1, $2, $3)"@,
            Target::Create(Entity::Mapel) => "INSERT INTO mapel (mapel) VALUES ($1)"@,
            Target::Create(Entity::Guru) =>
                "INSERT INTO guru (name, nomor_telefon) VALUES ($1, $2)"@,
            Target::Read(Entity::User) => "SELECT * FROM users WHERE id = $1"@,
            Target::Read(Entity::Mapel) => "SELECT * FROM mapel WHERE id = $1"@,
            Target::Read(Entity::Guru) => "SELECT * FROM guru WHERE id = $1"@,
            Target::List(Entity::User) => "SELECT id, name, email, password FROM users"@,
            Target::List(Entity::Mapel) => "SELECT id, mapel FROM mapel"@,
            Target::List(Entity::Guru) => "SELECT id, name, nomor_telefon FROM guru"@,
            Target::Update(Entity::User) =>
                "UPDATE users SET name = $1, email = $2, password = $3 WHERE id = $4"@,
            Target::Update(Entity::Mapel) => "UPDATE mapel SET mapel = $1 WHERE id = $2"@,
            Target::Update(Entity::Guru) =>
                "UPDATE guru SET name = $1, nomor_telefon = $2 WHERE id = $3"@,
            Target::Delete(Entity::User) => "DELETE FROM users WHERE id = $1"@,
            Target::Delete(Entity::Mapel) => "DELETE FROM mapel WHERE id = $1"@,
            Target::Delete(Entity::Guru) => "DELETE FROM guru WHERE id = $1"@,
            Target::Login => "SELECT * FROM users WHERE name = $1 AND password = $2"@,
        }
    }

    /// Tells whether the target reads the body of the request.
    pub fn needs_body(self) -> (b: bool)
        ensures
            b == self.reads_body(),
    {
        match self {
            Target::Create(_) | Target::Update(_) | Target::Login => true,
            Target::Read(_) | Target::List(_) | Target::Delete(_) => false,
        }
    }

    /// How many values the body of a request for this target must hold.
    pub fn body_values(self) -> (n: usize)
        ensures
            n == self.body_len(),
    {
        match self {
            Target::Create(entity) | Target::Update(entity) => entity.column_count(),
            Target::Login => 2,
            Target::Read(_) | Target::List(_) | Target::Delete(_) => 0,
        }
    }

    /// How the statement of the target is run.
    pub fn call_kind(self) -> (call: Call)
        ensures
            call == self.call(),
    {
        match self {
            Target::Create(_) | Target::Update(_) | Target::Delete(_) => Call::Execute,
            Target::Read(_) => Call::QueryOne,
            Target::List(_) | Target::Login => Call::QueryAll,
        }
    }

    /// The text of the statement of the target.
    pub fn sql_text(self) -> (sql: &'static str)
        ensures
            sql@ == self.sql(),
    {
        match self {
            Target::Create(Entity::User) =>
                "INSERT INTO users (name, email, password) VALUES ($1, $2, $3)",
            Target::Create(Entity::Mapel) => "INSERT INTO mapel (mapel) VALUES ($1)",
            Target::Create(Entity::Guru) =>
                "INSERT INTO guru (name, nomor_telefon) VALUES ($1, $2)",
            Target::Read(Entity::User) => "SELECT * FROM users WHERE id = $1",
            Target::Read(Entity::Mapel) => "SELECT * FROM mapel WHERE id = $1",
            Target::Read(Entity::Guru) => "SELECT * FROM guru WHERE id = $1",
            Target::List(Entity::User) => "SELECT id, name, email, password FROM users",
            Target::List(Entity::Mapel) => "SELECT id, mapel FROM mapel",
            Target::List(Entity::Guru) => "SELECT id, name, nomor_telefon FROM guru",
            Target::Update(Entity::User) =>
                "UPDATE users SET name = $1, email = $2, password = $3 WHERE id = $4",
            Target::Update(Entity::Mapel) => "UPDATE mapel SET mapel = $1 WHERE id = $2",
            Target::Update(Entity::Guru) =>
                "UPDATE guru SET name = $1, nomor_telefon = $2 WHERE id = $3",
            Target::Delete(Entity::User) => "DELETE FROM users WHERE id = $1",
            Target::Delete(Entity::Mapel) => "DELETE FROM mapel WHERE id = $1",
            Target::Delete(Entity::Guru) => "DELETE FROM guru WHERE id = $1",
            Target::Login => "SELECT * FROM users WHERE name = $1 AND password = $2",
        }
    }
}

/// The response to every failure inside a handler.
pub open spec fn internal_error() -> ResponseView {
    ResponseView { status: Status::InternalError, body: "Internal error"@ }
}

/// The response to a request that no route matches.
pub open spec fn no_route() -> ResponseView {
    ResponseView { status: Status::NotFound, body: "404 not found"@ }
}

/// The response that confirms a write: the entity's label and what was done
/// to the row.
pub open spec fn confirmed(entity: Entity, done: Seq<char>) -> ResponseView {
    ResponseView { status: Status::Success, body: entity.label() + done }
}

/// The response for a row that is not there.
pub open spec fn missing(entity: Entity) -> ResponseView {
    ResponseView { status: Status::NotFound, body: entity.label() + " not found"@ }
}

/// The values of a record as text parameters, in order.
pub open spec fn text_params(values: Seq<Seq<char>>) -> Seq<ParamView> {
    Seq::new(values.len(), |i: int| ParamView::Text(values[i]))
}

/// The parameters of the statement of `target`: the values of the body for
/// the targets that read it, then the identifier for those that read it.
pub open spec fn params_of(target: Target, id: Option<i32>, body: Option<RecordView>) -> Seq<
    ParamView,
> {
    let values = if target.reads_body() && body is Some {
        text_params(body->0.values)
    } else {
        Seq::empty()
    };
    if target.reads_id() && id is Some {
        values.push(ParamView::Int(id->0))
    } else {
        values
    }
}

/// Whether a request for `target` can be served: it has an identifier that
/// is a number, if the target reads one, and a body that is a record with
/// the right number of values, if the target reads one.
pub open spec fn servable(target: Target, id: Option<i32>, body: Option<RecordView>) -> bool {
    &&& target.reads_id() ==> id is Some
    &&& target.reads_body() ==> body is Some && body->0.values.len() == target.body_len()
}

/// What the handler of `target` does with a request: the statement to run
/// when the request can be served, the internal error when it cannot.
pub open spec fn planned(target: Target, id: Option<i32>, body: Option<RecordView>) -> StepView {
    if servable(target, id, body) {
        StepView::Run(
            StatementView {
                call: target.call(),
                sql: target.sql(),
                params: params_of(target, id, body),
            },
        )
    } else {
        StepView::Reply(internal_error())
    }
}

/// The response that the handler of `target` gives for an outcome of its
/// statement.
pub open spec fn settled(target: Target, outcome: OutcomeView) -> ResponseView {
    match target {
        Target::Create(entity) => match outcome {
            OutcomeView::Affected(_) => confirmed(entity, " created"@),
            _ => internal_error(),
        },
        Target::Read(entity) => match outcome {
            OutcomeView::Row(Some(row)) => if row.fits(entity) {
                ResponseView { status: Status::Success, body: json_record(entity, row) }
            } else {
                internal_error()
            },
            OutcomeView::Row(None) => missing(entity),
            _ => internal_error(),
        },
        Target::List(entity) => match outcome {
            OutcomeView::Rows(rows) => if all_fit(entity, rows) {
                ResponseView { status: Status::Success, body: json_list(entity, rows) }
            } else {
                internal_error()
            },
            _ => internal_error(),
        },
        Target::Update(entity) => match outcome {
            OutcomeView::Affected(_) => confirmed(entity, " updated"@),
            _ => internal_error(),
        },
        Target::Delete(entity) => match outcome {
            OutcomeView::Affected(n) => if n == 0 {
                missing(entity)
            } else {
                confirmed(entity, " deleted"@)
            },
            _ => internal_error(),
        },
        Target::Login => match outcome {
            OutcomeView::Rows(rows) => if rows.len() == 0 {
                ResponseView { status: Status::Unauthorized, body: login_failure() }
            } else if rows[0].fits(Entity::User) {
                ResponseView { status: Status::Success, body: login_success(rows[0].values[0]) }
            } else {
                internal_error()
            },
            _ => internal_error(),
        },
    }
}

/// Why a request ended in the internal error. The response is the same for
/// all of them; the cause is kept for whoever looks at the service from
/// inside.
#[derive(Debug, Clone, Copy, PartialEq, Eq, Structural)]
pub enum Fault {
    /// The identifier in the path is no number.
    Identifier,
    /// The body is no record with the values that the target needs.
    Body,
    /// No connection to the store could be had.
    Acquire,
    /// The store failed to run the statement, or answered with something
    /// that the statement cannot give.
    Query,
}

/// What keeps a request for `target` from being served, if anything does:
/// its identifier, looked at first, or its body.
pub open spec fn plan_fault(target: Target, id: Option<i32>, body: Option<RecordView>) -> Option<
    Fault,
> {
    if target.reads_id() && id is None {
        Some(Fault::Identifier)
    } else if target.reads_body() && !(body is Some && body->0.values.len() == target.body_len()) {
        Some(Fault::Body)
    } else {
        None
    }
}

/// Whether `outcome` is something that the statement of `target` can give:
/// a count for a write, a row of the entity or none for a read, rows of the
/// entity for a list, and for a login rows of which the first is a user.
pub open spec fn expected(target: Target, outcome: OutcomeView) -> bool {
    match (target, outcome) {
        (Target::Create(_), OutcomeView::Affected(_)) => true,
        (Target::Update(_), OutcomeView::Affected(_)) => true,
        (Target::Delete(_), OutcomeView::Affected(_)) => true,
        (Target::Read(_), OutcomeView::Row(None)) => true,
        (Target::Read(entity), OutcomeView::Row(Some(row))) => row.fits(entity),
        (Target::List(entity), OutcomeView::Rows(rows)) => all_fit(entity, rows),
        (Target::Login, OutcomeView::Rows(rows)) => rows.len() == 0 || rows[0].fits(Entity::User),
        _ => false,
    }
}

/// What went wrong with the statement of `target`, if anything did.
pub open spec fn outcome_fault(target: Target, outcome: OutcomeView) -> Option<Fault> {
    match outcome {
        OutcomeView::Unavailable => Some(Fault::Acquire),
        OutcomeView::Failed => Some(Fault::Query),
        _ => if expected(target, outcome) {
            None
        } else {
            Some(Fault::Query)
        },
    }
}

/// One internal error, one cause. A handler answers with the internal error
/// exactly when the request or the outcome has a fault; every other answer
/// has another status.
pub proof fn law_internal_error_has_a_cause(
    target: Target,
    id: Option<i32>,
    body: Option<RecordView>,
    outcome: OutcomeView,
)
    ensures
        plan_fault(target, id, body) is Some <==> planned(target, id, body) == StepView::Reply(
            internal_error(),
        ),
        plan_fault(target, id, body) is None <==> planned(target, id, body) is Run,
        outcome_fault(target, outcome) is Some <==> settled(target, outcome) == internal_error(),
        outcome_fault(target, outcome) is Some <==> settled(target, outcome).status
            == Status::InternalError,
{
}

/// Tells what keeps a request for `target` from being served, if anything
/// does.
pub fn refusal(target: Target, request: &Request, body: &Option<Record>) -> (fault: Option<Fault>)
    ensures
        fault == plan_fault(target, request@.id, body.deep_view()),
{
    let reads_id = match target {
        Target::Read(_) | Target::Update(_) | Target::Delete(_) => true,
        Target::Create(_) | Target::List(_) | Target::Login => false,
    };
    if reads_id && request.id.is_none() {
        return Some(Fault::Identifier);
    }
    if target.needs_body() {
        match body {
            Some(record) => {
                if record.values.len() != target.body_values() {
                    return Some(Fault::Body);
                }
            },
            None => {
                return Some(Fault::Body);
            },
        }
    }
    None
}

/// Tells what went wrong with the statement of `target`, if anything did.
pub fn failure(target: Target, outcome: &Outcome) -> (fault: Option<Fault>)
    ensures
        fault == outcome_fault(target, outcome@),
{
    let fine = match (target, outcome) {
        (Target::Create(_), Outcome::Affected(_)) => true,
        (Target::Update(_), Outcome::Affected(_)) => true,
        (Target::Delete(_), Outcome::Affected(_)) => true,
        (Target::Read(_), Outcome::Row(None)) => true,
        (Target::Read(entity), Outcome::Row(Some(row))) => row.fits(entity),
        (Target::List(entity), Outcome::Rows(rows)) => rows_fit(entity, rows),
        (Target::Login, Outcome::Rows(rows)) => {
            if rows.len() == 0 {
                true
            } else {
                assert(rows.deep_view()[0] == rows@[0]@);
                rows[0].fits(Entity::User)
            }
        },
        _ => false,
    };
    match outcome {
        Outcome::Unavailable => Some(Fault::Acquire),
        Outcome::Failed => Some(Fault::Query),
        _ => if fine {
            None
        } else {
            Some(Fault::Query)
        },
    }
}

/// The response to every failure inside a handler.
pub fn internal_error_response() -> (response: Response)
    ensures
        response@ == internal_error(),
{
    respond(Status::InternalError, "Internal error")
}

/// The response to a request that no route matches.
pub fn no_route_response() -> (response: Response)
    ensures
        response@ == no_route(),
{
    respond(Status::NotFound, "404 not found")
}

/// The response that confirms a write.
fn confirm(entity: Entity, done: &str) -> (response: Response)
    ensures
        response@ == confirmed(entity, done@),
{
    let mut body = String::from_str(entity.label_text());
    body.append(done);
    Response { status: Status::Success, body }
}

/// The response for a row that is not there.
fn miss(entity: Entity) -> (response: Response)
    ensures
        response@ == missing(entity),
{
    let mut body = String::from_str(entity.label_text());
    body.append(" not found");
    Response { status: Status::NotFound, body }
}

/// The values of a record as text parameters.
fn text_params_of(record: &Record) -> (params: Vec<Param>)
    ensures
        params.deep_view() == text_params(record@.values),
{
    let mut params: Vec<Param> = Vec::new();
    let mut i: usize = 0;
    while i < record.values.len()
        invariant
            i <= record.values.len(),
            params.len() == i,
            forall|j: int|
                0 <= j < i ==> (#[trigger] params@[j])@ == ParamView::Text(record.values@[j]@),
        decreases record.values.len() - i,
    {
        params.push(Param::Text(record.values[i].clone()));
        i += 1;
    }
    assert(params.deep_view() =~= text_params(record@.values));
    params
}

/// Plans the request for `target`: the statement that serves it, or the
/// internal error when its identifier is no number or `body`, what was read
/// from its body, is no record with the values that the target needs. For a
/// target that reads no body, `body` is not looked at.
pub fn plan(target: Target, request: &Request, body: Option<Record>) -> (step: Step)
    ensures
        step@ == planned(target, request@.id, body.deep_view()),
{
    let mut params: Vec<Param> = Vec::new();
    if target.needs_body() {
        match &body {
            Some(record) => {
                if record.values.len() != target.body_values() {
                    return Step::Reply(internal_error_response());
                }
                params = text_params_of(record);
            },
            None => {
                return Step::Reply(internal_error_response());
            },
        }
    }
    match target {
        Target::Read(_) | Target::Update(_) | Target::Delete(_) => {
            match request.id {
                Some(id) => {
                    let ghost before = params.deep_view();
                    params.push(Param::Int(id));
                    assert(params.deep_view() =~= before.push(ParamView::Int(id)));
                },
                None => {
                    return Step::Reply(internal_error_response());
                },
            }
        },
        Target::Create(_) | Target::List(_) | Target::Login => {},
    }
    assert(params.deep_view() =~= params_of(target, request@.id, body.deep_view()));
    Step::Run(
        Statement { call: target.call_kind(), sql: String::from_str(target.sql_text()), params },
    )
}

/// Settles the request for `target`: the response for the outcome of its
/// statement.
pub fn settle(target: Target, outcome: &Outcome) -> (response: Response)
    ensures
        response@ == settled(target, outcome@),
{
    match target {
        Target::Create(entity) => match outcome {
            Outcome::Affected(_) => confirm(entity, " created"),
            _ => internal_error_response(),
        },
        Target::Read(entity) => match outcome {
            Outcome::Row(Some(row)) => {
                if row.fits(entity) {
                    Response { status: Status::Success, body: record_json(entity, row) }
                } else {
                    internal_error_response()
                }
            },
            Outcome::Row(None) => miss(entity),
            _ => internal_error_response(),
        },
        Target::List(entity) => match outcome {
            Outcome::Rows(rows) => {
                if rows_fit(entity, rows) {
                    Response { status: Status::Success, body: list_json(entity, rows) }
                } else {
                    internal_error_response()
                }
            },
            _ => internal_error_response(),
        },
        Target::Update(entity) => match outcome {
            Outcome::Affected(_) => confirm(entity, " updated"),
            _ => internal_error_response(),
        },
        Target::Delete(entity) => match outcome {
            Outcome::Affected(n) => {
                if *n == 0 {
                    miss(entity)
                } else {
                    confirm(entity, " deleted")
                }
            },
            _ => internal_error_response(),
        },
        Target::Login => match outcome {
            Outcome::Rows(rows) => {
                if rows.len() == 0 {
                    Response { status: Status::Unauthorized, body: login_failure_json() }
                } else if rows[0].fits(Entity::User) {
                    assert(rows.deep_view()[0] == rows@[0]@);
                    assert(rows@[0]@.values[0] == rows@[0].values@[0]@);
                    Response {
                        status: Status::Success,
                        body: login_success_json(rows[0].values[0].as_str()),
                    }
                } else {
                    assert(rows.deep_view()[0] == rows@[0]@);
                    internal_error_response()
                }
            },
            _ => internal_error_response(),
        },
    }
}

} // verus!
