//! The five operations. Each needs at most one statement on the table of
//! users: a request is turned into that statement, or answered at once where
//! it asks for none; the table's reply is turned into an outcome, and the
//! outcome into a response.

use vstd::prelude::*;
use vstd::string::StringExecFns;
use crate::json::{get_user_request_body, user_json, user_of_body, user_text, users_json, users_text};
use crate::number::{parse_i32, parse_id};
use crate::router::{get_id, id_token, route, route_of, Route};
use crate::user::{views, User, UserView};
use crate::wire::{ParsedRequest, RequestView, Status};

verus! {

/// One statement on the table of users.
#[derive(Debug, PartialEq, Eq)]
pub enum Statement {
    /// A new row with these values; the table assigns the identifier.
    Insert { name: String, email: String },
    /// The row with this identifier.
    SelectOne { id: i32 },
    /// All rows.
    SelectAll,
    /// New values for the row with this identifier.
    Update { id: i32, name: String, email: String },
    /// The row with this identifier is removed.
    Delete { id: i32 },
}

/// A statement as contracts see it.
pub ghost enum StatementView {
    Insert { name: Seq<char>, email: Seq<char> },
    SelectOne { id: i32 },
    SelectAll,
    Update { id: i32, name: Seq<char>, email: Seq<char> },
    Delete { id: i32 },
}

impl View for Statement {
    type V = StatementView;

    open spec fn view(&self) -> StatementView {
        match *self {
            Statement::Insert { name, email } => StatementView::Insert {
                name: name@,
                email: email@,
            },
            Statement::SelectOne { id } => StatementView::SelectOne { id },
            Statement::SelectAll => StatementView::SelectAll,
            Statement::Update { id, name, email } => StatementView::Update {
                id,
                name: name@,
                email: email@,
            },
            Statement::Delete { id } => StatementView::Delete { id },
        }
    }
}

/// The operation that a statement belongs to.
pub open spec fn operation_of(statement: StatementView) -> Route {
    match statement {
        StatementView::Insert { .. } => Route::Create,
        StatementView::SelectOne { .. } => Route::ReadOne,
        StatementView::SelectAll => Route::ReadAll,
        StatementView::Update { .. } => Route::Update,
        StatementView::Delete { .. } => Route::Delete,
    }
}

/// The SQL of a statement, with `$1`, `$2`, `$3` for its values in the order
/// of its fields, the identifier last.
pub open spec fn sql_text(statement: StatementView) -> Seq<char> {
    match statement {
        StatementView::Insert { .. } => "INSERT INTO users (name, email) VALUES ($1, $2)"@,
        StatementView::SelectOne { .. } => "SELECT * FROM users WHERE id = $1"@,
        StatementView::SelectAll => "SELECT * FROM users"@,
        StatementView::Update { .. } => "UPDATE users SET name = $1, email = $2 WHERE id = $3"@,
        StatementView::Delete { .. } => "DELETE FROM users WHERE id = $1"@,
    }
}

impl Statement {
    /// The operation that the statement belongs to.
    pub fn operation(&self) -> (operation: Route)
        ensures
            operation == operation_of(self@),
    {
        match self {
            Statement::Insert { .. } => Route::Create,
            Statement::SelectOne { .. } => Route::ReadOne,
            Statement::SelectAll => Route::ReadAll,
            Statement::Update { .. } => Route::Update,
            Statement::Delete { .. } => Route::Delete,
        }
    }

    /// The SQL of the statement.
    pub fn sql(&self) -> (sql: &'static str)
        ensures
            sql@ == sql_text(self@),
    {
        match self {
            Statement::Insert { .. } => "INSERT INTO users (name, email) VALUES ($1, $2)",
            Statement::SelectOne { .. } => "SELECT * FROM users WHERE id = $1",
            Statement::SelectAll => "SELECT * FROM users",
            Statement::Update { .. } => "UPDATE users SET name = $1, email = $2 WHERE id = $3",
            Statement::Delete { .. } => "DELETE FROM users WHERE id = $1",
        }
    }
}

/// What came back when a statement was sent to the table.
#[derive(Debug, PartialEq, Eq)]
pub enum Reply {
    /// No connection could be opened, so the statement was not sent.
    ConnectFailed,
    /// The statement was sent and failed.
    StatementFailed,
    /// The statement ran and returns no rows; it touched `affected` rows.
    Executed { affected: u64 },
    /// The statement ran and returned these rows.
    Rows(Vec<User>),
}

/// A reply as contracts see it.
pub ghost enum ReplyView {
    ConnectFailed,
    StatementFailed,
    Executed { affected: u64 },
    Rows(Seq<UserView>),
}

impl View for Reply {
    type V = ReplyView;

    open spec fn view(&self) -> ReplyView {
        match *self {
            Reply::ConnectFailed => ReplyView::ConnectFailed,
            Reply::StatementFailed => ReplyView::StatementFailed,
            Reply::Executed { affected } => ReplyView::Executed { affected },
            Reply::Rows(rows) => ReplyView::Rows(views(rows@)),
        }
    }
}

/// How an operation ended.
#[derive(Debug, PartialEq, Eq)]
pub enum Outcome {
    Success(String),
    NotFound,
    InternalError,
}

/// An outcome as contracts see it.
pub ghost enum OutcomeView {
    Success(Seq<char>),
    NotFound,
    InternalError,
}

impl View for Outcome {
    type V = OutcomeView;

    open spec fn view(&self) -> OutcomeView {
        match *self {
            Outcome::Success(payload) => OutcomeView::Success(payload@),
            Outcome::NotFound => OutcomeView::NotFound,
            Outcome::InternalError => OutcomeView::InternalError,
        }
    }
}

/// A response before it is encoded.
#[derive(Debug, PartialEq, Eq)]
pub struct Response {
    pub status: Status,
    pub payload: String,
}

/// A response as contracts see it.
pub ghost struct ResponseView {
    pub status: Status,
    pub payload: Seq<char>,
}

impl View for Response {
    type V = ResponseView;

    open spec fn view(&self) -> ResponseView {
        ResponseView { status: self.status, payload: self.payload@ }
    }
}

/// What to do with a request.
#[derive(Debug, PartialEq, Eq)]
pub enum Step {
    /// Answer at once; the table is not asked.
    Answer(Response),
    /// Send this statement to the table, and answer by its reply.
    Execute(Statement),
}

/// A step as contracts see it.
pub ghost enum StepView {
    Answer(ResponseView),
    Execute(StatementView),
}

impl View for Step {
    type V = StepView;

    open spec fn view(&self) -> StepView {
        match *self {
            Step::Answer(response) => StepView::Answer(response@),
            Step::Execute(statement) => StepView::Execute(statement@),
        }
    }
}

/// The outcome of a statement, given the table's reply.
///
/// A statement that changes the table succeeded when it ran, however many
/// rows it touched. Reading one user finds it when exactly one row came
/// back; without a connection it is an internal error, and in every other
/// case the user is not found. Whatever else goes wrong is an internal error.
pub open spec fn outcome_of(statement: StatementView, reply: ReplyView) -> OutcomeView {
    match statement {
        StatementView::Insert { .. } => match reply {
            ReplyView::Executed { .. } => OutcomeView::Success("User created"@),
            _ => OutcomeView::InternalError,
        },
        StatementView::SelectOne { .. } => match reply {
            ReplyView::ConnectFailed => OutcomeView::InternalError,
            ReplyView::Rows(rows) => if rows.len() == 1 {
                OutcomeView::Success(user_text(rows[0]))
            } else {
                OutcomeView::NotFound
            },
            _ => OutcomeView::NotFound,
        },
        StatementView::SelectAll => match reply {
            ReplyView::Rows(rows) => OutcomeView::Success(users_text(rows)),
            _ => OutcomeView::InternalError,
        },
        StatementView::Update { .. } => match reply {
            ReplyView::Executed { .. } => OutcomeView::Success("user updated"@),
            _ => OutcomeView::InternalError,
        },
        StatementView::Delete { .. } => match reply {
            ReplyView::Executed { .. } => OutcomeView::Success("user deleted"@),
            _ => OutcomeView::InternalError,
        },
    }
}

/// The response that tells of an outcome of the operation `operation`
/// (`Route::NotFound` where the request had no route).
pub open spec fn response_of(operation: Route, outcome: OutcomeView) -> ResponseView {
    match outcome {
        OutcomeView::Success(payload) => ResponseView { status: Status::Okay, payload },
        OutcomeView::NotFound => ResponseView {
            status: Status::NotFound,
            payload: if operation == Route::ReadOne {
                "User not found"@
            } else {
                "404 Not Found"@
            },
        },
        OutcomeView::InternalError => ResponseView {
            status: Status::InternalServerError,
            payload: if operation == Route::Update || operation == Route::Delete {
                "ERROR"@
            } else {
                "Error"@
            },
        },
    }
}

/// The response to a request that fails before any statement is sent.
pub open spec fn refusal(operation: Route) -> StepView {
    StepView::Answer(response_of(operation, OutcomeView::InternalError))
}

/// The step for a request to create a user: its body must give a user.
pub open spec fn post_step(request: RequestView) -> StepView {
    match user_of_body(request.body) {
        Ok(user) => StepView::Execute(StatementView::Insert { name: user.name, email: user.email }),
        Err(_) => refusal(Route::Create),
    }
}

/// The step for a request to read one user: its path must name a number.
pub open spec fn get_step(request: RequestView) -> StepView {
    match parse_i32(id_token(request.path)) {
        Some(id) => StepView::Execute(StatementView::SelectOne { id }),
        None => refusal(Route::ReadOne),
    }
}

/// The step for a request to update a user: its path must name a number
/// and its body must give a user.
pub open spec fn put_step(request: RequestView) -> StepView {
    match (parse_i32(id_token(request.path)), user_of_body(request.body)) {
        (Some(id), Ok(user)) => StepView::Execute(
            StatementView::Update { id, name: user.name, email: user.email },
        ),
        _ => refusal(Route::Update),
    }
}

/// The step for a request to delete a user: its path must name a number.
pub open spec fn delete_step(request: RequestView) -> StepView {
    match parse_i32(id_token(request.path)) {
        Some(id) => StepView::Execute(StatementView::Delete { id }),
        None => refusal(Route::Delete),
    }
}

/// The step for any request: that of the operation it is routed to, and a
/// plain "not found" where it has no route.
pub open spec fn step_of(request: RequestView) -> StepView {
    match route_of(request.method, request.path) {
        Route::Create => post_step(request),
        Route::ReadOne => get_step(request),
        Route::ReadAll => StepView::Execute(StatementView::SelectAll),
        Route::Update => put_step(request),
        Route::Delete => delete_step(request),
        Route::NotFound => StepView::Answer(response_of(Route::NotFound, OutcomeView::NotFound)),
    }
}

/// Turns an outcome into the response that tells of it.
pub fn respond(operation: Route, outcome: Outcome) -> (response: Response)
    ensures
        response@ == response_of(operation, outcome@),
{
    match outcome {
        Outcome::Success(payload) => Response { status: Status::Okay, payload },
        Outcome::NotFound => {
            let payload = match operation {
                Route::ReadOne => "User not found",
                _ => "404 Not Found",
            };
            Response { status: Status::NotFound, payload: String::from_str(payload) }
        },
        Outcome::InternalError => {
            let payload = match operation {
                Route::Update | Route::Delete => "ERROR",
                _ => "Error",
            };
            Response { status: Status::InternalServerError, payload: String::from_str(payload) }
        },
    }
}

/// Plans the creation of a user.
pub fn handle_post_request(request: &ParsedRequest) -> (step: Step)
    ensures
        step@ == post_step(request@),
{
    match get_user_request_body(request.body.as_str()) {
        Ok(user) => Step::Execute(Statement::Insert { name: user.name, email: user.email }),
        Err(_) => Step::Answer(respond(Route::Create, Outcome::InternalError)),
    }
}

/// Plans the reading of one user.
pub fn handle_get_request(request: &ParsedRequest) -> (step: Step)
    ensures
        step@ == get_step(request@),
{
    match parse_id(get_id(request.path.as_str())) {
        Some(id) => Step::Execute(Statement::SelectOne { id }),
        None => Step::Answer(respond(Route::ReadOne, Outcome::InternalError)),
    }
}

/// Plans the reading of all users.
pub fn handle_get_all_request() -> (step: Step)
    ensures
        step@ == StepView::Execute(StatementView::SelectAll),
{
    Step::Execute(Statement::SelectAll)
}

/// Plans the update of a user.
pub fn handle_put_request(request: &ParsedRequest) -> (step: Step)
    ensures
        step@ == put_step(request@),
{
    let id = parse_id(get_id(request.path.as_str()));
    let body = get_user_request_body(request.body.as_str());
    match (id, body) {
        (Some(id), Ok(user)) => Step::Execute(
            Statement::Update { id, name: user.name, email: user.email },
        ),
        _ => Step::Answer(respond(Route::Update, Outcome::InternalError)),
    }
}

/// Plans the deletion of a user.
pub fn handle_delete_request(request: &ParsedRequest) -> (step: Step)
    ensures
        step@ == delete_step(request@),
{
    match parse_id(get_id(request.path.as_str())) {
        Some(id) => Step::Execute(Statement::Delete { id }),
        None => Step::Answer(respond(Route::Delete, Outcome::InternalError)),
    }
}

/// Routes a request and plans the operation it asks for.
pub fn plan(request: &ParsedRequest) -> (step: Step)
    ensures
        step@ == step_of(request@),
{
    match route(request.method.as_str(), request.path.as_str()) {
        Route::Create => handle_post_request(request),
        Route::ReadOne => handle_get_request(request),
        Route::ReadAll => handle_get_all_request(),
        Route::Update => handle_put_request(request),
        Route::Delete => handle_delete_request(request),
        Route::NotFound => Step::Answer(respond(Route::NotFound, Outcome::NotFound)),
    }
}

/// Turns the table's reply to a statement into the outcome of the operation.
pub fn conclude(statement: &Statement, reply: &Reply) -> (outcome: Outcome)
    ensures
        outcome@ == outcome_of(statement@, reply@),
{
    match statement {
        Statement::Insert { .. } => match reply {
            Reply::Executed { .. } => Outcome::Success(String::from_str("User created")),
            _ => Outcome::InternalError,
        },
        Statement::SelectOne { .. } => match reply {
            Reply::ConnectFailed => Outcome::InternalError,
            Reply::Rows(rows) => if rows.len() == 1 {
                Outcome::Success(user_json(&rows[0]))
            } else {
                Outcome::NotFound
            },
            _ => Outcome::NotFound,
        },
        Statement::SelectAll => match reply {
            Reply::Rows(rows) => Outcome::Success(users_json(rows.as_slice())),
            _ => Outcome::InternalError,
        },
        Statement::Update { .. } => match reply {
            Reply::Executed { .. } => Outcome::Success(String::from_str("user updated")),
            _ => Outcome::InternalError,
        },
        Statement::Delete { .. } => match reply {
            Reply::Executed { .. } => Outcome::Success(String::from_str("user deleted")),
            _ => Outcome::InternalError,
        },
    }
}

/// The response to a request whose statement got this reply.
pub fn finish(statement: &Statement, reply: &Reply) -> (response: Response)
    ensures
        response@ == response_of(operation_of(statement@), outcome_of(statement@, reply@)),
{
    respond(statement.operation(), conclude(statement, reply))
}

} // verus!
