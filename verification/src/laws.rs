//! What holds of the codec, of the router, and of the operations over every
//! table that behaves as `TableView` says.

use vstd::prelude::*;
use crate::json::{user_of_body, user_text, users_text};
use crate::number::{
    decimal_text, is_digit, lemma_decimal_is_read_back, lemma_decimal_text, parse_i32,
};
use crate::operation::{
    outcome_of, response_of, step_of, OutcomeView, ReplyView, StatementView, StepView,
};
use crate::router::{id_token, route_of, under_users, user_path, Route};
use crate::scan::{
    first_token, is_space, lemma_first_of, lemma_first_of_is, segment, token_start, Class,
};
use crate::table::{lemma_position, TableView};
use crate::user::UserView;
use crate::wire::{
    blank_line_at, body_of, first_blank_line, head_of, lemma_first_blank_line,
    lemma_first_blank_line_is, RequestView, Status,
};

verus! {

/// A token holds no white space, and the first token of a text is empty
/// only where the text holds nothing else.
pub proof fn lemma_first_token(s: Seq<char>)
    ensures
        forall|i: int| 0 <= i < first_token(s).len() ==> !is_space(#[trigger] first_token(s)[i]),
        first_token(s).len() == 0 <==> forall|i: int| 0 <= i < s.len() ==> is_space(#[trigger] s[i]),
{
    lemma_first_of(s, Class::NonSpace, 0);
    lemma_first_of(s, Class::Space, token_start(s));
    if first_token(s).len() > 0 {
        assert(!is_space(s[token_start(s)]));
    }
}

/// The blank line: CR LF CR LF.
pub open spec fn blank_line() -> Seq<char> {
    seq!['\r', '\n', '\r', '\n']
}

/// Whether `s` ends with CR LF.
pub open spec fn ends_with_line_end(s: Seq<char>) -> bool {
    s.len() >= 2 && s[s.len() - 2] == '\r' && s[s.len() - 1] == '\n'
}

/// A header region without a blank line and without a line end at its end,
/// then a blank line, then a body, is taken apart again into that header
/// region and that body: nothing of the headers reaches the body, whatever
/// they hold.
pub proof fn lemma_body_after_head(head: Seq<char>, body: Seq<char>)
    requires
        first_blank_line(head, 0) == head.len(),
        !ends_with_line_end(head),
    ensures
        head_of(head + blank_line() + body) == head,
        body_of(head + blank_line() + body) == body,
{
    let s = head + blank_line() + body;
    let at = head.len() as int;
    lemma_first_blank_line(head, 0);
    assert(blank_line_at(s, at));
    assert forall|k: int| 0 <= k < at implies !blank_line_at(s, k) by {
        if k + 4 <= at {
            assert(!blank_line_at(head, k));
            assert(s[k] == head[k] && s[k + 1] == head[k + 1] && s[k + 2] == head[k + 2] && s[k
                + 3] == head[k + 3]);
        } else if k + 3 == at {
            assert(s[k + 3] == '\r');
        } else if k + 2 == at {
            assert(s[k] == head[k] && s[k + 1] == head[k + 1]);
        } else {
            assert(s[k + 1] == '\r');
        }
    }
    lemma_first_blank_line_is(s, 0, at);
    assert(s.take(at) =~= head);
    assert(s.skip(at + 4) =~= body);
}

/// Among the requests with the method `GET`, those whose path lies under
/// `/users/` read one user, the one whose path is `/users` reads all, and no
/// other has a route: a longer name that begins with `/users` has none.
pub proof fn lemma_get_routes(path: Seq<char>)
    ensures
        route_of("GET"@, path) == Route::ReadOne <==> under_users(path),
        route_of("GET"@, path) == Route::ReadAll <==> path == "/users"@,
        route_of("GET"@, path) == Route::NotFound <==> !under_users(path) && path != "/users"@,
{
    reveal_strlit("GET");
    reveal_strlit("POST");
    reveal_strlit("PUT");
    reveal_strlit("DELETE");
    reveal_strlit("/users");
    reveal_strlit("/users/");
    assert("GET"@.len() == 3 && "POST"@.len() == 4 && "PUT"@.len() == 3 && "DELETE"@.len() == 6);
    assert("GET"@[0] == 'G' && "PUT"@[0] == 'P');
    assert("/users"@.len() == 6 && "/users/"@.len() == 7);
}

/// The path of a user lies under `/users/`, and the identifier is read back
/// from it: a request with this path that reads, updates or deletes is about
/// this user.
pub proof fn lemma_user_path(id: i32)
    ensures
        under_users(user_path(id)),
        id_token(user_path(id)) == decimal_text(id as int),
        parse_i32(id_token(user_path(id))) == Some(id),
{
    reveal_strlit("/users/");
    let head = "/users/"@;
    let digits = decimal_text(id as int);
    let path = user_path(id);
    lemma_decimal_text(id as int);
    lemma_decimal_is_read_back(id);
    assert(path.subrange(0, head.len() as int) =~= head);
    assert forall|i: int| 0 <= i < digits.len() implies digits[i] != '/' && !is_space(
        #[trigger] digits[i],
    ) by {
        assert(is_digit(digits[i]) || digits[i] == '-');
    }
    let slash = Class::Is('/');
    lemma_first_of_is(path, slash, 0, 0);
    let rest = path.skip(1);
    lemma_first_of_is(rest, slash, 0, 5);
    let last = rest.skip(6);
    assert(last =~= digits);
    lemma_first_of_is(digits, slash, 0, digits.len() as int);
    assert(digits.take(digits.len() as int) =~= digits);
    assert(segment(path, '/', 2) == digits) by {
        reveal_with_fuel(segment, 3);
    }
    lemma_first_of_is(digits, Class::NonSpace, 0, 0);
    lemma_first_of_is(digits, Class::Space, 0, digits.len() as int);
    assert(digits.subrange(0, digits.len() as int) =~= digits);
}

/// A body gives a user only with a name and an email that are not empty,
/// and never with an identifier.
pub proof fn lemma_body_user(body: Seq<char>)
    ensures
        user_of_body(body) matches Ok(user) ==> user.id is None && user.name.len() > 0
            && user.email.len() > 0,
{
}

/// A request to create or update a user whose body gives no user, be it no
/// JSON, without a name or an email, or with an empty one, is answered at
/// once with the status 500, and no statement is sent.
pub proof fn lemma_malformed_body(request: RequestView)
    requires
        route_of(request.method, request.path) == Route::Create || route_of(
            request.method,
            request.path,
        ) == Route::Update,
    ensures
        user_of_body(request.body) is Err ==> (step_of(request) matches StepView::Answer(response)
            && response.status == Status::InternalServerError),
{
}

/// The identifier that the table hands out next belongs to no row yet.
pub proof fn lemma_next_id_is_fresh(table: TableView)
    requires
        table.wf(),
        table.has_room(),
    ensures
        !table.has(table.next_id as i32),
{
    lemma_position(table.rows, table.next_id as i32, 0);
}

/// Creating a user from a body that gives one succeeds wherever the table
/// can still hand out an identifier, and reading all users afterwards
/// succeeds with every row of the table, among them one with the body's name
/// and email under an identifier that no row had before.
pub proof fn lemma_create_then_read_all(table: TableView, create: RequestView, read: RequestView)
    requires
        table.wf(),
        table.has_room(),
        route_of(create.method, create.path) == Route::Create,
        route_of(read.method, read.path) == Route::ReadAll,
    ensures
        user_of_body(create.body) matches Ok(user) ==> {
            let insert = StatementView::Insert { name: user.name, email: user.email };
            let row = UserView { id: Some(table.next_id as i32), name: user.name, email: user.email };
            let then = table.after(insert);
            &&& step_of(create) == StepView::Execute(insert)
            &&& outcome_of(insert, table.reply(insert)) == OutcomeView::Success("User created"@)
            &&& !table.has(table.next_id as i32)
            &&& step_of(read) == StepView::Execute(StatementView::SelectAll)
            &&& then.reply(StatementView::SelectAll) == ReplyView::Rows(then.rows)
            &&& then.rows.contains(row)
            &&& outcome_of(StatementView::SelectAll, then.reply(StatementView::SelectAll))
                == OutcomeView::Success(users_text(then.rows))
        },
{
    lemma_next_id_is_fresh(table);
    if let Ok(user) = user_of_body(create.body) {
        let insert = StatementView::Insert { name: user.name, email: user.email };
        let row = UserView { id: Some(table.next_id as i32), name: user.name, email: user.email };
        let then = table.after(insert);
        assert(then.rows[table.rows.len() as int] == row);
    }
}

/// Creating a user and then reading the user with the identifier that the
/// table handed out succeeds with that user: the same name and email, and
/// the identifier.
pub proof fn lemma_create_then_read_one(table: TableView, name: Seq<char>, email: Seq<char>)
    requires
        table.wf(),
        table.has_room(),
    ensures
        ({
            let insert = StatementView::Insert { name, email };
            let id = table.next_id as i32;
            let row = UserView { id: Some(id), name, email };
            let select = StatementView::SelectOne { id };
            &&& table.after(insert).reply(select) == ReplyView::Rows(seq![row])
            &&& outcome_of(select, table.after(insert).reply(select)) == OutcomeView::Success(
                user_text(row),
            )
        }),
{
    let insert = StatementView::Insert { name, email };
    let id = table.next_id as i32;
    let then = table.after(insert);
    lemma_next_id_is_fresh(table);
    lemma_position(table.rows, id, 0);
    lemma_position(then.rows, id, 0);
    let at = table.rows.len() as int;
    assert(then.rows[at].id == Some(id));
    assert forall|k: int| 0 <= k < at implies (#[trigger] then.rows[k]).id != Some(id) by {
        assert(then.rows[k] == table.rows[k]);
    }
    assert(then.position(id) == at);
}

/// Reading a user whose identifier no row has ends in "not found", and the
/// response says so with the status 404.
pub proof fn lemma_read_absent(table: TableView, read: RequestView, id: i32)
    requires
        !table.has(id),
        route_of(read.method, read.path) == Route::ReadOne,
        parse_i32(id_token(read.path)) == Some(id),
    ensures
        step_of(read) == StepView::Execute(StatementView::SelectOne { id }),
        outcome_of(StatementView::SelectOne { id }, table.reply(StatementView::SelectOne { id }))
            == OutcomeView::NotFound,
        response_of(Route::ReadOne, OutcomeView::NotFound).status == Status::NotFound,
{
}

/// Updating a user succeeds whether or not a row has the identifier; where
/// none has, the table stays as it is.
pub proof fn lemma_update_succeeds(table: TableView, update: RequestView, id: i32)
    requires
        route_of(update.method, update.path) == Route::Update,
        parse_i32(id_token(update.path)) == Some(id),
    ensures
        user_of_body(update.body) matches Ok(user) ==> {
            let statement = StatementView::Update { id, name: user.name, email: user.email };
            &&& step_of(update) == StepView::Execute(statement)
            &&& outcome_of(statement, table.reply(statement)) == OutcomeView::Success(
                "user updated"@,
            )
            &&& !table.has(id) ==> table.after(statement) == table
        },
{
}

/// Deleting a user succeeds whether or not a row has the identifier; where
/// none has, the table stays as it is, and where one has, none has it
/// afterwards.
pub proof fn lemma_delete_succeeds(table: TableView, delete: RequestView, id: i32)
    requires
        table.wf(),
        route_of(delete.method, delete.path) == Route::Delete,
        parse_i32(id_token(delete.path)) == Some(id),
    ensures
        ({
            let statement = StatementView::Delete { id };
            &&& step_of(delete) == StepView::Execute(statement)
            &&& outcome_of(statement, table.reply(statement)) == OutcomeView::Success(
                "user deleted"@,
            )
            &&& !table.has(id) ==> table.after(statement) == table
            &&& !table.after(statement).has(id)
        }),
{
    let statement = StatementView::Delete { id };
    let then = table.after(statement);
    lemma_position(table.rows, id, 0);
    lemma_position(then.rows, id, 0);
    if table.has(id) && then.has(id) {
        let at = table.position(id);
        let k = then.position(id);
        if k < at {
            assert(then.rows[k] == table.rows[k]);
        } else {
            assert(then.rows[k] == table.rows[k + 1]);
        }
    }
}

/// A request for one user, to read, update or delete it, whose path names no
/// 32-bit integer is answered at once with the status 500, never with 404,
/// and no statement is sent.
pub proof fn lemma_malformed_id(request: RequestView)
    requires
        route_of(request.method, request.path) == Route::ReadOne || route_of(
            request.method,
            request.path,
        ) == Route::Update || route_of(request.method, request.path) == Route::Delete,
        parse_i32(id_token(request.path)) is None,
    ensures
        step_of(request) matches StepView::Answer(response) && response.status
            == Status::InternalServerError,
{
}

} // verus!
