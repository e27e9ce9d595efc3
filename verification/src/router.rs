//! The router: which of the five operations a method and a path ask for,
//! and the identifier that a path names.

use vstd::prelude::*;
use vstd::slice::slice_subrange;
use vstd::string::StrSliceExecFns;
use crate::number::decimal_text;
use crate::scan::{
    begins_with, chars_of, first_token, is_text, segment, segment_bounds, token_bounds,
};

verus! {

/// Where a request goes: to one of the five operations, or nowhere.
#[derive(Clone, Copy, Debug, PartialEq, Eq, Structural)]
pub enum Route {
    Create,
    ReadOne,
    ReadAll,
    Update,
    Delete,
    NotFound,
}

/// Whether `path` lies under the collection: it begins with `/users/`.
pub open spec fn under_users(path: Seq<char>) -> bool {
    "/users/"@.is_prefix_of(path)
}

/// The route of a method and a path. The rules are tried in this order and
/// the first that matches decides.
pub open spec fn route_of(method: Seq<char>, path: Seq<char>) -> Route {
    if method == "POST"@ && under_users(path) {
        Route::Create
    } else if method == "GET"@ && under_users(path) {
        Route::ReadOne
    } else if method == "GET"@ && path == "/users"@ {
        Route::ReadAll
    } else if method == "PUT"@ && under_users(path) {
        Route::Update
    } else if method == "DELETE"@ && under_users(path) {
        Route::Delete
    } else {
        Route::NotFound
    }
}

/// Routes a request by its method and path.
pub fn route(method: &str, path: &str) -> (to: Route)
    ensures
        to == route_of(method@, path@),
{
    let method = chars_of(method);
    let path = chars_of(path);
    let get = is_text(method.as_slice(), "GET");
    let under = begins_with(path.as_slice(), "/users/");
    if is_text(method.as_slice(), "POST") && under {
        Route::Create
    } else if get && under {
        Route::ReadOne
    } else if get && is_text(path.as_slice(), "/users") {
        Route::ReadAll
    } else if is_text(method.as_slice(), "PUT") && under {
        Route::Update
    } else if is_text(method.as_slice(), "DELETE") && under {
        Route::Delete
    } else {
        Route::NotFound
    }
}

/// The text that names the identifier in `path`: of the pieces between
/// slashes the third, and of that the first token; empty where the path has
/// no third piece or the piece has no token.
pub open spec fn id_token(path: Seq<char>) -> Seq<char> {
    first_token(segment(path, '/', 2))
}

/// The path of the user with the identifier `id`.
pub open spec fn user_path(id: i32) -> Seq<char> {
    "/users/"@ + decimal_text(id as int)
}

/// Cuts the identifier's text out of a path. Whether it is a number is not
/// looked at.
pub fn get_id(path: &str) -> (token: &str)
    ensures
        token@ == id_token(path@),
{
    let chars = chars_of(path);
    let (from, to) = segment_bounds(chars.as_slice(), '/', 2);
    let piece = slice_subrange(chars.as_slice(), from, to);
    let (start, end) = token_bounds(piece);
    proof {
        assert(path@.subrange(from + start, from + end) =~= first_token(piece@));
    }
    path.substring_char(from + start, from + end)
}

} // verus!
