use user_service::router::{get_id, route, Route};

#[test]
fn get_users_reads_all() {
    assert_eq!(route("GET", "/users"), Route::ReadAll);
}

#[test]
fn get_user_by_id_reads_one() {
    assert_eq!(route("GET", "/users/42"), Route::ReadOne);
    assert_eq!(get_id("/users/42"), "42");
}

#[test]
fn get_with_longer_name_has_no_route() {
    assert_eq!(route("GET", "/usersXYZ"), Route::NotFound);
}

#[test]
fn get_under_users_is_read_one_even_without_id() {
    assert_eq!(route("GET", "/users/"), Route::ReadOne);
    assert_eq!(route("GET", "/users/abc"), Route::ReadOne);
    assert_eq!(route("GET", "/users/1/posts"), Route::ReadOne);
}

#[test]
fn post_put_delete_need_the_slash() {
    assert_eq!(route("POST", "/users/"), Route::Create);
    assert_eq!(route("POST", "/users/anything"), Route::Create);
    assert_eq!(route("PUT", "/users/7"), Route::Update);
    assert_eq!(route("DELETE", "/users/7"), Route::Delete);
    assert_eq!(route("POST", "/users"), Route::NotFound);
    assert_eq!(route("PUT", "/users"), Route::NotFound);
    assert_eq!(route("DELETE", "/users"), Route::NotFound);
}

#[test]
fn other_methods_and_paths_have_no_route() {
    assert_eq!(route("PATCH", "/users/1"), Route::NotFound);
    assert_eq!(route("get", "/users"), Route::NotFound);
    assert_eq!(route("GET", "/user"), Route::NotFound);
    assert_eq!(route("GET", "/"), Route::NotFound);
    assert_eq!(route("GET", ""), Route::NotFound);
    assert_eq!(route("", ""), Route::NotFound);
    assert_eq!(route("GET", "/users?page=1"), Route::NotFound);
    assert_eq!(route("GET", "users/1"), Route::NotFound);
    assert_eq!(route("GETX", "/users/1"), Route::NotFound);
    assert_eq!(route("POSTS", "/users/"), Route::NotFound);
}

#[test]
fn get_id_takes_third_piece() {
    assert_eq!(get_id("/users/42"), "42");
    assert_eq!(get_id("/users/42/posts"), "42");
    assert_eq!(get_id("/users/abc"), "abc");
    assert_eq!(get_id("/users/-7"), "-7");
    assert_eq!(get_id("a/b/c/d"), "c");
}

#[test]
fn get_id_is_empty_without_third_piece() {
    assert_eq!(get_id(""), "");
    assert_eq!(get_id("/"), "");
    assert_eq!(get_id("/users"), "");
    assert_eq!(get_id("/users/"), "");
    assert_eq!(get_id("/users//9"), "");
    assert_eq!(get_id("users"), "");
}

#[test]
fn get_id_takes_first_token_of_the_piece() {
    assert_eq!(get_id("/users/42 HTTP"), "42");
    assert_eq!(get_id("/users/  42\t43"), "42");
    assert_eq!(get_id("/users/   /x"), "");
    assert_eq!(get_id("/users/42?verbose x"), "42?verbose");
}

#[test]
fn get_id_reads_a_whole_request_line() {
    assert_eq!(get_id("GET /users/42 HTTP/1.1\r\nHost: x\r\n\r\n"), "42");
    assert_eq!(get_id("GET /users/ HTTP/1.1"), "HTTP");
}

#[test]
fn get_id_counts_characters_not_bytes() {
    assert_eq!(get_id("/üsers/é7 x"), "é7");
}
