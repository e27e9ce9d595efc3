//! JSON as the service reads and writes it. Reading a document and quoting a
//! text are left to `serde_json`; which members make a user, which users are
//! refused, and how a user and a list of users are laid out, is settled here.

use vstd::prelude::*;
use vstd::string::StringExecFns;
use crate::number::{decimal, decimal_text, digit_char};
use crate::user::{views, User, UserView};

verus! {

#[verifier::external_type_specification]
#[verifier::external_body]
pub struct ExValue(serde_json::Value);

#[verifier::external_type_specification]
#[verifier::external_body]
pub struct ExError(serde_json::Error);

/// The members of a JSON value that are texts, by key: of an object, each
/// key whose value is a string, with that string; of any other value, none.
pub uninterp spec fn json_text_members(value: serde_json::Value) -> Map<Seq<char>, Seq<char>>;

/// The text members of the JSON document that `text` is, or `None` where
/// `text` is no JSON document.
pub uninterp spec fn json_document(text: Seq<char>) -> Option<Map<Seq<char>, Seq<char>>>;

/// The character that writes the hexadecimal digit `d`, in lower case.
pub open spec fn hex_char(d: int) -> char {
    if d < 10 {
        digit_char(d)
    } else if d == 10 {
        'a'
    } else if d == 11 {
        'b'
    } else if d == 12 {
        'c'
    } else if d == 13 {
        'd'
    } else if d == 14 {
        'e'
    } else {
        'f'
    }
}

/// How one character stands inside a JSON string literal: the quote, the
/// backslash and the control characters below U+0020 are escaped, the
/// control characters by their short form where JSON has one and by
/// `\u00` and two hexadecimal digits where it has none; every other
/// character stands as it is.
pub open spec fn escaped_char(c: char) -> Seq<char> {
    if c == '"' {
        seq!['\\', '"']
    } else if c == '\\' {
        seq!['\\', '\\']
    } else if c == '\u{8}' {
        seq!['\\', 'b']
    } else if c == '\t' {
        seq!['\\', 't']
    } else if c == '\n' {
        seq!['\\', 'n']
    } else if c == '\u{c}' {
        seq!['\\', 'f']
    } else if c == '\r' {
        seq!['\\', 'r']
    } else if (c as u32) < 0x20 {
        seq![
            '\\',
            'u',
            '0',
            '0',
            hex_char((c as u32) as int / 16),
            hex_char((c as u32) as int % 16),
        ]
    } else {
        seq![c]
    }
}

/// The characters of `text` as they stand inside a JSON string literal.
pub open spec fn escaped_text(text: Seq<char>) -> Seq<char>
    decreases text.len(),
{
    if text.len() == 0 {
        Seq::empty()
    } else {
        escaped_text(text.drop_last()) + escaped_char(text.last())
    }
}

/// The JSON string literal that stands for `text`: a quote, the text with
/// its escapes, and a quote.
pub open spec fn json_quoted(text: Seq<char>) -> Seq<char> {
    seq!['"'] + escaped_text(text) + seq!['"']
}

/// `serde_json::from_str` at the type `serde_json::Value`. Not proved:
/// that it is a function of the text alone, which is all the contract
/// claims. It fails on text that is no single JSON document.
#[verifier::external_body]
fn parse_document(text: &str) -> (parsed: Result<serde_json::Value, serde_json::Error>)
    ensures
        match parsed {
            Ok(value) => json_document(text@) == Some(json_text_members(value)),
            Err(_) => json_document(text@) is None,
        },
{
    serde_json::from_str::<serde_json::Value>(text)
}

/// `serde_json::Value::get` with a text key, which finds a member of an
/// object and nothing in any other value; the member counts only where it
/// is a `Value::String`. Not proved: that this is what
/// `json_text_members` holds under `key`.
#[verifier::external_body]
fn text_member(document: &serde_json::Value, key: &str) -> (member: Option<String>)
    ensures
        match member {
            Some(text) => json_text_members(*document).contains_key(key@) && json_text_members(
                *document,
            )[key@] == text@,
            None => !json_text_members(*document).contains_key(key@),
        },
{
    match document.get(key) {
        Some(serde_json::Value::String(text)) => Some(text.clone()),
        _ => None,
    }
}

/// `serde_json::to_string` on a `str`. Not proved: that it does not fail,
/// since it writes into memory and a `str` is no map and has no serializer
/// of its own that could refuse; and that what it writes is `json_quoted`,
/// which is what its escape table and its compact formatter give.
#[verifier::external_body]
fn quote(text: &str) -> (quoted: Result<String, serde_json::Error>)
    ensures
        quoted is Ok,
        quoted->Ok_0@ == json_quoted(text@),
{
    serde_json::to_string(text)
}

/// Why a request body gives no user.
#[derive(Clone, Copy, Debug, PartialEq, Eq, Structural)]
pub enum BodyError {
    /// The body is no JSON document.
    NotJson,
    /// The document has no member `name` that is a text.
    NoName,
    /// The document has a name, but no member `email` that is a text.
    NoEmail,
    /// The document has both, and the name is empty.
    EmptyName,
    /// The document has both, the name is not empty, and the email is.
    EmptyEmail,
}

/// The text that `members` holds under `key`, if any.
pub open spec fn member_of(members: Map<Seq<char>, Seq<char>>, key: Seq<char>) -> Option<
    Seq<char>,
> {
    if members.contains_key(key) {
        Some(members[key])
    } else {
        None
    }
}

/// The user that a name and an email give, where both are there and
/// neither is empty: a user without an identifier. What is missing is told
/// before what is empty, and the name before the email.
pub open spec fn user_of_texts(name: Option<Seq<char>>, email: Option<Seq<char>>) -> Result<
    UserView,
    BodyError,
> {
    match (name, email) {
        (None, _) => Err(BodyError::NoName),
        (Some(_), None) => Err(BodyError::NoEmail),
        (Some(name), Some(email)) => if name.len() == 0 {
            Err(BodyError::EmptyName)
        } else if email.len() == 0 {
            Err(BodyError::EmptyEmail)
        } else {
            Ok(UserView { id: None, name, email })
        },
    }
}

/// The user that a document's text members give: its `name` and its
/// `email`, whatever else the document holds.
pub open spec fn user_of_members(members: Map<Seq<char>, Seq<char>>) -> Result<
    UserView,
    BodyError,
> {
    user_of_texts(member_of(members, "name"@), member_of(members, "email"@))
}

/// The user that a request body gives.
pub open spec fn user_of_body(body: Seq<char>) -> Result<UserView, BodyError> {
    match json_document(body) {
        None => Err(BodyError::NotJson),
        Some(members) => user_of_members(members),
    }
}

/// The view of what reading a body gave.
pub open spec fn body_view(read: Result<User, BodyError>) -> Result<UserView, BodyError> {
    match read {
        Ok(user) => Ok(user@),
        Err(error) => Err(error),
    }
}

/// The view of a text that may be missing.
pub open spec fn text_view(text: Option<String>) -> Option<Seq<char>> {
    match text {
        Some(text) => Some(text@),
        None => None,
    }
}

/// Makes a user of the name and the email that a document held, or says
/// which of the two it lacked or held empty.
pub fn user_from_members(name: Option<String>, email: Option<String>) -> (read: Result<
    User,
    BodyError,
>)
    ensures
        body_view(read) == user_of_texts(text_view(name), text_view(email)),
{
    match name {
        None => Err(BodyError::NoName),
        Some(name) => match email {
            None => Err(BodyError::NoEmail),
            Some(email) => if name.as_str().is_empty() {
                Err(BodyError::EmptyName)
            } else if email.as_str().is_empty() {
                Err(BodyError::EmptyEmail)
            } else {
                Ok(User { id: None, name, email })
            },
        },
    }
}

/// Reads a request body as a user document: a JSON object with the texts
/// `name` and `email`, neither of them empty. An `id` in it, like any other
/// member, is ignored.
pub fn get_user_request_body(body: &str) -> (read: Result<User, BodyError>)
    ensures
        body_view(read) == user_of_body(body@),
{
    match parse_document(body) {
        Err(_) => Err(BodyError::NotJson),
        Ok(document) => {
            let name = text_member(&document, "name");
            let email = text_member(&document, "email");
            user_from_members(name, email)
        },
    }
}

/// How an identifier is written in JSON.
pub open spec fn id_text(id: Option<i32>) -> Seq<char> {
    match id {
        Some(n) => decimal_text(n as int),
        None => "null"@,
    }
}

/// A JSON object with the members `id`, `name` and `email`, in this order
/// and with no space between the tokens, where `name` and `email` are JSON
/// values already.
pub open spec fn object_text(id: Option<i32>, name: Seq<char>, email: Seq<char>) -> Seq<char> {
    "{\"id\":"@ + id_text(id) + ",\"name\":"@ + name + ",\"email\":"@ + email + "}"@
}

/// A user as a JSON object: its identifier as a number, or `null` where it
/// has none, and its name and email as JSON strings.
pub open spec fn user_text(user: UserView) -> Seq<char> {
    object_text(user.id, json_quoted(user.name), json_quoted(user.email))
}

/// The objects of `users`, in order, with a comma between neighbours.
pub open spec fn joined_text(users: Seq<UserView>) -> Seq<char>
    decreases users.len(),
{
    if users.len() == 0 {
        Seq::empty()
    } else if users.len() == 1 {
        user_text(users[0])
    } else {
        joined_text(users.drop_last()) + ","@ + user_text(users.last())
    }
}

/// A run of users as a JSON array.
pub open spec fn users_text(users: Seq<UserView>) -> Seq<char> {
    "["@ + joined_text(users) + "]"@
}

/// Lays out the JSON object of a user whose name and email are quoted
/// already.
pub fn user_object(id: Option<i32>, name: &str, email: &str) -> (text: String)
    ensures
        text@ == object_text(id, name@, email@),
{
    let mut text = String::from_str("{\"id\":");
    match id {
        Some(n) => {
            let number = decimal(n);
            text.append(number.as_str());
        },
        None => {
            text.append("null");
        },
    }
    text.append(",\"name\":");
    text.append(name);
    text.append(",\"email\":");
    text.append(email);
    text.append("}");
    text
}

/// Writes a user as a JSON object.
pub fn user_json(user: &User) -> (text: String)
    ensures
        text@ == user_text(user@),
{
    let name = quote(user.name.as_str()).unwrap();
    let email = quote(user.email.as_str()).unwrap();
    user_object(user.id, name.as_str(), email.as_str())
}

/// Writes a run of users as a JSON array.
pub fn users_json(users: &[User]) -> (text: String)
    ensures
        text@ == users_text(views(users@)),
{
    let mut text = String::new();
    text.append("[");
    let mut done: usize = 0;
    while done < users.len()
        invariant
            done <= users.len(),
            text@ == "["@ + joined_text(views(users@).take(done as int)),
        decreases users.len() - done,
    {
        let ghost before = views(users@).take(done as int);
        let ghost after = views(users@).take(done + 1);
        proof {
            assert(after.drop_last() =~= before);
            assert(after.last() == users[done as int]@);
        }
        if done > 0 {
            text.append(",");
        }
        let user = user_json(&users[done]);
        text.append(user.as_str());
        proof {
            if done == 0 {
                assert(before =~= Seq::<UserView>::empty());
                assert(after[0] == users[0]@);
            }
            assert(text@ =~= "["@ + joined_text(after));
        }
        done = done + 1;
    }
    proof {
        assert(views(users@).take(done as int) =~= views(users@));
    }
    text.append("]");
    text
}

} // verus!
