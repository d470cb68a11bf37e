use vstd::prelude::*;
use crate::json::{models, to_json, to_json_array, user_json, users_json};
use crate::models::User;
use crate::wire::{body_of, classify, get_body, get_id, id_of, selector_of, Selector};

verus! {

/// The status of a response.
#[derive(Clone, Copy, Debug, PartialEq, Eq, Structural)]
pub enum Status {
    Success,
    NotFound,
    InternalError,
}

/// A response: a status and a body sent verbatim after the status line.
pub struct Response {
    pub status: Status,
    pub body: String,
}

/// The exact status line, with its headers, that precedes a body.
pub open spec fn status_line(s: Status) -> Seq<char> {
    match s {
        Status::Success => "HTTP/1.1 200 OK\r\nContent-Type: application/json\r\n\r\n"@,
        Status::NotFound => "HTTP/1.1 404 Not Found\r\n\r\n"@,
        Status::InternalError => "HTTP/1.1 500 Internal Server Error\r\n\r\n"@,
    }
}

/// `r` has status `s` and body `b`.
pub open spec fn is_reply(r: Response, s: Status, b: Seq<char>) -> bool {
    r.status == s && r.body@ == b
}

fn reply(status: Status, body: &str) -> (r: Response)
    ensures
        is_reply(r, status, body@),
{
    Response { status, body: String::from_str(body) }
}

impl Response {
    /// The reply as written to the client: the status line, then the body.
    pub fn encode(&self) -> (r: String)
        ensures
            r@ == status_line(self.status) + self.body@,
    {
        let mut out = match self.status {
            Status::Success => String::from_str("HTTP/1.1 200 OK\r\nContent-Type: application/json\r\n\r\n"),
            Status::NotFound => String::from_str("HTTP/1.1 404 Not Found\r\n\r\n"),
            Status::InternalError => String::from_str("HTTP/1.1 500 Internal Server Error\r\n\r\n"),
        };
        out.append(self.body.as_str());
        out
    }
}

/// One storage operation.
pub enum Call {
    Insert { name: String, email: String },
    SelectById { id: i32 },
    SelectAll,
    UpdateById { id: i32, name: String, email: String },
    DeleteById { id: i32 },
}

/// What storage reported for a call.
pub enum Outcome {
    /// The row was inserted.
    Inserted,
    /// The one row with the requested id.
    Row { user: User },
    /// No row has the requested id.
    NoRow,
    /// All rows, in the order storage gave them.
    Rows { users: Vec<User> },
    /// The update statement ran.
    Updated,
    /// The delete statement ran and removed `count` rows.
    Deleted { count: u64 },
    /// The connection or the statement failed.
    Failed,
}

/// What to do with a request.
pub enum Plan {
    /// Create a record from the payload, once it is decoded.
    Create { body: Vec<u8> },
    /// Update record `id` from the payload, once it is decoded.
    Update { id: i32, body: Vec<u8> },
    /// Run one storage call.
    Run { call: Call },
    /// Answer at once.
    Reply { response: Response },
}

pub open spec fn is_error_reply(p: Plan, text: Seq<char>) -> bool {
    p matches Plan::Reply { response } && is_reply(response, Status::InternalError, text)
}

/// The plan for a request: which storage call its selector asks for, with
/// its identifier and payload; a 500 reply when the identifier does not
/// parse; a 404 reply when no selector matches.
pub open spec fn plan_of(p: Plan, r: Seq<u8>) -> bool {
    match selector_of(r) {
        Selector::Create => p matches Plan::Create { body } && body@ == body_of(r),
        Selector::ReadOne => match id_of(r) {
            Some(id) => p matches Plan::Run { call: Call::SelectById { id: x } } && x == id,
            None => is_error_reply(p, "Error"@),
        },
        Selector::ReadAll => p matches Plan::Run { call: Call::SelectAll },
        Selector::Update => match id_of(r) {
            Some(id) => p matches Plan::Update { id: x, body } && x == id && body@ == body_of(r),
            None => is_error_reply(p, "Error"@),
        },
        Selector::Delete => match id_of(r) {
            Some(id) => p matches Plan::Run { call: Call::DeleteById { id: x } } && x == id,
            None => is_error_reply(p, "Error"@),
        },
        Selector::Unrecognized => p matches Plan::Reply { response } && is_reply(
            response,
            Status::NotFound,
            "404 Not Found"@,
        ),
    }
}

/// Interprets a request.
pub fn plan_request(request: &[u8]) -> (p: Plan)
    ensures
        plan_of(p, request@),
{
    match classify(request) {
        Selector::Create => Plan::Create { body: get_body(request) },
        Selector::ReadOne => match get_id(request) {
            Some(id) => Plan::Run { call: Call::SelectById { id } },
            None => Plan::Reply { response: reply(Status::InternalError, "Error") },
        },
        Selector::ReadAll => Plan::Run { call: Call::SelectAll },
        Selector::Update => match get_id(request) {
            Some(id) => Plan::Update { id, body: get_body(request) },
            None => Plan::Reply { response: reply(Status::InternalError, "Error") },
        },
        Selector::Delete => match get_id(request) {
            Some(id) => Plan::Run { call: Call::DeleteById { id } },
            None => Plan::Reply { response: reply(Status::InternalError, "Error") },
        },
        Selector::Unrecognized => Plan::Reply { response: reply(Status::NotFound, "404 Not Found") },
    }
}

/// The step after a create payload is decoded: insert its name and email
/// (any `id` in it is ignored), or a 500 reply when it did not decode.
pub fn create_call(decoded: Option<User>) -> (p: Plan)
    ensures
        match decoded {
            Some(u) => p matches Plan::Run { call: Call::Insert { name, email } } && name@
                == u.name@ && email@ == u.email@,
            None => is_error_reply(p, "Error "@),
        },
{
    match decoded {
        Some(u) => Plan::Run { call: Call::Insert { name: u.name, email: u.email } },
        None => Plan::Reply { response: reply(Status::InternalError, "Error ") },
    }
}

/// The step after an update payload is decoded: write its name and email to
/// record `id`, or a 500 reply when it did not decode.
pub fn update_call(id: i32, decoded: Option<User>) -> (p: Plan)
    ensures
        match decoded {
            Some(u) => p matches Plan::Run { call: Call::UpdateById { id: x, name, email } } && x
                == id && name@ == u.name@ && email@ == u.email@,
            None => is_error_reply(p, "Error"@),
        },
{
    match decoded {
        Some(u) => Plan::Run { call: Call::UpdateById { id, name: u.name, email: u.email } },
        None => Plan::Reply { response: reply(Status::InternalError, "Error") },
    }
}

/// The status and body owed for what storage reported on a call.
pub open spec fn reply_of(c: Call, o: Outcome) -> (Status, Seq<char>) {
    match o {
        Outcome::Inserted => (Status::Success, "user created"@),
        Outcome::Row { user } => (Status::Success, user_json(user@)),
        Outcome::NoRow => (Status::NotFound, "User not found"@),
        Outcome::Rows { users } => (Status::Success, users_json(models(users@))),
        Outcome::Updated => (Status::Success, "User updated"@),
        Outcome::Deleted { count } => if count == 0 {
            (Status::NotFound, "User not found"@)
        } else {
            (Status::Success, "User deleted"@)
        },
        Outcome::Failed => (Status::InternalError, if c is Insert {
            "Error "@
        } else {
            "Error"@
        }),
    }
}

/// Turns what storage reported on a call into the response.
pub fn respond(call: &Call, outcome: &Outcome) -> (r: Response)
    ensures
        (r.status, r.body@) == reply_of(*call, *outcome),
{
    match outcome {
        Outcome::Inserted => reply(Status::Success, "user created"),
        Outcome::Row { user } => Response { status: Status::Success, body: to_json(user) },
        Outcome::NoRow => reply(Status::NotFound, "User not found"),
        Outcome::Rows { users } => Response { status: Status::Success, body: to_json_array(users) },
        Outcome::Updated => reply(Status::Success, "User updated"),
        Outcome::Deleted { count } => if *count == 0 {
            reply(Status::NotFound, "User not found")
        } else {
            reply(Status::Success, "User deleted")
        },
        Outcome::Failed => match call {
            Call::Insert { .. } => reply(Status::InternalError, "Error "),
            _ => reply(Status::InternalError, "Error"),
        },
    }
}

} // verus!
