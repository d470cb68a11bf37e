use user_service::dispatch::{
    create_call, plan_request, respond, update_call, Call, Outcome, Plan, Response, Status,
};
use user_service::models::User;

fn reply_parts(p: Plan) -> (Status, String) {
    match p {
        Plan::Reply { response } => (response.status, response.body),
        _ => panic!("expected a reply"),
    }
}

fn answer(call: &Call, outcome: &Outcome) -> (Status, String) {
    let r = respond(call, outcome);
    (r.status, r.body)
}

#[test]
fn plan_create_carries_body() {
    match plan_request(b"POST /users HTTP/1.1\r\n\r\n{\"name\":\"A\",\"email\":\"a@x.com\"}") {
        Plan::Create { body } => assert_eq!(body, b"{\"name\":\"A\",\"email\":\"a@x.com\"}".to_vec()),
        _ => panic!("expected a create plan"),
    }
}

#[test]
fn plan_read_one_and_delete() {
    assert!(matches!(plan_request(b"GET /users/3 HTTP/1.1\r\n\r\n"), Plan::Run { call: Call::SelectById { id: 3 } }));
    assert!(matches!(plan_request(b"DELETE /users/9 HTTP/1.1\r\n\r\n"), Plan::Run { call: Call::DeleteById { id: 9 } }));
    assert!(matches!(plan_request(b"GET /users HTTP/1.1\r\n\r\n"), Plan::Run { call: Call::SelectAll }));
}

#[test]
fn plan_update_carries_id_and_body() {
    match plan_request(b"PUT /users/4 HTTP/1.1\r\n\r\n{\"name\":\"B\"}") {
        Plan::Update { id, body } => {
            assert_eq!(id, 4);
            assert_eq!(body, b"{\"name\":\"B\"}".to_vec());
        }
        _ => panic!("expected an update plan"),
    }
}

#[test]
fn trailing_slash_without_id_is_500() {
    assert_eq!(
        reply_parts(plan_request(b"GET /users/ HTTP/1.1\r\n\r\n")),
        (Status::InternalError, "Error".to_string())
    );
}

#[test]
fn bad_ids_are_500() {
    assert_eq!(
        reply_parts(plan_request(b"DELETE /users/abc HTTP/1.1\r\n\r\n")),
        (Status::InternalError, "Error".to_string())
    );
    assert_eq!(
        reply_parts(plan_request(b"PUT /users HTTP/1.1\r\n\r\n{}")),
        (Status::InternalError, "Error".to_string())
    );
}

#[test]
fn unrecognized_is_404() {
    assert_eq!(
        reply_parts(plan_request(b"PATCH /users/1 HTTP/1.1\r\n\r\n")),
        (Status::NotFound, "404 Not Found".to_string())
    );
}

#[test]
fn malformed_body_is_500_without_call() {
    assert_eq!(reply_parts(create_call(None)), (Status::InternalError, "Error ".to_string()));
    assert_eq!(reply_parts(update_call(1, None)), (Status::InternalError, "Error".to_string()));
}

#[test]
fn decoded_body_ignores_id() {
    let u = User::new(Some(99), "A".to_string(), "a@x.com".to_string());
    match create_call(Some(u)) {
        Plan::Run { call: Call::Insert { name, email } } => {
            assert_eq!(name, "A");
            assert_eq!(email, "a@x.com");
        }
        _ => panic!("expected an insert"),
    }
    let u = User::new(None, "B".to_string(), "b@x.com".to_string());
    match update_call(5, Some(u)) {
        Plan::Run { call: Call::UpdateById { id, name, email } } => {
            assert_eq!((id, name.as_str(), email.as_str()), (5, "B", "b@x.com"));
        }
        _ => panic!("expected an update"),
    }
}

#[test]
fn absent_id_asymmetry() {
    let read = Call::SelectById { id: 77 };
    let delete = Call::DeleteById { id: 77 };
    let update = Call::UpdateById { id: 77, name: "n".to_string(), email: "e".to_string() };
    assert_eq!(answer(&read, &Outcome::NoRow), (Status::NotFound, "User not found".to_string()));
    assert_eq!(answer(&delete, &Outcome::Deleted { count: 0 }), (Status::NotFound, "User not found".to_string()));
    assert_eq!(answer(&update, &Outcome::Updated), (Status::Success, "User updated".to_string()));
}

#[test]
fn outcome_replies() {
    let insert = Call::Insert { name: "A".to_string(), email: "a@x.com".to_string() };
    assert_eq!(answer(&insert, &Outcome::Inserted), (Status::Success, "user created".to_string()));
    assert_eq!(answer(&insert, &Outcome::Failed), (Status::InternalError, "Error ".to_string()));
    let read = Call::SelectById { id: 1 };
    let row = Outcome::Row { user: User::new(Some(1), "A".to_string(), "a@x.com".to_string()) };
    assert_eq!(
        answer(&read, &row),
        (Status::Success, "{\"id\":1,\"name\":\"A\",\"email\":\"a@x.com\"}".to_string())
    );
    assert_eq!(answer(&read, &Outcome::Failed), (Status::InternalError, "Error".to_string()));
    let delete = Call::DeleteById { id: 1 };
    assert_eq!(answer(&delete, &Outcome::Deleted { count: 1 }), (Status::Success, "User deleted".to_string()));
}

#[test]
fn read_all_empty_is_empty_array() {
    let all = Call::SelectAll;
    assert_eq!(answer(&all, &Outcome::Rows { users: Vec::new() }), (Status::Success, "[]".to_string()));
}

#[test]
fn encoded_replies() {
    let r = Response { status: Status::Success, body: "[]".to_string() };
    assert_eq!(r.encode(), "HTTP/1.1 200 OK\r\nContent-Type: application/json\r\n\r\n[]");
    let r = Response { status: Status::NotFound, body: "User not found".to_string() };
    assert_eq!(r.encode(), "HTTP/1.1 404 Not Found\r\n\r\nUser not found");
    let r = Response { status: Status::InternalError, body: "Error".to_string() };
    assert_eq!(r.encode(), "HTTP/1.1 500 Internal Server Error\r\n\r\nError");
}

#[test]
fn create_then_read_one_round_trip() {
    let decoded = User::new(None, "A".to_string(), "a@x.com".to_string());
    let (name, email) = match create_call(Some(decoded)) {
        Plan::Run { call: Call::Insert { name, email } } => (name, email),
        _ => panic!("expected an insert"),
    };
    let stored = Outcome::Row { user: User::new(Some(12), name, email) };
    assert_eq!(
        answer(&Call::SelectById { id: 12 }, &stored),
        (Status::Success, "{\"id\":12,\"name\":\"A\",\"email\":\"a@x.com\"}".to_string())
    );
}

#[test]
fn delete_twice_second_is_404() {
    let delete = Call::DeleteById { id: 3 };
    assert_eq!(answer(&delete, &Outcome::Deleted { count: 1 }), (Status::Success, "User deleted".to_string()));
    assert_eq!(answer(&delete, &Outcome::Deleted { count: 0 }), (Status::NotFound, "User not found".to_string()));
    assert_eq!(answer(&delete, &Outcome::Deleted { count: 0 }), (Status::NotFound, "User not found".to_string()));
}
