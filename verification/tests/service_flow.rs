use user_directory::routes::{parse_route, Method, Route};
use user_directory::service::{handle, handle_auto, status_code, Body, Response};
use user_directory::table::UserTable;

#[test]
fn create_then_fetch_scenario() {
    let mut t = UserTable::new();

    let route = parse_route(Method::Post, "/api/v1/create").unwrap();
    let resp = handle(
        &mut t,
        route,
        Body::UserPayload { name: "Ada".to_string(), age: 30 },
        1,
        1000,
    );
    match &resp {
        Response::Text(s) => assert_eq!(s, "Sucess"),
        _ => panic!("creation did not answer with a status line"),
    }
    assert_eq!(status_code(&resp), 200);

    let route = parse_route(Method::Get, "/api/v1/users/00000000-0000-0000-0000-000000000001")
        .unwrap();
    assert_eq!(route, Route::GetUser(1));
    let resp = handle(&mut t, route, Body::Empty, 99, 1000);
    assert_eq!(status_code(&resp), 200);
    match resp {
        Response::SingleUser(u) => {
            assert_eq!(u.id, 1);
            assert_eq!(u.name, "Ada");
            assert_eq!(u.age, 30);
            assert_eq!(u.created_at, 1000);
            assert_eq!(u.updated_at, 1000);
        },
        _ => panic!("fetch did not answer with the user"),
    }
}

#[test]
fn health_answers_fixed_text() {
    let mut t = UserTable::new();
    let route = parse_route(Method::Get, "/").unwrap();
    let resp = handle(&mut t, route, Body::Empty, 1, 0);
    match &resp {
        Response::Text(s) => assert_eq!(s, "OK!"),
        _ => panic!("health did not answer with text"),
    }
    assert_eq!(status_code(&resp), 200);
}

#[test]
fn list_reflects_the_table() {
    let mut t = UserTable::new();
    handle(
        &mut t,
        Route::CreateUser,
        Body::UserPayload { name: "Ada".to_string(), age: 30 },
        1,
        1000,
    );
    handle(
        &mut t,
        Route::CreateUser,
        Body::UserPayload { name: "Grace".to_string(), age: 44 },
        2,
        1001,
    );
    let resp = handle(&mut t, Route::ListUsers, Body::Empty, 9, 1001);
    match resp {
        Response::UserList(us) => {
            assert_eq!(us.len(), 2);
            assert_eq!(us[0].name, "Ada");
            assert_eq!(us[1].name, "Grace");
        },
        _ => panic!("list did not answer with the rows"),
    }
}

#[test]
fn update_flows_change_one_field() {
    let mut t = UserTable::new();
    handle(
        &mut t,
        Route::CreateUser,
        Body::UserPayload { name: "Ada".to_string(), age: 30 },
        1,
        1000,
    );

    let resp = handle(
        &mut t,
        Route::UpdateName(1),
        Body::NamePayload { name: "Augusta".to_string() },
        9,
        1001,
    );
    match resp {
        Response::SingleUser(u) => {
            assert_eq!(u.name, "Augusta");
            assert_eq!(u.age, 30);
            assert_eq!(u.created_at, 1000);
            assert_eq!(u.updated_at, 1001);
        },
        _ => panic!("name update did not answer with the user"),
    }

    let resp = handle(&mut t, Route::UpdateAge(1), Body::AgePayload { age: 31 }, 9, 1002);
    match resp {
        Response::SingleUser(u) => {
            assert_eq!(u.name, "Augusta");
            assert_eq!(u.age, 31);
            assert_eq!(u.created_at, 1000);
            assert_eq!(u.updated_at, 1002);
        },
        _ => panic!("age update did not answer with the user"),
    }
}

#[test]
fn delete_flow_reports_success_and_row_goes() {
    let mut t = UserTable::new();
    handle(
        &mut t,
        Route::CreateUser,
        Body::UserPayload { name: "Ada".to_string(), age: 30 },
        1,
        1000,
    );
    let resp = handle(&mut t, Route::DeleteUser(1), Body::Empty, 9, 1000);
    match &resp {
        Response::Text(s) => assert_eq!(s, "Sucess"),
        _ => panic!("delete did not answer with a status line"),
    }
    let resp = handle(&mut t, Route::GetUser(1), Body::Empty, 9, 1000);
    assert!(matches!(resp, Response::NotFound));
    assert_eq!(status_code(&resp), 404);
}

#[test]
fn missing_user_is_not_found_with_404() {
    let mut t = UserTable::new();
    let resp = handle(&mut t, Route::GetUser(5), Body::Empty, 9, 0);
    assert!(matches!(resp, Response::NotFound));
    assert_eq!(status_code(&resp), 404);

    let resp = handle(
        &mut t,
        Route::UpdateName(5),
        Body::NamePayload { name: "Ada".to_string() },
        9,
        0,
    );
    assert!(matches!(resp, Response::NotFound));
}

#[test]
fn payload_that_does_not_fit_is_a_bad_request() {
    let mut t = UserTable::new();
    let resp = handle(&mut t, Route::CreateUser, Body::Empty, 9, 0);
    assert!(matches!(resp, Response::BadRequest));
    assert_eq!(status_code(&resp), 400);

    let resp = handle(&mut t, Route::GetUser(1), Body::AgePayload { age: 3 }, 9, 0);
    assert!(matches!(resp, Response::BadRequest));
}

#[test]
fn duplicate_fresh_id_is_a_server_error() {
    let mut t = UserTable::new();
    handle(
        &mut t,
        Route::CreateUser,
        Body::UserPayload { name: "Ada".to_string(), age: 30 },
        1,
        1000,
    );
    let resp = handle(
        &mut t,
        Route::CreateUser,
        Body::UserPayload { name: "Grace".to_string(), age: 44 },
        1,
        1001,
    );
    assert!(matches!(resp, Response::ServerError));
    assert_eq!(status_code(&resp), 500);
    assert_eq!(t.len(), 1);
}

#[test]
fn auto_handled_creates_insert_rows() {
    let mut t = UserTable::new();
    let resp = handle_auto(
        &mut t,
        Route::CreateUser,
        Body::UserPayload { name: "Ada".to_string(), age: 30 },
        1000,
    );
    match &resp {
        Response::Text(s) => assert_eq!(s, "Sucess"),
        Response::ServerError => panic!("a fresh draw collided in an empty table"),
        _ => panic!("creation did not answer with a status line"),
    }
    assert_eq!(t.len(), 1);
    let listed = t.list_users();
    assert_eq!(listed[0].name, "Ada");
    assert_eq!(listed[0].age, 30);
}
