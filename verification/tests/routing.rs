use user_directory::routes::{parse_route, Method, Route, RouteError};

const ONE: &str = "00000000-0000-0000-0000-000000000001";
const TOKEN: &str = "936da01f-9abd-4d9d-80c7-02af85c822a8";
const TOKEN_VALUE: u128 = 0x936da01f_9abd_4d9d_80c7_02af85c822a8;

#[test]
fn health_route() {
    assert_eq!(parse_route(Method::Get, "/"), Ok(Route::Health));
}

#[test]
fn list_route() {
    assert_eq!(parse_route(Method::Get, "/api/v1/users"), Ok(Route::ListUsers));
}

#[test]
fn get_user_route_carries_id() {
    let path = format!("/api/v1/users/{}", ONE);
    assert_eq!(parse_route(Method::Get, &path), Ok(Route::GetUser(1)));

    let path = format!("/api/v1/users/{}", TOKEN);
    assert_eq!(parse_route(Method::Get, &path), Ok(Route::GetUser(TOKEN_VALUE)));
}

#[test]
fn create_route() {
    assert_eq!(parse_route(Method::Post, "/api/v1/create"), Ok(Route::CreateUser));
}

#[test]
fn update_routes_carry_id() {
    let path = format!("/api/v1/update/name/{}", TOKEN);
    assert_eq!(
        parse_route(Method::Post, &path),
        Ok(Route::UpdateName(TOKEN_VALUE))
    );

    let path = format!("/api/v1/update/age/{}", ONE);
    assert_eq!(parse_route(Method::Post, &path), Ok(Route::UpdateAge(1)));
}

#[test]
fn delete_route_carries_id() {
    let path = format!("/api/v1/delete/{}", TOKEN);
    assert_eq!(
        parse_route(Method::Delete, &path),
        Ok(Route::DeleteUser(TOKEN_VALUE))
    );
}

#[test]
fn unknown_paths_match_no_route() {
    assert_eq!(parse_route(Method::Get, "/nope"), Err(RouteError::NoRoute));
    assert_eq!(parse_route(Method::Get, ""), Err(RouteError::NoRoute));
    assert_eq!(parse_route(Method::Post, "/api/v1/users"), Err(RouteError::NoRoute));
    assert_eq!(parse_route(Method::Delete, "/api/v1/users"), Err(RouteError::NoRoute));
    assert_eq!(parse_route(Method::Get, "/api/v1/create"), Err(RouteError::NoRoute));
}

#[test]
fn extra_segments_match_no_route() {
    assert_eq!(
        parse_route(Method::Get, "/api/v1/users/a/b"),
        Err(RouteError::NoRoute)
    );
    let path = format!("/api/v1/users/{}/extra", ONE);
    assert_eq!(parse_route(Method::Get, &path), Err(RouteError::NoRoute));
    assert_eq!(
        parse_route(Method::Post, "/api/v1/update/name/x/y"),
        Err(RouteError::NoRoute)
    );
    assert_eq!(
        parse_route(Method::Delete, "/api/v1/delete/a/b"),
        Err(RouteError::NoRoute)
    );
}

#[test]
fn malformed_id_segment_is_rejected() {
    assert_eq!(
        parse_route(Method::Get, "/api/v1/users/not-a-token"),
        Err(RouteError::BadId)
    );
    assert_eq!(
        parse_route(Method::Post, "/api/v1/update/name/12345"),
        Err(RouteError::BadId)
    );
    assert_eq!(
        parse_route(Method::Delete, "/api/v1/delete/"),
        Err(RouteError::BadId)
    );
}
