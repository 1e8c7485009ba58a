use base64::engine::general_purpose::STANDARD_NO_PAD;
use base64::Engine;

use wetdirt::db::{check_handshake, check_obj_status, http_status_ok, normalize_response, Database};
use wetdirt::err::Error;
use wetdirt::json::Json;

fn ok_statement(rows: Vec<Vec<(String, Json)>>) -> Json {
    Json::Obj(vec![
        ("status".to_string(), Json::Str("OK".to_string())),
        (
            "result".to_string(),
            Json::Arr(rows.into_iter().map(Json::Obj).collect()),
        ),
    ])
}

fn row(key: &str, value: &str) -> Vec<(String, Json)> {
    vec![(key.to_string(), Json::Str(value.to_string()))]
}

#[test]
fn all_ok_statements_come_back_in_order() {
    let response = Json::Arr(vec![
        ok_statement(vec![row("id", "user:alice")]),
        ok_statement(vec![]),
        ok_statement(vec![row("id", "user:bob"), row("id", "user:carol")]),
    ]);
    let out = normalize_response(response).unwrap();
    assert_eq!(out.len(), 3);
    assert_eq!(out[0], vec![row("id", "user:alice")]);
    assert_eq!(out[1], Vec::<Vec<(String, Json)>>::new());
    assert_eq!(out[2], vec![row("id", "user:bob"), row("id", "user:carol")]);
}

#[test]
fn one_failing_statement_fails_the_whole_call() {
    // The failure at index 1 wins no matter what follows it.
    let failing = Json::Obj(vec![
        ("status".to_string(), Json::Str("ERR".to_string())),
        ("detail".to_string(), Json::Str("syntax".to_string())),
    ]);
    let response = Json::Arr(vec![
        ok_statement(vec![row("id", "user:alice")]),
        failing,
        ok_statement(vec![row("id", "user:bob")]),
    ]);
    let expected_diag = Json::Obj(vec![
        ("status".to_string(), Json::Str("ERR".to_string())),
        ("detail".to_string(), Json::Str("syntax".to_string())),
    ]);
    assert_eq!(normalize_response(response), Err(Error::BadQuery(expected_diag)));
}

#[test]
fn failing_statement_diagnostic_drops_the_result_field() {
    let failing = Json::Obj(vec![
        ("result".to_string(), Json::Null),
        ("status".to_string(), Json::Str("ERR".to_string())),
    ]);
    let response = Json::Arr(vec![failing]);
    let expected_diag = Json::Obj(vec![("status".to_string(), Json::Str("ERR".to_string()))]);
    assert_eq!(normalize_response(response), Err(Error::BadQuery(expected_diag)));
}

#[test]
fn statement_without_status_is_refused() {
    let response = Json::Arr(vec![Json::Obj(vec![(
        "result".to_string(),
        Json::Arr(vec![]),
    )])]);
    assert_eq!(
        normalize_response(response),
        Err(Error::BadQuery(Json::Str("no status given".to_string())))
    );
}

#[test]
fn statement_that_is_not_an_object_is_refused() {
    let response = Json::Arr(vec![Json::Str("OK".to_string())]);
    assert_eq!(
        normalize_response(response),
        Err(Error::BadQuery(Json::Str("not an object".to_string())))
    );
}

#[test]
fn non_object_row_is_a_configuration_fault() {
    let statement = Json::Obj(vec![
        ("status".to_string(), Json::Str("OK".to_string())),
        ("result".to_string(), Json::Arr(vec![Json::Null])),
    ]);
    assert_eq!(
        normalize_response(Json::Arr(vec![statement])),
        Err(Error::BadQuery(Json::Str(
            "database improperly configured".to_string()
        )))
    );
}

#[test]
fn error_object_surfaces_its_information_field() {
    let response = Json::Obj(vec![(
        "information".to_string(),
        Json::Str("no such table".to_string()),
    )]);
    assert_eq!(
        normalize_response(response),
        Err(Error::BadQuery(Json::Str("no such table".to_string())))
    );
}

#[test]
fn unrecognizable_response_shapes_are_refused() {
    assert_eq!(
        normalize_response(Json::Obj(vec![])),
        Err(Error::BadQuery(Json::Str(
            "incomprehensible response".to_string()
        )))
    );
    assert_eq!(
        normalize_response(Json::Str("hello".to_string())),
        Err(Error::BadQuery(Json::Str(
            "incomprehensible response".to_string()
        )))
    );
    assert_eq!(
        normalize_response(Json::Null),
        Err(Error::BadQuery(Json::Str(
            "incomprehensible response".to_string()
        )))
    );
}

#[test]
fn empty_statement_list_is_an_empty_success() {
    assert_eq!(normalize_response(Json::Arr(vec![])), Ok(vec![]));
}

#[test]
fn handshake_accepts_ok_status() {
    let v = Json::Arr(vec![Json::Obj(vec![(
        "status".to_string(),
        Json::Str("OK".to_string()),
    )])]);
    assert_eq!(check_handshake(v), Ok(()));
}

#[test]
fn handshake_rejections_carry_the_payload() {
    let refused = Json::Obj(vec![("status".to_string(), Json::Str("ERR".to_string()))]);
    let v = Json::Arr(vec![refused]);
    let expected = Json::Obj(vec![("status".to_string(), Json::Str("ERR".to_string()))]);
    assert_eq!(check_handshake(v), Err(Error::DatabaseLogin(expected)));

    assert_eq!(
        check_handshake(Json::Arr(vec![])),
        Err(Error::DatabaseLogin(Json::Arr(vec![])))
    );
    assert_eq!(
        check_handshake(Json::Null),
        Err(Error::DatabaseLogin(Json::Null))
    );
}

#[test]
fn session_headers_are_fixed_and_authorization_is_encoded() {
    let db = Database::configure(
        "http://localhost:8000/sql".to_string(),
        "test",
        "base",
        "root:root",
    );
    assert_eq!(db.url, "http://localhost:8000/sql");
    assert_eq!(db.headers.len(), 4);
    assert_eq!(db.headers[0], ("Accept".to_string(), "application/json".to_string()));
    assert_eq!(db.headers[1], ("NS".to_string(), "test".to_string()));
    assert_eq!(db.headers[2], ("DB".to_string(), "base".to_string()));
    let expected_auth = format!("Basic {}", STANDARD_NO_PAD.encode("root:root"));
    assert_eq!(db.headers[3], ("Authorization".to_string(), expected_auth));
    assert_eq!(db.headers[3].1, "Basic cm9vdDpyb290");
}

#[test]
fn object_status_check_wants_the_ok_sentinel() {
    let ok = vec![("status".to_string(), Json::Str("OK".to_string()))];
    let bad = vec![("status".to_string(), Json::Str("ERR".to_string()))];
    let none = vec![("result".to_string(), Json::Null)];
    assert!(check_obj_status(&ok));
    assert!(!check_obj_status(&bad));
    assert!(!check_obj_status(&none));
}

#[test]
fn http_success_codes_are_the_two_hundreds() {
    assert!(http_status_ok(200));
    assert!(http_status_ok(204));
    assert!(http_status_ok(299));
    assert!(!http_status_ok(199));
    assert!(!http_status_ok(300));
    assert!(!http_status_ok(404));
    assert!(!http_status_ok(500));
}
