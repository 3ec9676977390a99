use proxmoxy::backend::https::{
    authorization, check_head, request_url, response_data, unwrap_envelope,
};
use proxmoxy::defs::{ApiError, Auth, Error};
use proxmoxy::json::{JsonNumber, JsonValue};

fn api(cause: ApiError) -> Error {
    Error::Api(cause)
}

#[test]
fn the_token_goes_into_the_authorization_header() {
    let auth = Auth::Token("jrl@pam!spve".to_owned(), "mellon".to_owned());
    assert_eq!(authorization(&auth), "PVEAPIToken=jrl@pam!spve=mellon");
    let auth = Auth::Token(String::new(), String::new());
    assert_eq!(authorization(&auth), "PVEAPIToken==");
}

#[test]
fn the_url_is_made_of_base_and_path() {
    assert_eq!(
        request_url("https://example.com:8006", "nodes/n1/qemu"),
        "https://example.com:8006/api2/json/nodes/n1/qemu"
    );
    assert_eq!(request_url("", ""), "/api2/json/");
}

#[test]
fn a_good_head_is_accepted() {
    assert_eq!(check_head(200, Some(b"application/json")), Ok(()));
    assert_eq!(check_head(200, Some(b"application/json;charset=UTF-8")), Ok(()));
    assert_eq!(check_head(204, Some(b"application/json")), Ok(()));
    assert_eq!(check_head(299, Some(b"application/json")), Ok(()));
}

#[test]
fn a_status_outside_the_two_hundreds_is_an_error() {
    for status in [0, 100, 199, 300, 301, 401, 404, 500, 599, 65535] {
        assert_eq!(
            check_head(status, Some(b"application/json")),
            Err(api(ApiError::Status(status)))
        );
        assert_eq!(check_head(status, None), Err(api(ApiError::Status(status))));
    }
}

#[test]
fn another_content_type_is_an_error() {
    assert_eq!(check_head(200, None), Err(api(ApiError::ContentType)));
    for value in [
        &b""[..],
        b"text/html",
        b"application/json; charset=UTF-8",
        b"application/json;charset=utf-8",
        b"Application/JSON",
        b"application/json ",
        b"application/jso",
        b"\xff\xfe",
    ] {
        assert_eq!(check_head(200, Some(value)), Err(api(ApiError::ContentType)));
    }
}

#[test]
fn the_payload_is_taken_out_of_the_envelope() {
    assert_eq!(response_data(br#"{"data": null}"#), Ok(JsonValue::Null));
    assert_eq!(
        response_data(br#"{"data": [1, 2]}"#),
        Ok(JsonValue::Array(vec![
            JsonValue::Number(JsonNumber::PosInt(1)),
            JsonValue::Number(JsonNumber::PosInt(2)),
        ]))
    );
    assert_eq!(
        response_data(br#" {"data": {"digest": "d"}} "#),
        Ok(JsonValue::Object(vec![(
            "digest".to_owned(),
            JsonValue::String("d".to_owned())
        )]))
    );
}

#[test]
fn a_body_that_is_not_json_is_an_error() {
    assert_eq!(response_data(b""), Err(api(ApiError::Body)));
    assert_eq!(response_data(b"<html></html>"), Err(api(ApiError::Body)));
    assert_eq!(response_data(br#"{"data": "#), Err(api(ApiError::Body)));
}

#[test]
fn a_body_without_the_envelope_is_an_error() {
    for body in [
        &br#"{}"#[..],
        br#"{"data": 1, "errors": null}"#,
        br#"{"Data": 1}"#,
        br#"{"errors": {}}"#,
        br#"[{"data": 1}]"#,
        br#"null"#,
        br#""data""#,
        br#"1"#,
    ] {
        assert_eq!(response_data(body), Err(api(ApiError::Envelope)));
    }
}

#[test]
fn an_envelope_is_an_object_with_one_member() {
    let two = JsonValue::Object(vec![
        ("data".to_owned(), JsonValue::Null),
        ("data".to_owned(), JsonValue::Null),
    ]);
    assert_eq!(unwrap_envelope(two), Err(api(ApiError::Envelope)));
    let one = JsonValue::Object(vec![("data".to_owned(), JsonValue::Bool(true))]);
    assert_eq!(unwrap_envelope(one), Ok(JsonValue::Bool(true)));
}
