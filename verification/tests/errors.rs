use fingest_client::error::{describe, is_session_expiry, ClientError, ErrorResponse, NOT_SIGNED_IN};
use fingest_client::response::decode;
use fingest_client::transport::failed_response;

fn body(message: &str) -> Option<ErrorResponse> {
    Some(ErrorResponse::new(0, message))
}

#[test]
fn transport_failures_are_reworded_for_a_human() {
    assert!(describe(&ClientError::Network("ECONNREFUSED".into())).contains("connection"));
    assert!(describe(&ClientError::Decode("expected `,`".into())).contains("unexpected"));
}

#[test]
fn a_conflict_explains_itself() {
    assert!(describe(&ClientError::Conflict("category in use".into())).contains("in use"));
}

#[test]
fn the_servers_own_wording_survives_untouched() {
    assert_eq!(
        describe(&ClientError::Unauthenticated("Invalid credentials".into())),
        "Invalid credentials"
    );
    assert_eq!(describe(&ClientError::Forbidden("Not authorized.".into())), "Not authorized.");
}

#[test]
fn a_server_fault_shows_what_the_server_said_and_no_more() {
    assert_eq!(
        describe(&ClientError::Server("Internal server error".into())),
        "Internal server error"
    );
}

#[test]
fn each_status_maps_to_the_category_the_server_used() {
    let cases = [
        (400, ClientError::BadRequest("m".into())),
        (401, ClientError::Unauthenticated("m".into())),
        (403, ClientError::Forbidden("m".into())),
        (404, ClientError::NotFound("m".into())),
        (409, ClientError::Conflict("m".into())),
        (500, ClientError::Server("m".into())),
    ];

    for (status, expected) in cases {
        assert_eq!(ClientError::from_status(status, body("m")), expected);
    }
}

#[test]
fn the_body_supplies_the_message_not_the_category() {
    let parsed = ErrorResponse { status: "404".to_owned(), message: "Wallet not found".to_owned() };

    let err = ClientError::from_status(404, Some(parsed));

    assert_eq!(err, ClientError::NotFound("Wallet not found".into()));
}

#[test]
fn a_bodyless_failure_still_lands_in_the_right_category() {
    let err = ClientError::from_status(403, None);

    assert!(matches!(err, ClientError::Forbidden(_)));
    assert!(err.message().contains("403"));
}

#[test]
fn an_unrecognised_status_is_treated_as_a_server_fault() {
    assert!(matches!(ClientError::from_status(418, None), ClientError::Server(_)));
}

#[test]
fn only_a_401_ends_the_session() {
    assert!(ClientError::from_status(401, None).is_unauthenticated());
    assert!(!ClientError::from_status(403, None).is_unauthenticated());
    assert!(!ClientError::Network("offline".into()).is_unauthenticated());
}

#[test]
fn a_bodyless_failure_names_its_status() {
    assert_eq!(
        ClientError::from_status(502, None),
        ClientError::Server("Request failed with status 502".into())
    );
    assert_eq!(ClientError::from_status(0, None).message(), "Request failed with status 0");
}

#[test]
fn an_error_body_keeps_its_status_as_text() {
    let body = ErrorResponse::new(404, "Wallet not found");

    assert_eq!(body.status, "404");
    assert_eq!(body.message, "Wallet not found");
}

#[test]
fn the_message_is_read_whatever_the_category() {
    assert_eq!(ClientError::Decode("bad".into()).message(), "bad");
    assert_eq!(ClientError::Network("offline".into()).message(), "offline");
    assert_eq!(describe(&ClientError::NotFound("Wallet not found".into())), "Wallet not found");
    assert_eq!(describe(&ClientError::BadRequest(NOT_SIGNED_IN.into())), "You are not signed in");
}

#[test]
fn a_failed_login_is_not_a_lapsed_session() {
    assert!(!is_session_expiry(401, false));
    assert!(is_session_expiry(401, true));
}

#[test]
fn only_a_401_ends_a_session() {
    assert!(!is_session_expiry(403, true));
    assert!(!is_session_expiry(200, true));
}

#[test]
fn an_empty_success_body_decodes_as_unit() {
    assert_eq!(decode::<()>(""), Ok(()));
    assert_eq!(decode::<()>("   "), Ok(()));
}

#[test]
fn a_literal_null_decodes_as_unit() {
    assert_eq!(decode::<()>("null"), Ok(()));
    assert_eq!(decode::<()>(" null\n"), Ok(()));
}

#[test]
fn a_body_where_nothing_was_expected_is_reported_as_such() {
    let err = decode::<()>(r#"{"login":42}"#).unwrap_err();

    assert!(matches!(&err, ClientError::Decode(m) if m.starts_with("Unexpected response from the server: ")));
}

/// The body the server's `{"status":"404","message":"Wallet not found"}` reads as.
#[test]
fn a_contract_shaped_error_keeps_its_message() {
    let (err, _) = failed_response(404, true, Some(ErrorResponse::new(404, "Wallet not found")));

    assert_eq!(err, ClientError::NotFound("Wallet not found".into()));
}

/// `<html>502 Bad Gateway</html>` is no error shape, so no body reaches the library.
#[test]
fn a_garbage_body_still_yields_the_right_category() {
    let (err, _) = failed_response(409, true, None);

    assert!(matches!(err, ClientError::Conflict(_)));
}

#[test]
fn an_empty_error_body_is_tolerated() {
    assert!(matches!(failed_response(500, false, None).0, ClientError::Server(_)));
}

#[test]
fn only_null_with_json_white_space_reads_as_unit() {
    assert_eq!(decode::<()>("\tnull\r\n"), Ok(()));
    assert!(matches!(decode::<()>("nul"), Err(ClientError::Decode(_))));
    assert!(matches!(decode::<()>("null x"), Err(ClientError::Decode(_))));
    assert!(matches!(decode::<()>("\u{a0}null"), Err(ClientError::Decode(_))));
}
