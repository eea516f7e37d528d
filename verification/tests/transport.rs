use fingest_client::date::{parse_iso_date, BudgetFilter, DateRange};
use fingest_client::error::{ClientError, ErrorResponse};
use fingest_client::transport::{
    base_url, bearer_token, budget_path, budgets_root, category_path, expense_path,
    filter_query, network_failure, range_query, read_response, url, users_path,
    wallet_part_path, wallets_path, wallets_root,
};

#[test]
fn paths_join_cleanly_whether_or_not_the_base_url_has_a_slash() {
    let with = base_url("http://localhost:8080");
    assert_eq!(url(&with, "/api/auth/login"), "http://localhost:8080/api/auth/login");

    let trailing = base_url("http://localhost:8080/");
    assert_eq!(url(&trailing, "/api/auth/login"), "http://localhost:8080/api/auth/login");
}

#[test]
fn every_trailing_slash_is_dropped() {
    assert_eq!(base_url("http://h//"), "http://h");
    assert_eq!(base_url("///"), "");
    assert_eq!(base_url("http://h/api"), "http://h/api");
}

#[test]
fn a_protected_call_without_a_token_never_leaves_the_browser() {
    let result = bearer_token(None);

    assert!(matches!(result, Err(ClientError::Unauthenticated(_))));
    assert_eq!(result, Err(ClientError::Unauthenticated("You are not signed in".into())));
    assert_eq!(bearer_token(Some("token-abc".into())), Ok("token-abc".to_owned()));
}

#[test]
fn a_dot_only_login_is_refused_before_any_request() {
    let wallets = wallets_root("..");
    let delete = category_path(".", false);

    assert!(matches!(wallets, Err(ClientError::BadRequest(_))));
    assert!(matches!(delete, Err(ClientError::BadRequest(_))));
}

#[test]
fn resource_paths_encode_what_they_interpolate() {
    assert_eq!(users_path("bob").unwrap(), "/resources/users/bob");
    assert_eq!(category_path("Food/Drink", true).unwrap(), "/resources/categories/Food%2FDrink/true");
    assert_eq!(category_path("Other", false).unwrap(), "/resources/categories/Other/false");
    assert_eq!(wallets_root("a b").unwrap(), "/resources/users/a%20b/wallets");
    assert_eq!(wallets_path("bob", 7).unwrap(), "/resources/users/bob/wallets/7");
    assert_eq!(wallet_part_path("bob", 7, "summary").unwrap(), "/resources/users/bob/wallets/7/summary");
    assert_eq!(expense_path("bob", 7, 42).unwrap(), "/resources/users/bob/wallets/7/expenses/42");
    assert_eq!(budgets_root("bob").unwrap(), "/resources/users/bob/budgets");
    assert_eq!(budget_path("bob", -3).unwrap(), "/resources/users/bob/budgets/-3");
}

#[test]
fn a_report_query_always_carries_both_bounds() {
    let open = range_query(&DateRange::new(None, None));
    assert_eq!(open[0], ("start", "0001-01-01".to_owned()));
    assert_eq!(open[1], ("end", "9999-12-31".to_owned()));

    let march = DateRange::new(parse_iso_date("2026-03-01"), parse_iso_date("2026-03-31"));
    assert_eq!(range_query(&march)[0].1, "2026-03-01");
}

#[test]
fn a_budget_query_carries_two_windows() {
    let query = filter_query(&BudgetFilter::unfiltered());

    assert_eq!(query.clone().map(|(k, _)| k), ["start_min", "start_max", "end_min", "end_max"]);
    assert_eq!(query[0].1, "0001-01-01");
    assert_eq!(query[3].1, "9999-12-31");
}

#[test]
fn a_success_is_decoded_and_ends_nothing() {
    let (result, expired) = read_response::<()>(204, "", true, None);

    assert_eq!(result, Ok(()));
    assert!(!expired);
}

#[test]
fn a_401_to_a_signed_request_ends_the_session() {
    let body = ErrorResponse::new(401, "Token expired");
    let (result, expired) = read_response::<()>(401, "", true, Some(body));

    assert_eq!(result, Err(ClientError::Unauthenticated("Token expired".into())));
    assert!(expired);
}

#[test]
fn a_401_to_a_login_is_only_a_wrong_password() {
    let (result, expired) = read_response::<()>(401, "", false, None);

    assert!(matches!(result, Err(ClientError::Unauthenticated(_))));
    assert!(!expired);
}

#[test]
fn a_failure_keeps_its_category_whatever_the_body() {
    let (result, expired) = read_response::<()>(409, "<html>502 Bad Gateway</html>", true, None);

    assert_eq!(result, Err(ClientError::Conflict("Request failed with status 409".into())));
    assert!(!expired);
    assert_eq!(network_failure(), ClientError::Network("Could not reach the server".into()));
}
