use fingest_client::error::ClientError;
use fingest_client::url::segment;

fn encoded(value: &str) -> String {
    segment(value).unwrap()
}

#[test]
fn an_ordinary_name_is_left_alone() {
    assert_eq!(encoded("Food"), "Food");
    assert_eq!(encoded("bob_1-2.3~x"), "bob_1-2.3~x");
}

#[test]
fn a_slash_cannot_escape_its_segment() {
    assert_eq!(encoded("Food/Drink"), "Food%2FDrink");
}

#[test]
fn a_fragment_or_query_marker_cannot_truncate_the_path() {
    assert_eq!(encoded("a#b"), "a%23b");
    assert_eq!(encoded("a?b"), "a%3Fb");
}

#[test]
fn spaces_and_percents_are_encoded() {
    assert_eq!(encoded("Eating out"), "Eating%20out");
    assert_eq!(encoded("100%"), "100%25");
}

#[test]
fn non_ascii_is_utf8_percent_encoded() {
    assert_eq!(encoded("Café"), "Caf%C3%A9");
}

#[test]
fn a_traversal_attempt_stays_one_segment() {
    assert_eq!(encoded("../../admin"), "..%2F..%2Fadmin");
}

#[test]
fn dot_only_and_empty_segments_are_refused() {
    for value in ["", ".", ".."] {
        assert!(
            matches!(segment(value), Err(ClientError::BadRequest(_))),
            "{value:?} must not reach a URL"
        );
    }
}

#[test]
fn names_containing_dots_keep_their_place_in_the_path() {
    for value in ["...", "a.b", ".hidden", "x..", "..%2F"] {
        let url = format!("http://h/resources/users/{}/wallets", encoded(value));
        let parsed = reqwest::Url::parse(&url).unwrap();
        let segments: Vec<_> = parsed.path_segments().unwrap().collect();

        assert_eq!(segments.len(), 4, "{value:?} changed the path: {parsed}");
        assert_eq!(segments[3], "wallets");
    }
}

#[test]
fn a_refused_segment_names_itself() {
    assert_eq!(segment(".."), Err(ClientError::BadRequest("\"..\" cannot be used as a name".into())));
}

#[test]
fn every_reserved_character_is_encoded_in_upper_case_hex() {
    assert_eq!(encoded("a:b;c=d@e"), "a%3Ab%3Bc%3Dd%40e");
    assert_eq!(encoded("[x]&y$z,+"), "%5Bx%5D%26y%24z%2C%2B");
    assert_eq!(encoded("!'()*"), "%21%27%28%29%2A");
    assert_eq!(encoded("tab\there"), "tab%09here");
}

#[test]
fn an_encoded_segment_never_holds_a_slash_or_a_dot_only_form() {
    for value in ["/", "//", "a/./b", "%2e%2e", "\u{1F600}"] {
        let out = encoded(value);
        assert!(!out.contains('/'), "{value:?} gave {out}");
        assert!(out != "." && out != "..");
    }
}
