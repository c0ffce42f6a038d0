use httpmock::handlers::mocks::{add_new_mock, clear_mocks, find_mock, request_matches, SetMockRequest};
use httpmock::handlers::{HttpMockRequest, HttpMockResponse, HttpMockState};
use httpmock::util::{contains_opt, eq_none_as_default, opt_text_eq, HeaderMap};

fn request(path: &str, method: &str) -> HttpMockRequest {
    HttpMockRequest::builder()
        .path(Some(path.to_string()))
        .method(Some(method.to_string()))
        .build()
}

fn response(status: u16, body: &str) -> HttpMockResponse {
    HttpMockResponse { status, headers: None, body: Some(body.to_string()) }
}

fn mock(path: &str, method: &str, status: u16, body: &str) -> SetMockRequest {
    SetMockRequest::builder()
        .request(request(path, method))
        .response(response(status, body))
        .build()
}

#[test]
fn find_in_empty_state_gives_nothing() {
    let state = HttpMockState::new();
    let found = find_mock(&state, request("/a", "GET")).unwrap();
    assert!(found.is_none());
}

#[test]
fn added_mock_is_found() {
    let mut state = HttpMockState::new();
    assert_eq!(Ok(()), add_new_mock(&mut state, mock("/users", "POST", 201, "created")));
    assert_eq!(1, state.len());
    let found = find_mock(&state, request("/users", "POST")).unwrap().unwrap();
    assert_eq!(201, found.status);
    assert_eq!(Some("created".to_string()), found.body);
}

#[test]
fn request_that_matches_no_mock_finds_nothing() {
    let mut state = HttpMockState::new();
    add_new_mock(&mut state, mock("/users", "POST", 201, "created")).unwrap();
    assert!(find_mock(&state, request("/users", "GET")).unwrap().is_none());
    assert!(find_mock(&state, request("/other", "POST")).unwrap().is_none());
}

#[test]
fn first_matching_mock_wins() {
    let mut state = HttpMockState::new();
    add_new_mock(&mut state, mock("/x", "GET", 200, "first")).unwrap();
    add_new_mock(&mut state, mock("/x", "GET", 500, "second")).unwrap();
    let found = find_mock(&state, request("/x", "GET")).unwrap().unwrap();
    assert_eq!(200, found.status);
    assert_eq!(Some("first".to_string()), found.body);
}

#[test]
fn later_mock_answers_when_earlier_ones_do_not_match() {
    let mut state = HttpMockState::new();
    add_new_mock(&mut state, mock("/a", "GET", 200, "a")).unwrap();
    add_new_mock(&mut state, mock("/b", "GET", 404, "b")).unwrap();
    let found = find_mock(&state, request("/b", "GET")).unwrap().unwrap();
    assert_eq!(404, found.status);
    assert_eq!(Some("b".to_string()), found.body);
}

#[test]
fn clear_removes_every_mock() {
    let mut state = HttpMockState::new();
    add_new_mock(&mut state, mock("/a", "GET", 200, "a")).unwrap();
    add_new_mock(&mut state, mock("/b", "GET", 200, "b")).unwrap();
    assert_eq!(Ok(()), clear_mocks(&mut state, mock("/c", "GET", 200, "c")));
    assert_eq!(0, state.len());
    assert!(find_mock(&state, request("/a", "GET")).unwrap().is_none());
}

#[test]
fn found_response_keeps_its_headers() {
    let mut headers = HeaderMap::new();
    headers.insert("Content-Type".to_string(), "application/json".to_string());
    let m = SetMockRequest::builder()
        .request(request("/j", "GET"))
        .response(HttpMockResponse { status: 200, headers: Some(headers), body: None })
        .build();
    let mut state = HttpMockState::new();
    add_new_mock(&mut state, m).unwrap();
    let found = find_mock(&state, request("/j", "GET")).unwrap().unwrap();
    let h = found.headers.unwrap();
    assert_eq!(Some(&"application/json".to_string()), h.get(&"Content-Type".to_string()));
    assert_eq!(1, h.entries().len());
}

#[test]
fn stored_mock_is_readable_back() {
    let mut state = HttpMockState::new();
    add_new_mock(&mut state, mock("/a", "GET", 202, "x")).unwrap();
    let m = state.mock(0);
    assert_eq!(Some("/a".to_string()), m.request.path);
    assert_eq!(202, m.response.status);
}

#[test]
fn every_request_matches_itself() {
    let mut h = HeaderMap::new();
    h.insert("k".to_string(), "v".to_string());
    let r = HttpMockRequest::builder()
        .path(Some("/p".to_string()))
        .method(Some("PUT".to_string()))
        .headers(Some(h))
        .body(Some("payload".to_string()))
        .build();
    assert!(request_matches(&r, &r));
}

#[test]
fn extra_request_headers_keep_a_match() {
    let mut wanted = HeaderMap::new();
    wanted.insert("a".to_string(), "1".to_string());
    let mut sent = HeaderMap::new();
    sent.insert("a".to_string(), "1".to_string());
    sent.insert("b".to_string(), "2".to_string());
    let mock_req = HttpMockRequest::builder().headers(Some(wanted)).build();
    let req = HttpMockRequest::builder().headers(Some(sent)).build();
    assert!(request_matches(&req, &mock_req));
    assert!(!request_matches(&mock_req, &req));
}

#[test]
fn header_value_must_be_equal() {
    let mut wanted = HeaderMap::new();
    wanted.insert("a".to_string(), "1".to_string());
    let mut sent = HeaderMap::new();
    sent.insert("a".to_string(), "2".to_string());
    let mock_req = HttpMockRequest::builder().headers(Some(wanted)).build();
    let req = HttpMockRequest::builder().headers(Some(sent)).build();
    assert!(!request_matches(&req, &mock_req));
}

#[test]
fn absent_body_counts_as_empty_body() {
    let with_empty = HttpMockRequest::builder().body(Some(String::new())).build();
    let without = HttpMockRequest::builder().build();
    assert!(request_matches(&with_empty, &without));
    assert!(request_matches(&without, &with_empty));
    assert!(eq_none_as_default(&None, &Some(String::new())));
    assert!(!eq_none_as_default(&None, &Some("x".to_string())));
}

#[test]
fn absent_path_differs_from_empty_path() {
    assert!(!opt_text_eq(&None, &Some(String::new())));
    assert!(opt_text_eq(&Some("a".to_string()), &Some("a".to_string())));
    assert!(opt_text_eq(&None, &None));
}

#[test]
fn absent_request_headers_meet_only_empty_expectations() {
    assert!(contains_opt(&None, &Some(HeaderMap::new())));
    let mut wanted = HeaderMap::new();
    wanted.insert("a".to_string(), "1".to_string());
    assert!(!contains_opt(&None, &Some(wanted)));
    assert!(contains_opt(&None, &None));
}

#[test]
fn header_insert_replaces_value() {
    let mut h = HeaderMap::new();
    assert_eq!(None, h.insert("a".to_string(), "1".to_string()));
    assert_eq!(Some("1".to_string()), h.insert("a".to_string(), "2".to_string()));
    assert_eq!(Some(&"2".to_string()), h.get(&"a".to_string()));
    assert_eq!(None, h.get(&"b".to_string()));
    assert_eq!(1, h.entries().len());
}

#[test]
fn header_map_containment() {
    let mut big = HeaderMap::new();
    big.insert("a".to_string(), "1".to_string());
    big.insert("b".to_string(), "2".to_string());
    let mut small = HeaderMap::new();
    small.insert("b".to_string(), "2".to_string());
    assert!(big.contains(&small));
    assert!(!small.contains(&big));
    assert!(big.contains(&HeaderMap::new()));
    let copy = big.clone();
    assert!(copy.contains(&big) && big.contains(&copy));
}

#[test]
fn request_copy_matches_the_same_mocks() {
    let r = request("/q", "DELETE");
    let c = r.clone();
    assert!(request_matches(&c, &r));
    assert_eq!(Some("DELETE".to_string()), c.method);
}
