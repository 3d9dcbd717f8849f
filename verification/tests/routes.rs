use lambda_chaos_extension::routes::{
    default_response_body, latency_fault, remove_transfer_encoding, response_body, AppState,
    Header,
};

fn state() -> AppState {
    AppState {
        runtime_api_address: "127.0.0.1:9001".to_string(),
    }
}

fn header(name: &str, value: &str) -> Header {
    Header {
        name: name.to_string(),
        value: value.as_bytes().to_vec(),
    }
}

fn names(headers: &[Header]) -> Vec<String> {
    headers.iter().map(|h| h.name.clone()).collect()
}

#[test]
fn urls_of_the_runtime_api() {
    let s = state();
    assert_eq!(
        s.next_invocation_url(),
        "http://127.0.0.1:9001/2018-06-01/runtime/invocation/next"
    );
    assert_eq!(
        s.invocation_response_url("1234"),
        "http://127.0.0.1:9001/2018-06-01/runtime/invocation/1234/response"
    );
    assert_eq!(
        s.init_error_url(),
        "http://127.0.0.1:9001/2018-06-01/runtime/init/error"
    );
    assert_eq!(
        s.invocation_error_url("abc-1"),
        "http://127.0.0.1:9001/2018-06-01/runtime/invocation/abc-1/error"
    );
}

#[test]
fn transfer_encoding_headers_are_removed() {
    let mut headers = vec![
        header("content-type", "application/json"),
        header("transfer-encoding", "chunked"),
        header("lambda-runtime-aws-request-id", "1234"),
        header("transfer-encoding", "gzip"),
    ];
    remove_transfer_encoding(&mut headers);
    assert_eq!(
        names(&headers),
        vec!["content-type", "lambda-runtime-aws-request-id"]
    );
    assert_eq!(headers[0].value, b"application/json".to_vec());
    assert_eq!(headers[1].value, b"1234".to_vec());
}

#[test]
fn removing_transfer_encoding_twice_changes_nothing() {
    let mut headers = vec![
        header("transfer-encoding", "chunked"),
        header("date", "today"),
    ];
    remove_transfer_encoding(&mut headers);
    let once = names(&headers);
    remove_transfer_encoding(&mut headers);
    assert_eq!(names(&headers), once);
    assert_eq!(once, vec!["date"]);
}

#[test]
fn headers_without_transfer_encoding_pass_unchanged() {
    let mut headers = vec![header("a", "1"), header("b", "2")];
    remove_transfer_encoding(&mut headers);
    assert_eq!(names(&headers), vec!["a", "b"]);
    let mut empty: Vec<Header> = Vec::new();
    remove_transfer_encoding(&mut empty);
    assert!(empty.is_empty());
}

#[test]
fn latency_is_injected_only_when_enabled_and_hit() {
    assert_eq!(latency_fault(true, true, 2), Some(2));
    assert_eq!(latency_fault(true, false, 2), None);
    assert_eq!(latency_fault(false, true, 2), None);
    assert_eq!(latency_fault(false, false, 900), None);
}

#[test]
fn default_response_is_the_documented_one() {
    assert_eq!(
        default_response_body(),
        "{\"body\":\"hello, Chaos!!!\",\"statusCode\":500}"
    );
}

#[test]
fn response_is_replaced_only_when_enabled_and_hit() {
    let own = "{\"ok\":true}".to_string();
    assert_eq!(response_body(own.clone(), false, true, None), own);
    assert_eq!(response_body(own.clone(), true, false, Some("x".to_string())), own);
    assert_eq!(
        response_body(own.clone(), true, true, Some("{\"statusCode\":503}".to_string())),
        "{\"statusCode\":503}"
    );
    assert_eq!(response_body(own, true, true, None), default_response_body());
}

#[test]
fn get_next_invocation_test_added_latency() {
    // enabled with "true", probability 1.0 (every draw hits), latency "2"
    let enabled = lambda_chaos_extension::settings::fault_enabled(Some("true"));
    let seconds = lambda_chaos_extension::settings::latency_seconds(Some("2"));
    assert_eq!(latency_fault(enabled, true, seconds), Some(2));
    assert_eq!(
        state().next_invocation_url(),
        "http://127.0.0.1:9001/2018-06-01/runtime/invocation/next"
    );
}

#[test]
fn post_invoke_response_test_change_reposne_default_value() {
    // enabled with "true", probability 1.0, no replacement configured
    let enabled = lambda_chaos_extension::settings::fault_enabled(Some("true"));
    assert_eq!(
        response_body(String::new(), enabled, true, None),
        default_response_body()
    );
    assert_eq!(
        state().invocation_response_url("1234"),
        "http://127.0.0.1:9001/2018-06-01/runtime/invocation/1234/response"
    );
}
