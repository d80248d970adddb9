use dep::{
    decimal_string, random_bytes, DependencyError, HttpClientError, HttpMethod, HttpRequest,
    HttpResponse,
};

#[test]
fn dependency_error_constructors_and_text() {
    assert_eq!(
        DependencyError::missing("user_client.fetch_user"),
        DependencyError::Missing("user_client.fetch_user")
    );
    assert_eq!(DependencyError::message("boom"), DependencyError::Message("boom"));
    assert_eq!(
        DependencyError::missing("clock.now").display_text(),
        "missing dependency implementation for `clock.now`"
    );
    assert_eq!(DependencyError::message("boom").display_text(), "boom");
    assert_eq!(DependencyError::Owned("owned".to_string()).display_text(), "owned");
}

#[test]
fn http_request_builders() {
    let request = HttpRequest::get("https://example.com");
    assert_eq!(request.method, HttpMethod::Get);
    assert_eq!(request.url, "https://example.com");
    assert!(request.headers.is_empty());
    assert!(request.body.is_empty());

    let request = HttpRequest::post("https://example.com", b"hello".to_vec());
    assert_eq!(request.method, HttpMethod::Post);
    assert_eq!(request.url, "https://example.com");
    assert!(request.headers.is_empty());
    assert_eq!(request.body, b"hello".to_vec());
}

#[test]
fn http_response_holds_its_parts() {
    let response = HttpResponse { status: 200, headers: Default::default(), body: b"ok".to_vec() };
    assert_eq!(response.status, 200);
    assert_eq!(response.body, b"ok".to_vec());
}

#[test]
fn http_client_error_text() {
    assert_eq!(
        HttpClientError::BuildRequest("bad url".to_string()).display_text(),
        "failed to build HTTP request: bad url"
    );
    assert_eq!(
        HttpClientError::Transport("timeout".to_string()).display_text(),
        "HTTP transport error: timeout"
    );
}

#[test]
fn random_bytes_has_the_requested_length() {
    assert_eq!(random_bytes(16).len(), 16);
    assert_eq!(random_bytes(0).len(), 0);
    let bytes = random_bytes(64);
    assert!(bytes.iter().any(|b| *b != 0));
}

#[test]
fn decimal_string_writes_numbers() {
    assert_eq!(decimal_string(0), "0");
    assert_eq!(decimal_string(7), "7");
    assert_eq!(decimal_string(42), "42");
    assert_eq!(decimal_string(1005), "1005");
}

#[test]
fn random_u64_values_vary() {
    let draws: Vec<u64> = (0..8).map(|_| dep::random_u64()).collect();
    assert!(draws.iter().any(|value| *value != draws[0]));
}

#[test]
fn random_generates_bytes_and_integers() {
    let _ = dep::random_u64();
    assert_eq!(random_bytes(16).len(), 16);
}
