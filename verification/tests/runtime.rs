use android_sender::runtime::{
    build_http_response, command_endpoint_bind_from_value, handle_command_http_request, invalid_payload_answer,
    parse_request_head, shutdown_graph_runtime, start_graph_runtime, GraphRuntime, HttpRequestReader, ReadStep,
    RuntimeAction, COMMAND_MAX_REQUEST_SIZE,
};
use android_sender::protocol::CommandResult;
use android_sender::value::{JsonValue, Number};

fn no_interpolation(a: Number, _b: Number, _elapsed: i64, _total: i64) -> JsonValue {
    JsonValue::Number(a)
}

fn echo(body: Vec<u8>) -> Vec<u8> {
    let mut out = b"{\"result\":".to_vec();
    out.extend_from_slice(&body);
    out.push(b'}');
    out
}

/// Feeds a request to a reader in one piece and then closes the stream.
fn read_request(payload: &[u8]) -> Result<(String, String, Vec<u8>), String> {
    let mut reader = HttpRequestReader::new();
    match reader.receive(payload) {
        ReadStep::Finished(r) => r,
        ReadStep::NeedMore => match reader.receive(&[]) {
            ReadStep::Finished(r) => r,
            ReadStep::NeedMore => panic!("reader wants more after the end of the stream"),
        },
    }
}

#[test]
fn command_http_request_routes_to_command_handler() {
    let payload = b"{\"getinfo\":{}}";
    let (status, content_type, body) = handle_command_http_request("POST", "/command", payload, &echo);
    let body = String::from_utf8(body).unwrap();

    assert_eq!(status, "200 OK");
    assert_eq!(content_type, "application/json");
    assert!(body.contains("\"result\""));
}

#[test]
fn command_http_request_reports_404_for_unknown_path() {
    let (status, _, _) = handle_command_http_request("POST", "/unknown", b"{}", &echo);
    assert_eq!(status, "404 Not Found");
}

#[test]
fn command_http_request_supports_health_and_method_checks() {
    let (status, content_type, body) = handle_command_http_request("GET", "/health", b"", &echo);
    assert_eq!(status, "200 OK");
    assert_eq!(content_type, "application/json");
    assert_eq!(body, br#"{"status":"ok"}"#.to_vec());

    let (status, _, body) = handle_command_http_request("PUT", "/command", b"{}", &echo);
    assert_eq!(status, "405 Method Not Allowed");
    assert_eq!(body, br#"{"error":"method not allowed"}"#.to_vec());
}

#[test]
fn command_http_request_reports_404_for_get_on_unknown_path() {
    let (status, content_type, body) = handle_command_http_request("GET", "/command", b"", &echo);
    assert_eq!(status, "404 Not Found");
    assert_eq!(content_type, "application/json");
    assert_eq!(body, br#"{"error":"not found"}"#.to_vec());
}

#[test]
fn command_endpoint_bind_env_trims_and_filters_empty_values() {
    assert_eq!(command_endpoint_bind_from_value(None), None);
    assert_eq!(command_endpoint_bind_from_value(Some("   ".to_string())), None);
    assert_eq!(
        command_endpoint_bind_from_value(Some(" 127.0.0.1:8999 ".to_string())),
        Some("127.0.0.1:8999".to_string())
    );
}

#[test]
fn parse_http_request_parses_method_path_and_body() {
    let request = b"POST /command HTTP/1.1\r\nHost: localhost\r\nContent-Length: 7\r\n\r\n{\"a\":1}";
    let (method, path, body) = read_request(request).unwrap();

    assert_eq!(method, "POST");
    assert_eq!(path, "/command");
    assert_eq!(body, b"{\"a\":1}");
}

#[test]
fn parse_http_request_rejects_missing_header_terminator() {
    let request = b"POST /command HTTP/1.1\r\nHost: localhost\r\nContent-Length: 2\r\n{\"";
    let err = read_request(request).unwrap_err();
    assert!(err.contains("missing header terminator"));
}

#[test]
fn parse_http_request_rejects_oversized_content_length() {
    let request = format!(
        "POST /command HTTP/1.1\r\nHost: localhost\r\nContent-Length: {}\r\n\r\n",
        COMMAND_MAX_REQUEST_SIZE + 1
    );
    let err = read_request(request.as_bytes()).unwrap_err();
    assert!(err.contains("body is too large"));
}

#[test]
fn reader_takes_a_body_in_pieces_and_cuts_it_to_its_length() {
    let mut reader = HttpRequestReader::new();
    assert!(matches!(reader.receive(b"GET /health HTTP/1.1\r\ncontent-LENGTH:  5 \r"), ReadStep::NeedMore));
    assert!(matches!(reader.receive(b"\n\r\nab"), ReadStep::NeedMore));
    match reader.receive(b"cdefg") {
        ReadStep::Finished(Ok((method, path, body))) => {
            assert_eq!(method, "GET");
            assert_eq!(path, "/health");
            assert_eq!(body, b"abcde".to_vec());
        },
        other => panic!("expected a request, got {other:?}"),
    }
}

#[test]
fn reader_ends_a_short_body_at_the_end_of_the_stream() {
    let mut reader = HttpRequestReader::new();
    assert!(matches!(reader.receive(b"POST /command HTTP/1.1\r\nContent-Length: 10\r\n\r\nabc"), ReadStep::NeedMore));
    match reader.receive(&[]) {
        ReadStep::Finished(Ok((_, _, body))) => assert_eq!(body, b"abc".to_vec()),
        other => panic!("expected a request, got {other:?}"),
    }
}

#[test]
fn request_head_errors_name_what_is_missing() {
    assert_eq!(parse_request_head(b"").unwrap_err(), "Malformed HTTP request: missing request line");
    assert_eq!(parse_request_head(b"   \r\nHost: x").unwrap_err(), "Malformed HTTP request: missing method");
    assert_eq!(parse_request_head(b"POST\r\nHost: x").unwrap_err(), "Malformed HTTP request: missing path");
    assert_eq!(parse_request_head(&[0xff, 0xfe]).unwrap_err(), "Malformed HTTP request: invalid UTF-8 headers");
    let (method, path, length) = parse_request_head(b"PUT /x HTTP/1.1\r\nContent-Length: +12\r\nContent-Length: 3").unwrap();
    assert_eq!((method.as_str(), path.as_str(), length), ("PUT", "/x", 12));
    let (_, _, length) = parse_request_head(b"PUT /x\r\nContent-Length: twelve\r\nContent-Length: 3").unwrap();
    assert_eq!(length, 3);
    let (_, _, length) = parse_request_head(b"PUT /x\r\nX-Length: 4").unwrap();
    assert_eq!(length, 0);
}

#[test]
fn http_response_has_status_headers_and_body() {
    let response = build_http_response("200 OK", "application/json", b"{}");
    assert_eq!(
        response,
        b"HTTP/1.1 200 OK\r\nContent-Type: application/json\r\nContent-Length: 2\r\nConnection: close\r\n\r\n{}".to_vec()
    );
    let long_body = vec![b'x'; 1234];
    let response = build_http_response("400 Bad Request", "text/plain", &long_body);
    assert!(response.starts_with(b"HTTP/1.1 400 Bad Request\r\nContent-Type: text/plain\r\nContent-Length: 1234\r\n"));
    assert!(response.ends_with(&long_body));
}

#[test]
fn try_handle_command_json_wraps_invalid_payload_errors() {
    let answer = invalid_payload_answer("expected value at line 1 column 2");
    assert!(answer.id.is_none());
    match answer.result {
        CommandResult::Error(err) => {
            assert!(err.contains("Invalid command payload"));
        },
        other => panic!("expected command error, got {other:?}"),
    }
}

#[test]
fn runtime_starts_threads_once_and_joins_them_on_shutdown() {
    let mut rt = GraphRuntime::new();
    let actions = start_graph_runtime(&mut rt, Some("127.0.0.1:8999".to_string()), false, &no_interpolation);
    assert_eq!(actions.len(), 2);
    assert!(matches!(actions[0], RuntimeAction::SpawnRefreshThread));
    assert!(matches!(&actions[1], RuntimeAction::SpawnCommandServer(addr) if addr == "127.0.0.1:8999"));
    assert!(rt.manager.started);

    let again = start_graph_runtime(&mut rt, Some("127.0.0.1:8999".to_string()), false, &no_interpolation);
    assert!(again.is_empty());

    let stops = shutdown_graph_runtime(&mut rt);
    assert_eq!(stops.len(), 2);
    assert!(matches!(stops[0], RuntimeAction::JoinCommandServer));
    assert!(matches!(stops[1], RuntimeAction::JoinRefreshThread));
    assert!(!rt.manager.started);
    assert!(!rt.refresh_running && !rt.server_running);

    let none = shutdown_graph_runtime(&mut rt);
    assert!(none.is_empty());

    let without_endpoint = start_graph_runtime(&mut rt, None, false, &no_interpolation);
    assert_eq!(without_endpoint.len(), 1);
    assert!(!rt.server_thread);
}

#[test]
fn command_endpoint_bind_trims_unicode_white_space() {
    assert_eq!(
        command_endpoint_bind_from_value(Some("\u{3000}\t10.0.0.1:80\u{85}\u{2029}".to_string())),
        Some("10.0.0.1:80".to_string())
    );
    assert_eq!(command_endpoint_bind_from_value(Some("\u{a0}\u{200a}\n".to_string())), None);
    assert_eq!(
        command_endpoint_bind_from_value(Some("\u{200b}x".to_string())),
        Some("\u{200b}x".to_string())
    );
}
