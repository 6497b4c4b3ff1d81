//! The node-level readers and request builders: dialogs, tracing, errors,
//! fetch arguments and responses.

use playwright_core::api_request_context::{
    fetch_log_lines, fetch_response_body_bytes, fetch_uid_params, into_fetch_args,
    MultipartEntry, NameValue, RequestData, RequestOptions,
};
use playwright_core::api_response::{parse_fetch_response, APIResponse};
use playwright_core::browser_context::{format_error_value, guid_from_key, timeout_params};
use playwright_core::dialog::{accept_params, dismiss_params, Dialog};
use playwright_core::error::Error;
use playwright_core::json::JsonValue;
use playwright_core::tracing::{group_params, start_params, stop_chunk_artifact, stop_chunk_params};
use playwright_core::web_error::WebError;

#[test]
fn dialog_reads_its_initializer() {
    let init = JsonValue::obj_new()
        .with_str_field("type", "confirm")
        .with_str_field("message", "Proceed?")
        .with_str_field("defaultValue", "");
    let d = Dialog::new("dialog-1".to_string(), &init);
    assert_eq!(d.kind(), "confirm");
    assert_eq!(d.message(), "Proceed?");
    assert_eq!(d.default_value(), "");

    // A malformed initializer falls back to empty strings.
    let d = Dialog::new("dialog-2".to_string(), &JsonValue::obj_new().with_int_field("type", 3));
    assert_eq!(d.kind(), "");
    assert_eq!(d.message(), "");

    let a = accept_params(Some("typed answer"));
    assert_eq!(
        a.get("promptText").and_then(|v| v.as_str()).map(|s| s.as_str()),
        Some("typed answer")
    );
    assert!(accept_params(None).get("promptText").is_none());
    assert!(dismiss_params().is_obj());
}

#[test]
fn error_payloads_format_like_the_remote_sent_them() {
    let v = JsonValue::obj_new().with_field(
        "error",
        JsonValue::obj_new()
            .with_str_field("name", "TypeError")
            .with_str_field("message", "x is not a function")
            .with_str_field("stack", "at line 1"),
    );
    assert_eq!(
        format_error_value(&v).expect("well formed"),
        "TypeError: x is not a function\nat line 1"
    );

    let v = JsonValue::obj_new().with_field(
        "error",
        JsonValue::obj_new().with_str_field("message", "lonely message"),
    );
    assert_eq!(format_error_value(&v).expect("well formed"), "lonely message");

    // No error field at all reads as empty.
    assert_eq!(format_error_value(&JsonValue::obj_new()).expect("empty"), "");

    // A present field of the wrong shape is malformed.
    let v = JsonValue::obj_new().with_int_field("error", 5);
    assert!(matches!(format_error_value(&v), Err(Error::InvalidParams)));
}

#[test]
fn guid_payloads_resolve_directly_or_through_the_only_field() {
    let direct = JsonValue::obj_new().with_field(
        "route",
        JsonValue::obj_new().with_str_field("guid", "r-1"),
    );
    assert_eq!(guid_from_key(&direct, "route").expect("bound"), "r-1");

    let single = JsonValue::obj_new().with_field(
        "whatever",
        JsonValue::obj_new().with_str_field("guid", "w-1"),
    );
    assert_eq!(guid_from_key(&single, "route").expect("only field"), "w-1");

    let empty = JsonValue::obj_new();
    assert!(guid_from_key(&empty, "route").is_err());
}

#[test]
fn tracing_requests_carry_their_options() {
    let p = start_params(Some("trace-a"), None, Some(true), None, Some(false));
    assert_eq!(p.get("name").and_then(|v| v.as_str()).map(|s| s.as_str()), Some("trace-a"));
    assert!(p.get("title").is_none());
    assert_eq!(p.get("screenshots").and_then(|v| v.as_bool()), Some(true));
    assert_eq!(p.get("sources").and_then(|v| v.as_bool()), Some(false));

    let p = stop_chunk_params(true);
    assert_eq!(p.get("mode").and_then(|v| v.as_str()).map(|s| s.as_str()), Some("archive"));
    let p = stop_chunk_params(false);
    assert_eq!(p.get("mode").and_then(|v| v.as_str()).map(|s| s.as_str()), Some("discard"));

    let p = group_params("steps", Some("file.rs:1"));
    assert_eq!(p.get("location").and_then(|v| v.as_str()).map(|s| s.as_str()), Some("file.rs:1"));

    let body = JsonValue::obj_new().with_field(
        "artifact",
        JsonValue::obj_new().with_str_field("guid", "artifact-1"),
    );
    assert_eq!(stop_chunk_artifact(&body), Some("artifact-1".to_string()));
    assert_eq!(stop_chunk_artifact(&JsonValue::obj_new()), None);
}

#[test]
fn timeout_params_carry_milliseconds() {
    let p = timeout_params(30000);
    assert_eq!(p.get("timeout").and_then(|v| v.as_i64()), Some(30000));
}

#[test]
fn fetch_args_serialize_every_set_option() {
    let options = RequestOptions::none()
        .header("accept".to_string(), "text/plain".to_string())
        .param("q".to_string(), "verus".to_string())
        .data(RequestData::Text("payload".to_string()))
        .timeout(5000)
        .fail_on_status_code(true);
    let mut options = options;
    options.method = Some("POST".to_string());
    options.multipart = Some(vec![
        MultipartEntry::value("field".to_string(), "v".to_string()),
        MultipartEntry::file(
            "upload".to_string(),
            "a.bin".to_string(),
            Some("application/octet-stream".to_string()),
            b"hello".to_vec(),
        ),
    ]);
    let args = into_fetch_args(options, "https://example.com/");

    assert_eq!(args.get("url").and_then(|v| v.as_str()).map(|s| s.as_str()), Some("https://example.com/"));
    assert_eq!(args.get("method").and_then(|v| v.as_str()).map(|s| s.as_str()), Some("POST"));
    // Text bodies go as base64.
    assert_eq!(args.get("postData").and_then(|v| v.as_str()).map(|s| s.as_str()), Some("cGF5bG9hZA=="));
    assert_eq!(args.get("timeout").and_then(|v| v.as_i64()), Some(5000));
    assert_eq!(args.get("failOnStatusCode").and_then(|v| v.as_bool()), Some(true));
    assert!(args.get("ignoreHttpsErrors").is_none());

    let headers = args.get("headers").and_then(|v| v.as_array()).expect("headers set");
    assert_eq!(headers.len(), 1);
    assert_eq!(
        headers[0].get("name").and_then(|v| v.as_str()).map(|s| s.as_str()),
        Some("accept")
    );

    let multipart = args.get("multipartData").and_then(|v| v.as_array()).expect("set");
    assert_eq!(multipart.len(), 2);
    let file = multipart[1].get("file").expect("file entry");
    assert_eq!(file.get("buffer").and_then(|v| v.as_str()).map(|s| s.as_str()), Some("aGVsbG8="));

    let uid = fetch_uid_params("fetch-9");
    assert_eq!(uid.get("fetchUid").and_then(|v| v.as_str()).map(|s| s.as_str()), Some("fetch-9"));
}

#[test]
fn fetch_responses_parse_and_answer() {
    let body = JsonValue::obj_new().with_field(
        "response",
        JsonValue::obj_new()
            .with_str_field("fetchUid", "f-1")
            .with_str_field("url", "https://example.com/a")
            .with_int_field("status", 204)
            .with_str_field("statusText", "No Content")
            .with_field(
                "headers",
                JsonValue::arr_new().with_item(
                    JsonValue::obj_new()
                        .with_str_field("name", "server")
                        .with_str_field("value", "x"),
                ),
            ),
    );
    let payload = parse_fetch_response(&body).expect("well formed");
    let resp = APIResponse::new(payload);
    assert_eq!(resp.status(), 204);
    assert_eq!(resp.status_text(), "No Content");
    assert_eq!(resp.url(), "https://example.com/a");
    assert!(resp.ok());
    let hs = resp.headers();
    assert_eq!(hs.len(), 1);
    assert_eq!(hs[0].0, "server");
    assert_eq!(hs[0].1, "x");
    assert_eq!(resp.headers_array().len(), 1);

    // The success range: zero, and the 200s, nothing else.
    let mk = |status: i64| APIResponse::new(playwright_core::api_request_context::APIResponsePayload {
        fetch_uid: String::new(),
        url: String::new(),
        status,
        status_text: String::new(),
        headers: Vec::new(),
    });
    assert!(mk(0).ok());
    assert!(mk(200).ok());
    assert!(mk(299).ok());
    assert!(!mk(199).ok());
    assert!(!mk(300).ok());
    assert!(!mk(404).ok());

    // Bodies come back as base64 under `binary`.
    let body = JsonValue::obj_new().with_str_field("binary", "aGVsbG8=");
    assert_eq!(fetch_response_body_bytes(&body).expect("decodes"), b"hello".to_vec());
    let body = JsonValue::obj_new().with_str_field("binary", "!!!");
    assert!(matches!(fetch_response_body_bytes(&body), Err(Error::InvalidBase64)));

    // Log lines keep only the strings.
    let body = JsonValue::obj_new().with_field(
        "log",
        JsonValue::arr_new()
            .with_item(JsonValue::Str("one".to_string()))
            .with_item(JsonValue::Int(2))
            .with_item(JsonValue::Str("three".to_string())),
    );
    assert_eq!(fetch_log_lines(&body).expect("array"), vec!["one".to_string(), "three".to_string()]);

    let _ = NameValue::new("a".to_string(), "b".to_string());
}

#[test]
fn web_errors_carry_page_and_text() {
    let w = WebError::new(Some("page-1".to_string()), "boom".to_string());
    assert_eq!(w.page().as_deref(), Some("page-1"));
    assert_eq!(w.error(), "boom");
}
