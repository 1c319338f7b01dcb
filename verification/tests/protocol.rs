use lean4_mcp_proxy::framing::encode_lsp_message;
use lean4_mcp_proxy::uri::{file_path_to_uri, percent_decode, uri_to_file_path};

#[test]
fn test_uri_to_file_path() {
    assert_eq!(
        uri_to_file_path("file:///tmp/test.lean"),
        Some("/tmp/test.lean".to_string())
    );
    assert_eq!(uri_to_file_path("http://example.com"), None);
    assert_eq!(uri_to_file_path("not-a-uri"), None);
}

#[test]
fn test_uri_to_file_path_percent_encoded() {
    assert_eq!(
        uri_to_file_path("file:///tmp/my%20file.lean"),
        Some("/tmp/my file.lean".to_string())
    );
}

#[test]
fn test_encode_lsp_message() {
    let body = b"{\"test\": true}";
    let encoded = encode_lsp_message(body);
    let expected = format!("Content-Length: {}\r\n\r\n{{\"test\": true}}", body.len());
    assert_eq!(encoded, expected.as_bytes());
}

#[test]
fn test_file_path_to_uri() {
    assert_eq!(file_path_to_uri("/tmp/test.lean"), "file:///tmp/test.lean");
    // Relative path (shouldn't normally happen after canonicalization)
    assert_eq!(
        file_path_to_uri("relative/path.lean"),
        "file:///relative/path.lean"
    );
}

#[test]
fn test_percent_decode() {
    assert_eq!(percent_decode("hello%20world"), "hello world");
    assert_eq!(percent_decode("no%2Fslash"), "no/slash");
    assert_eq!(percent_decode("plain"), "plain");
}
