use api_test_runner::case::{build_request, copy_headers, Expected, Header, TestCase};
use api_test_runner::method::Method;

fn case_with(method: &str, path: &str, headers: Option<Vec<Header>>) -> TestCase {
    TestCase {
        case: "a case".to_string(),
        method: method.to_string(),
        headers,
        path: path.to_string(),
        expected: Expected { status: 200, response: None },
    }
}

fn header(key: &str, value: &str) -> Header {
    Header { key: key.to_string(), value: value.to_string() }
}

fn pairs(headers: &Vec<Header>) -> Vec<(String, String)> {
    headers.iter().map(|h| (h.key.clone(), h.value.clone())).collect()
}

#[test]
fn the_url_is_the_base_url_followed_by_the_path() {
    let request = build_request("http://localhost:8080", &case_with("GET", "/health", None));
    assert_eq!(request.method, Method::Get);
    assert_eq!(request.url, "http://localhost:8080/health");
    assert!(request.headers.is_empty());
}

#[test]
fn slashes_are_neither_added_nor_removed() {
    assert_eq!(build_request("http://h/", &case_with("GET", "/p", None)).url, "http://h//p");
    assert_eq!(build_request("http://h", &case_with("GET", "p", None)).url, "http://hp");
    assert_eq!(build_request("", &case_with("GET", "", None)).url, "");
}

#[test]
fn the_method_is_read_without_regard_to_case() {
    assert_eq!(build_request("b", &case_with("post", "/", None)).method, Method::Post);
    assert_eq!(build_request("b", &case_with("Delete", "/", None)).method, Method::Delete);
    assert_eq!(build_request("b", &case_with("fetch", "/", None)).method, Method::Get);
}

#[test]
fn headers_are_sent_as_declared() {
    let declared = vec![header("Accept", "a/b"), header("X-Id", "1"), header("Accept", "c/d")];
    let request = build_request("b", &case_with("PUT", "/", Some(declared)));
    assert_eq!(request.method, Method::Put);
    assert_eq!(
        pairs(&request.headers),
        vec![
            ("Accept".to_string(), "a/b".to_string()),
            ("X-Id".to_string(), "1".to_string()),
            ("Accept".to_string(), "c/d".to_string()),
        ]
    );
}

#[test]
fn an_empty_list_of_headers_gives_no_headers() {
    assert!(build_request("b", &case_with("GET", "/", Some(vec![]))).headers.is_empty());
    assert!(copy_headers(&vec![]).is_empty());
}
