use httpcore::request::{HttpRequest, RequestType};

fn parsed(line: &str) -> HttpRequest {
    let mut req = HttpRequest::new();
    req.parse_request_line(line);
    req
}

#[test]
fn new_request_is_empty() {
    let req = HttpRequest::new();
    assert_eq!(req.request_type, RequestType::UNDEFINED);
    assert_eq!(req.route, "");
    assert_eq!(req.header.content_type, "");
    assert_eq!(req.header.user_agent, "");
    assert_eq!(req.header.host, "");
    assert_eq!(req.header.content_length, 0);
}

#[test]
fn get_line_gives_method_and_path() {
    let req = parsed("GET /index HTTP/1.1");
    assert_eq!(req.request_type, RequestType::GET);
    assert_eq!(req.route, "/index");
}

#[test]
fn post_line_gives_method_and_path() {
    let req = parsed("POST /add HTTP/1.1");
    assert_eq!(req.request_type, RequestType::POST);
    assert_eq!(req.route, "/add");
}

#[test]
fn line_without_version_is_read() {
    let req = parsed("GET /only");
    assert_eq!(req.request_type, RequestType::GET);
    assert_eq!(req.route, "/only");
}

#[test]
fn other_methods_are_undefined() {
    for line in ["PUT /x HTTP/1.1", "get /x", "GETS /x", " GET /x", "DELETE /x", "POSTER /x"] {
        let req = parsed(line);
        assert_eq!(req.request_type, RequestType::UNDEFINED, "{}", line);
    }
    assert_eq!(parsed("PUT /x HTTP/1.1").route, "/x");
}

#[test]
fn missing_path_is_empty() {
    let req = parsed("GET");
    assert_eq!(req.request_type, RequestType::GET);
    assert_eq!(req.route, "");
}

#[test]
fn empty_line_gives_undefined_and_no_path() {
    let req = parsed("");
    assert_eq!(req.request_type, RequestType::UNDEFINED);
    assert_eq!(req.route, "");
}

#[test]
fn two_spaces_give_an_empty_path() {
    let req = parsed("GET  /x");
    assert_eq!(req.request_type, RequestType::GET);
    assert_eq!(req.route, "");
}

#[test]
fn path_outside_ascii_is_kept() {
    let req = parsed("GET /caf\u{e9}/\u{1f600} HTTP/1.1");
    assert_eq!(req.route, "/caf\u{e9}/\u{1f600}");
}

#[test]
fn request_line_replaces_an_earlier_one() {
    let mut req = HttpRequest::new();
    req.parse_request_line("POST /a HTTP/1.1");
    req.parse_request_line("PATCH");
    assert_eq!(req.request_type, RequestType::UNDEFINED);
    assert_eq!(req.route, "");
}
