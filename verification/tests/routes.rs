use httpcore::app::{App, Dispatch};
use httpcore::request::{HttpRequest, RequestType};

fn request(line: &str) -> HttpRequest {
    let mut req = HttpRequest::new();
    req.parse_request_line(line);
    req
}

#[test]
fn new_registry_keeps_its_address_and_has_no_route() {
    let app: App<u32> = App::new("127.0.0.1:8080");
    assert_eq!(app.addr(), "127.0.0.1:8080");
    assert_eq!(app.resolve(RequestType::GET, "/"), None);
    assert_eq!(app.resolve(RequestType::POST, "/"), None);
}

#[test]
fn registered_handler_is_resolved_and_no_other() {
    let mut app: App<&str> = App::new("a");
    app.get("/", "home");
    app.post("/add", "add");
    app.post("/sub", "sub");
    assert_eq!(app.resolve(RequestType::POST, "/add"), Some(&"add"));
    assert_eq!(app.resolve(RequestType::POST, "/sub"), Some(&"sub"));
    assert_eq!(app.resolve(RequestType::GET, "/"), Some(&"home"));
}

#[test]
fn tables_are_apart() {
    let mut app: App<u8> = App::new("a");
    app.get("/x", 1);
    app.post("/x", 2);
    app.post("/y", 3);
    assert_eq!(app.resolve(RequestType::GET, "/x"), Some(&1));
    assert_eq!(app.resolve(RequestType::POST, "/x"), Some(&2));
    assert_eq!(app.resolve(RequestType::GET, "/y"), None);
}

#[test]
fn last_registration_wins() {
    let mut app: App<u8> = App::new("a");
    app.get("/x", 1);
    app.get("/y", 2);
    app.get("/x", 3);
    assert_eq!(app.resolve(RequestType::GET, "/x"), Some(&3));
    assert_eq!(app.resolve(RequestType::GET, "/y"), Some(&2));
}

#[test]
fn undefined_method_never_resolves() {
    let mut app: App<u8> = App::new("a");
    app.get("/x", 1);
    app.post("/x", 2);
    assert_eq!(app.resolve(RequestType::UNDEFINED, "/x"), None);
}

#[test]
fn paths_are_matched_exactly() {
    let mut app: App<u8> = App::new("a");
    app.get("/Add", 1);
    for path in ["/add", "/Add/", "/Ad", "Add", "/Add?x=1", ""] {
        assert_eq!(app.resolve(RequestType::GET, path), None, "{}", path);
    }
    assert_eq!(app.resolve(RequestType::GET, "/Add"), Some(&1));
}

#[test]
fn dispatch_gives_the_handler() {
    let mut app: App<u8> = App::new("a");
    app.post("/add", 7);
    match app.dispatch(&request("POST /add HTTP/1.1")) {
        Dispatch::Invoke(h) => assert_eq!(*h, 7),
        Dispatch::NotFound(_) => panic!("handler expected"),
    }
}

#[test]
fn unregistered_path_is_not_found() {
    let mut app: App<u8> = App::new("a");
    app.post("/add", 7);
    for line in ["GET /add HTTP/1.1", "GET /nowhere HTTP/1.1", "PUT /add HTTP/1.1", "POST"] {
        match app.dispatch(&request(line)) {
            Dispatch::Invoke(_) => panic!("no handler expected for {}", line),
            Dispatch::NotFound(text) => assert_eq!(
                text,
                "HTTP/1.1 404 Not Found\r\nContent-Type: text/plain\r\nContent-length: 0\r\n\r\n"
            ),
        }
    }
}

#[test]
fn many_routes_resolve_to_their_own_handlers() {
    let mut app: App<usize> = App::new("a");
    for i in 0..200 {
        app.get(&format!("/route/{}", i), i);
        app.post(&format!("/route/{}", i), 1000 + i);
    }
    for i in 0..200 {
        assert_eq!(app.resolve(RequestType::GET, &format!("/route/{}", i)), Some(&i));
        assert_eq!(app.resolve(RequestType::POST, &format!("/route/{}", i)), Some(&(1000 + i)));
    }
    assert_eq!(app.resolve(RequestType::GET, "/route/200"), None);
}

#[test]
fn register_takes_the_method() {
    let mut app: App<u8> = App::new("a");
    app.register(RequestType::GET, "/x", 1);
    app.register(RequestType::POST, "/x", 2);
    app.register(RequestType::UNDEFINED, "/x", 3);
    app.register(RequestType::UNDEFINED, "/y", 4);
    assert_eq!(app.resolve(RequestType::GET, "/x"), Some(&1));
    assert_eq!(app.resolve(RequestType::POST, "/x"), Some(&2));
    assert_eq!(app.resolve(RequestType::UNDEFINED, "/x"), None);
    assert_eq!(app.resolve(RequestType::GET, "/y"), None);
    assert_eq!(app.resolve(RequestType::POST, "/y"), None);
}
