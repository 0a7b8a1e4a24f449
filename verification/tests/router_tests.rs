use bobby::response::Response;
use bobby::router::{Bobby, Method, Request};

type Handler = fn(Request) -> Response;

fn header_value(headers: &[(String, String)], key: &str) -> Option<String> {
    headers.iter().find(|e| e.0 == key).map(|e| e.1.clone())
}

fn item_handler(req: Request) -> Response {
    let id = req.param("id").cloned().unwrap_or_else(|| String::from("none"));
    Response::html(format!("item:{}", id).as_str())
}

fn special_handler(_req: Request) -> Response {
    Response::html("special")
}

fn hello_handler(_req: Request) -> Response {
    Response::html("hello")
}

#[test]
fn dispatch_invokes_the_matching_handler() {
    let mut app: Bobby<Handler> = Bobby::new();
    app.get("/hello", hello_handler);
    let rendered = app.route(Method::Get, "/hello").unwrap();
    assert_eq!(rendered.status, 200);
    assert_eq!(rendered.body, "hello");
}

#[test]
fn dispatch_passes_extracted_params_to_the_handler() {
    let mut app: Bobby<Handler> = Bobby::new();
    app.get("/items/{id}", item_handler);
    let rendered = app.route(Method::Get, "/items/42").unwrap();
    assert_eq!(rendered.body, "item:42");
}

#[test]
fn first_registered_match_wins() {
    let mut app: Bobby<Handler> = Bobby::new();
    app.get("/items/{id}", item_handler);
    app.get("/items/special", special_handler);
    let rendered = app.route(Method::Get, "/items/special").unwrap();
    assert_eq!(rendered.body, "item:special");
}

#[test]
fn find_route_reports_the_first_match() {
    let mut app: Bobby<Handler> = Bobby::new();
    app.get("/items/{id}", item_handler);
    app.get("/items/special", special_handler);
    assert_eq!(app.find_route(Method::Get, "/items/special"), Some(0));
    assert_eq!(app.find_route(Method::Get, "/other"), None);
}

#[test]
fn methods_are_distinguished() {
    let mut app: Bobby<Handler> = Bobby::new();
    app.post("/x", hello_handler);
    let rendered = app.route(Method::Get, "/x").unwrap();
    assert_eq!(rendered.status, 404);
    let rendered = app.route(Method::Post, "/x").unwrap();
    assert_eq!(rendered.status, 200);
}

#[test]
fn every_verb_registers_its_own_method() {
    let mut app: Bobby<Handler> = Bobby::new();
    app.get("/r", hello_handler);
    app.post("/r", hello_handler);
    app.put("/r", hello_handler);
    app.delete("/r", hello_handler);
    app.patch("/r", hello_handler);
    app.options("/r", hello_handler);
    app.head("/r", hello_handler);
    for m in [
        Method::Get,
        Method::Post,
        Method::Put,
        Method::Delete,
        Method::Patch,
        Method::Options,
        Method::Head,
    ] {
        assert_eq!(app.route(m, "/r").unwrap().status, 200);
    }
    assert_eq!(app.routes.len(), 7);
}

#[test]
fn no_match_renders_the_not_found_fallback() {
    let app: Bobby<Handler> = Bobby::new();
    let rendered = app.route(Method::Get, "/nothing/here").unwrap();
    assert_eq!(rendered.status, 404);
    assert_eq!(rendered.body, "Not found.");
    assert_eq!(header_value(&rendered.headers, "content-type"), Some(String::from("text/html")));
    assert_eq!(header_value(&rendered.headers, "content-length"), Some(String::from("10")));
}

#[test]
fn optional_param_route_serves_both_shapes() {
    let mut app: Bobby<Handler> = Bobby::new();
    app.get("/items/{id?}", item_handler);
    assert_eq!(app.route(Method::Get, "/items").unwrap().body, "item:none");
    assert_eq!(app.route(Method::Get, "/items/7").unwrap().body, "item:7");
}

#[test]
fn request_view_exposes_method_uri_and_params() {
    let req = Request::new(Method::Get, String::from("/a/b"));
    assert_eq!(*req.method(), Method::Get);
    assert_eq!(req.uri().as_str(), "/a/b");
    assert_eq!(req.param("missing"), None);
}

#[test]
fn handler_build_failure_propagates() {
    fn bad_handler(_req: Request) -> Response {
        Response::html("x").with_header("Bad Name", "v")
    }
    let mut app: Bobby<Handler> = Bobby::new();
    app.get("/x", bad_handler);
    assert!(app.route(Method::Get, "/x").is_err());
}
