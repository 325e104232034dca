use httpserver::handler::{OrderStatus, PageNotFoundHandler, StaticPageHandler, WebServiceHandler};
use httpserver::headers::Headers;
use httpserver::httprequest::{HttpRequest, Method, Resource, Version};
use httpserver::httpresponse::HttpResonse;
use httpserver::router::{Route, Router};
use httpserver::server::Server;
use httpserver::text::{decimal_text, split_text, trimmed, whitespace};

fn request(method: Method, path: &str) -> HttpRequest {
    HttpRequest {
        method,
        version: Version::V1_1,
        resource: Resource::Path(path.to_string()),
        headers: Headers::new(),
        message_body: String::new(),
    }
}

fn content_type(value: &str) -> Option<Headers> {
    let mut headers = Headers::new();
    headers.insert("Content-Type".to_string(), value.to_string());
    Some(headers)
}

#[test]
fn post_is_not_found_whatever_the_path() {
    assert_eq!(Router::route(&request(Method::Post, "/api/shipping/orders")), Route::NotFound);
    assert_eq!(Router::route(&request(Method::Post, "/about")), Route::NotFound);
    assert_eq!(Router::route(&request(Method::Post, "")), Route::NotFound);
    assert_eq!(Router::route(&request(Method::Uninitialized, "/api")), Route::NotFound);
}

#[test]
fn get_goes_by_the_first_segment() {
    assert_eq!(Router::route(&request(Method::Get, "/api/shipping/orders")), Route::Api);
    assert_eq!(Router::route(&request(Method::Get, "/about")), Route::Static);
    assert_eq!(Router::route(&request(Method::Get, "/api")), Route::Api);
    assert_eq!(Router::route(&request(Method::Get, "/")), Route::Static);
    assert_eq!(Router::route(&request(Method::Get, "/apis/x")), Route::Static);
    assert_eq!(Router::route(&request(Method::Get, "x/api")), Route::Api);
}

#[test]
fn parsed_request_is_routed() {
    let parsed = HttpRequest::from(String::from("GET /api/shipping/orders HTTP/1.1\r\n\r\n"));
    assert_eq!(Router::route(&parsed), Route::Api);
    let parsed = HttpRequest::from(String::from("POST /api/shipping/orders HTTP/1.1\r\n\r\n"));
    assert_eq!(Router::route(&parsed), Route::NotFound);
}

#[test]
fn segments_of_a_path() {
    assert_eq!(request(Method::Get, "/a//b/").segments(), vec!["", "a", "", "b", ""]);
    assert_eq!(request(Method::Get, "").segments(), vec![""]);
    assert_eq!(split_text("k=v=w", '='), vec!["k", "v", "w"]);
}

#[test]
fn not_found_handler_gives_404() {
    let response = PageNotFoundHandler::handler(
        &request(Method::Post, "/x"),
        Some("<h1>404</h1>".to_string()),
    );
    assert_eq!(
        response.to_text(),
        "HTTP/1.1 404 Not Found\r\nContent-Type: text/html\r\nContent-Length: 12\r\n\r\n<h1>404</h1>"
    );
    let response = PageNotFoundHandler::handler(&request(Method::Post, "/x"), None);
    assert_eq!(response.status_code(), "404");
    assert_eq!(response.body, None);
}

#[test]
fn static_handler_names_the_file() {
    assert_eq!(StaticPageHandler::file_name(&request(Method::Get, "/")), "index.html");
    assert_eq!(StaticPageHandler::file_name(&request(Method::Get, "/health")), "health.html");
    assert_eq!(StaticPageHandler::file_name(&request(Method::Get, "/styles.css")), "styles.css");
    assert_eq!(StaticPageHandler::file_name(&request(Method::Get, "/a/b")), "a");
}

#[test]
fn static_handler_sets_the_content_type() {
    let css = StaticPageHandler::handler(
        &request(Method::Get, "/styles.css"),
        Some("body {}".to_string()),
        None,
    );
    assert_eq!(css.status_code(), "200");
    assert_eq!(css.status_text(), "OK");
    assert_eq!(css.headers, content_type("text/css"));
    assert_eq!(css.body(), "body {}");

    let js = StaticPageHandler::handler(&request(Method::Get, "/app.js"), Some("1".to_string()), None);
    assert_eq!(js.headers, content_type("text/javascript"));

    let html = StaticPageHandler::handler(&request(Method::Get, "/about"), Some("x".to_string()), None);
    assert_eq!(html.headers, content_type("text/html"));

    let short = StaticPageHandler::handler(&request(Method::Get, "/js"), Some("x".to_string()), None);
    assert_eq!(short.headers, content_type("text/html"));
}

#[test]
fn static_handler_root_and_health() {
    let root = StaticPageHandler::handler(&request(Method::Get, "/"), Some("home".to_string()), None);
    assert_eq!(root.status_code(), "200");
    assert_eq!(root.status_text(), "OK");
    assert_eq!(root.headers, content_type("text/html"));
    assert_eq!(root.body(), "home");

    let health = StaticPageHandler::handler(
        &request(Method::Get, "/health"),
        Some("up".to_string()),
        Some("gone".to_string()),
    );
    assert_eq!(health.status_code(), "200");
    assert_eq!(health.headers, content_type("text/html"));
    assert_eq!(health.body(), "up");
}

#[test]
fn static_handler_missing_index_or_health_page_is_not_found() {
    let root = StaticPageHandler::handler(&request(Method::Get, "/"), None, Some("gone".to_string()));
    assert_eq!(root.status_code(), "404");
    assert_eq!(root.status_text(), "Not Found");
    assert_eq!(root.headers, content_type("text/html"));
    assert_eq!(root.body(), "gone");

    let health = StaticPageHandler::handler(&request(Method::Get, "/health"), None, None);
    assert_eq!(health.status_code(), "404");
    assert_eq!(health.status_text(), "Not Found");
    assert_eq!(health.body, None);
}

#[test]
fn static_handler_missing_file_is_not_found() {
    let response = StaticPageHandler::handler(
        &request(Method::Get, "/nothing.html"),
        None,
        Some("gone".to_string()),
    );
    assert_eq!(response.status_code(), "404");
    assert_eq!(response.status_text(), "Not Found");
    assert_eq!(response.headers, content_type("text/html"));
    assert_eq!(response.body(), "gone");
}

#[test]
fn web_service_handler_serves_the_orders() {
    let orders = "[{\"order_id\":1,\"order_date\":\"21 Jan 2020\",\"order_status\":\"Delivered\"}]";
    let asked = request(Method::Get, "/api/shipping/orders");
    assert!(WebServiceHandler::serves_orders(&asked));
    let response =
        WebServiceHandler::handler(&asked, Some(orders.to_string()), Some("gone".to_string()));
    assert_eq!(response.status_code(), "200");
    assert_eq!(response.headers, content_type("application/json"));
    assert_eq!(response.body(), orders);
    assert_eq!(
        response.to_text(),
        format!(
            "HTTP/1.1 200 OK\r\nContent-Type: application/json\r\nContent-Length: {}\r\n\r\n{}",
            orders.len(),
            orders
        )
    );
}

#[test]
fn web_service_handler_other_paths_are_not_found() {
    for path in ["/api", "/api/shipping", "/api/shipping/order", "/api/billing/orders", "/api/shipping/orders/"] {
        let asked = request(Method::Get, path);
        let expected = path == "/api/shipping/orders/";
        assert_eq!(WebServiceHandler::serves_orders(&asked), expected);
        let response =
            WebServiceHandler::handler(&asked, Some("[]".to_string()), Some("gone".to_string()));
        if expected {
            assert_eq!(response.status_code(), "200");
        } else {
            assert_eq!(response.status_code(), "404");
            assert_eq!(response.body(), "gone");
            assert_eq!(response.headers, content_type("text/html"));
        }
    }
}

#[test]
fn web_service_handler_missing_orders_are_not_found() {
    let asked = request(Method::Get, "/api/shipping/orders");
    let response = WebServiceHandler::handler(&asked, None, Some("gone".to_string()));
    assert_eq!(response, HttpResonse::new("404", None, Some("gone".to_string())));
    assert_eq!(response.status_code(), "404");
    assert_eq!(response.status_text(), "Not Found");
    assert_eq!(response.headers, content_type("text/html"));
    assert_eq!(response.body(), "gone");

    let response = WebServiceHandler::handler(&request(Method::Get, "/api"), None, None);
    assert_eq!(response.status_code(), "404");
    assert_eq!(response.body, None);
}

#[test]
fn tables_with_the_same_entries_in_another_order() {
    let mut first = Headers::new();
    first.insert("Host".to_string(), "localhost".to_string());
    first.insert("Accept".to_string(), "*/*".to_string());
    let mut second = Headers::new();
    second.insert("Accept".to_string(), "*/*".to_string());
    second.insert("Host".to_string(), "localhost".to_string());
    assert_ne!(first, second);
    assert!(first.same_entries(&second));
    assert!(second.same_entries(&first));
    assert!(first.same_entries(&first.clone()));

    let mut third = Headers::new();
    third.insert("Host".to_string(), "localhost".to_string());
    assert!(third.within(&first));
    assert!(!first.within(&third));
    assert!(!first.same_entries(&third));
    assert!(!third.same_entries(&first));

    second.insert("Host".to_string(), "elsewhere".to_string());
    assert!(!first.same_entries(&second));
    assert!(Headers::new().same_entries(&Headers::new()));
    assert!(Headers::new().within(&first));
}

#[test]
fn order_status_holds_its_fields() {
    let order = OrderStatus {
        order_id: 3,
        order_date: "22 Jan 2020".to_string(),
        order_status: "Returned".to_string(),
    };
    assert_eq!(order.clone(), order);
    assert_eq!(order.order_id, 3);
}

#[test]
fn server_keeps_its_address() {
    let server = Server::new("localhost:8000");
    assert_eq!(server.socket_address(), "localhost:8000");
}

#[test]
fn text_helpers() {
    assert_eq!(trimmed(" \t a b \u{2003}\r\n"), "a b");
    assert_eq!(trimmed("   "), "");
    assert_eq!(trimmed(""), "");
    assert!(whitespace('\u{85}'));
    assert!(!whitespace('\0'));
    assert!(!whitespace('\u{200b}'));
    for c in ['\t', '\n', '\r', ' ', '\u{b}', '\u{c}', '\u{1680}', '\u{2028}', '\u{3000}', 'a', '\u{1f}', '\u{180e}'] {
        assert_eq!(whitespace(c), c.is_whitespace());
    }
    assert_eq!(decimal_text(0), "0");
    assert_eq!(decimal_text(9), "9");
    assert_eq!(decimal_text(10), "10");
    assert_eq!(decimal_text(8192), "8192");
    assert_eq!(decimal_text(usize::MAX), usize::MAX.to_string());
}
