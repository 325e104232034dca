use crate::headers::Headers;
use crate::httprequest::HttpRequest;
use crate::httpresponse::{response_of, text_view, HttpResonse, ResponseView};
use crate::router::segments;
use crate::text::{chars_of, ends_with, has_suffix, same_text, texts};
use vstd::prelude::*;
use vstd::string::*;

verus! {

/// One order and how far it has come.
#[derive(Debug, PartialEq, Eq, Clone)]
pub struct OrderStatus {
    pub order_id: i32,
    pub order_date: String,
    pub order_status: String,
}

/// The response that tells that nothing was found, with the page for it as its body.
pub open spec fn not_found(page: Option<Seq<char>>) -> ResponseView {
    response_of("404"@, None, page)
}

/// The file that a static path names: the index for the root, the health page for
/// `health`, and for any other path the segment behind its first slash.
pub open spec fn static_file(path: Seq<char>) -> Seq<char> {
    let name = segments(path)[1];
    if name == ""@ {
        "index.html"@
    } else if name == "health"@ {
        "health.html"@
    } else {
        name
    }
}

/// The content type that goes with a file name: by its ending a style sheet or a script,
/// else HTML.
pub open spec fn content_type_of(name: Seq<char>) -> Seq<char> {
    if ends_with(name, ".css"@) {
        "text/css"@
    } else if ends_with(name, ".js"@) {
        "text/javascript"@
    } else {
        "text/html"@
    }
}

/// The answer to a static path, given what its file holds, if it is there, and the page for
/// what is not found. A file that is there is answered with status 200 and its content: the
/// index and the health page with the default headers, any other file with the content type
/// that goes with its name. A file that is missing is answered as not found.
pub open spec fn static_response(
    path: Seq<char>,
    contents: Option<Seq<char>>,
    fallback: Option<Seq<char>>,
) -> ResponseView {
    let name = segments(path)[1];
    match contents {
        Some(c) => if name == ""@ || name == "health"@ {
            response_of("200"@, None, Some(c))
        } else {
            response_of("200"@, Some(seq![("Content-Type"@, content_type_of(name))]), Some(c))
        },
        None => not_found(fallback),
    }
}

/// Whether a path asks for the shipping orders: it has at least four segments, the third
/// is `shipping` and the fourth is `orders`.
pub open spec fn is_orders_path(path: Seq<char>) -> bool {
    let parts = segments(path);
    parts.len() >= 4 && parts[2] == "shipping"@ && parts[3] == "orders"@
}

/// The answer to an API path, given the orders as JSON, if they could be had, and the page
/// for what is not found. A path that asks for the orders is answered with them; any other
/// path, and a path that asks for orders that are missing, is answered as not found.
pub open spec fn api_response(
    path: Seq<char>,
    orders: Option<Seq<char>>,
    fallback: Option<Seq<char>>,
) -> ResponseView {
    match orders {
        Some(json) if is_orders_path(path) => response_of(
            "200"@,
            Some(seq![("Content-Type"@, "application/json"@)]),
            Some(json),
        ),
        _ => not_found(fallback),
    }
}

/// A header table that holds the content type `value` and nothing else.
fn content_type_table(value: &str) -> (table: Headers)
    ensures
        table@ == seq![("Content-Type"@, value@)],
{
    let mut table = Headers::new();
    table.insert(String::from_str("Content-Type"), String::from_str(value));
    assert(table@ =~= seq![("Content-Type"@, value@)]);
    table
}

/// Answers what no other handler answers.
pub struct PageNotFoundHandler;

impl PageNotFoundHandler {
    /// Answers any request as not found, with `page` as the body.
    pub fn handler(_request: &HttpRequest, page: Option<String>) -> (r: HttpResonse<'static>)
        ensures
            r@ == not_found(text_view(page)),
    {
        HttpResonse::new("404", None, page)
    }
}

/// Answers with the files of the public directory. Reading them is left to the caller.
pub struct StaticPageHandler;

impl StaticPageHandler {
    /// The name of the file that `request` asks for.
    pub fn file_name(request: &HttpRequest) -> (name: String)
        requires
            segments(request@.path).len() >= 2,
        ensures
            name@ == static_file(request@.path),
    {
        let url = request.segments();
        assert(texts(url@)[1] == url@[1]@);
        if same_text(url[1].as_str(), "") {
            String::from_str("index.html")
        } else if same_text(url[1].as_str(), "health") {
            String::from_str("health.html")
        } else {
            url[1].clone()
        }
    }

    /// Answers `request` with what its file holds. `contents` is the content of the file
    /// named by `file_name`, if it could be read, and `fallback` the page for what is not
    /// found.
    pub fn handler(
        request: &HttpRequest,
        contents: Option<String>,
        fallback: Option<String>,
    ) -> (r: HttpResonse<'static>)
        requires
            segments(request@.path).len() >= 2,
        ensures
            r@ == static_response(request@.path, text_view(contents), text_view(fallback)),
    {
        let url = request.segments();
        assert(texts(url@)[1] == url@[1]@);
        let path = url[1].as_str();
        match contents {
            Some(data) => {
                if same_text(path, "") || same_text(path, "health") {
                    return HttpResonse::new("200", None, Some(data));
                }
                let name = chars_of(path);
                let headers = if has_suffix(&name, &chars_of(".css")) {
                    content_type_table("text/css")
                } else if has_suffix(&name, &chars_of(".js")) {
                    content_type_table("text/javascript")
                } else {
                    content_type_table("text/html")
                };
                HttpResonse::new("200", Some(headers), Some(data))
            },
            None => HttpResonse::new("404", None, fallback),
        }
    }
}

/// Answers the API. Loading the orders is left to the caller.
pub struct WebServiceHandler;

impl WebServiceHandler {
    /// Tells whether `request` asks for the shipping orders.
    pub fn serves_orders(request: &HttpRequest) -> (r: bool)
        ensures
            r == is_orders_path(request@.path),
    {
        let url = request.segments();
        if url.len() < 4 {
            return false;
        }
        assert(texts(url@)[2] == url@[2]@);
        assert(texts(url@)[3] == url@[3]@);
        same_text(url[2].as_str(), "shipping") && same_text(url[3].as_str(), "orders")
    }

    /// Answers `request` with the orders where it asks for them and they are there, and as
    /// not found otherwise, with `fallback` as the body. `orders` holds the orders as JSON,
    /// or nothing where they are missing or cannot be read.
    pub fn handler(
        request: &HttpRequest,
        orders: Option<String>,
        fallback: Option<String>,
    ) -> (r: HttpResonse<'static>)
        ensures
            r@ == api_response(request@.path, text_view(orders), text_view(fallback)),
    {
        match orders {
            Some(json) => {
                if WebServiceHandler::serves_orders(request) {
                    let headers = content_type_table("application/json");
                    HttpResonse::new("200", Some(headers), Some(json))
                } else {
                    HttpResonse::new("404", None, fallback)
                }
            },
            None => HttpResonse::new("404", None, fallback),
        }
    }
}

} // verus!
