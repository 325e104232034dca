use crate::httprequest::{HttpRequest, Method, Resource};
use crate::text::{
    find_from, lemma_find_from, lemma_split_join, same_text, split, split_text, texts,
};
use vstd::prelude::*;

verus! {

/// The segments of a path: what its slashes part. The first stands before the first slash.
pub open spec fn segments(path: Seq<char>) -> Seq<Seq<char>> {
    split(path, '/')
}

/// The family of handlers that answers a request.
#[derive(Debug, PartialEq, Eq, Structural, Clone, Copy)]
pub enum Route {
    NotFound,
    Static,
    Api,
}

/// Where a request with this method and path goes: anything but a `GET` is not found; a
/// `GET` goes to the API where the segment behind the first slash is `api`, and to the static
/// pages otherwise.
pub open spec fn route_of(method: Method, path: Seq<char>) -> Route {
    if method != Method::Get {
        Route::NotFound
    } else if segments(path)[1] != "api"@ {
        Route::Static
    } else {
        Route::Api
    }
}

/// A request that is no `GET` is not found, whatever its path.
pub proof fn lemma_not_get_not_found(method: Method, path: Seq<char>)
    requires
        method != Method::Get,
    ensures
        route_of(method, path) == Route::NotFound,
{
}

/// A path has a segment behind its first slash exactly if it holds a slash.
pub proof fn lemma_second_segment(path: Seq<char>)
    ensures
        segments(path).len() >= 2 <==> find_from(path, '/', 0) < path.len(),
{
    lemma_find_from(path, '/', 0);
    let i = find_from(path, '/', 0);
    if i < path.len() {
        lemma_split_join(path, '/', i + 1);
    }
}

impl HttpRequest {
    /// The segments of the path.
    pub fn segments(&self) -> (r: Vec<String>)
        ensures
            texts(r@) == segments(self@.path),
            r@.len() >= 1,
    {
        match &self.resource {
            Resource::Path(url) => split_text(url.as_str(), '/'),
        }
    }
}

/// Chooses a family of handlers by method and path. It reads neither headers nor body.
pub struct Router;

impl Router {
    /// Chooses the family of handlers for `request`. A `GET` needs a path with a slash in it:
    /// there is no segment to go by otherwise.
    pub fn route(request: &HttpRequest) -> (r: Route)
        requires
            request@.method == Method::Get ==> segments(request@.path).len() >= 2,
        ensures
            r == route_of(request@.method, request@.path),
    {
        if request.method != Method::Get {
            return Route::NotFound;
        }
        let url = request.segments();
        assert(texts(url@)[1] == url@[1]@);
        if !same_text(url[1].as_str(), "api") {
            return Route::Static;
        }
        Route::Api
    }
}

} // verus!
