use vstd::prelude::*;

use crate::http_context::http_request::HttpRequest;
use crate::http_context::http_response::HttpResponse;

verus! {

/// A request being served together with the response being built for it.
pub struct HttpContext {
    pub request: HttpRequest,
    pub response: HttpResponse,
}

impl HttpContext {
    pub fn new(request: HttpRequest, response: HttpResponse) -> (r: Self)
        ensures
            r.request == request,
            r.response == response,
    {
        HttpContext { request, response }
    }
}

} // verus!
