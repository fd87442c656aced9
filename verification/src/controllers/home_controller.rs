use std::sync::atomic::AtomicBool;
use std::sync::Arc;
use vstd::prelude::*;
use vstd::string::StringSliceAdditionalSpecFns;
use vstd::utf8::encode_utf8;

use crate::controller::dispatch::{
    apply_action_result, apply_not_found, finish_routing, length_set, not_found, result_applied,
};
use crate::controller::routing::{Routing, WithHttpContext};
use crate::dependcy_injection::inject_types::DependcyInjectableController;
use crate::extensions::str::str_equals;
use crate::http_context::http_context::HttpContext;
use crate::http_context::http_header::{
    content_length_of, name_content_type, valid_header_value, AspDotRustHttpHeader,
};
use crate::http_context::http_response::HttpResponseView;

verus! {

/// The page the `index` action answers with.
pub open spec fn index_page() -> Seq<char> {
    "<html><body><h1>Hello, World!</h1></body></html>"@
}

/// The response once the `index` action ran: `200` and an HTML content type.
pub open spec fn index_prepared(r: HttpResponseView) -> HttpResponseView {
    HttpResponseView {
        status_code: 200,
        headers: r.headers.insert(name_content_type(), "text/html"@.map_values(|c: char| c as u8)),
        ..r
    }
}

/// The response to `method_name`, routed by a controller whose `temp` service is `temp`.
pub open spec fn home_routed(r: HttpResponseView, method_name: Seq<char>, temp: Seq<char>) -> HttpResponseView {
    if method_name == "index"@ {
        length_set(result_applied(index_prepared(r), 200, encode_utf8(index_page()), Seq::empty()))
    } else if method_name == "update"@ || method_name == "replace"@ {
        length_set(result_applied(r, 200, encode_utf8(temp), Seq::empty()))
    } else if method_name == "health"@ {
        length_set(result_applied(r, 200, encode_utf8("ok"@), Seq::empty()))
    } else {
        length_set(not_found(r))
    }
}

/// The sample controller: a page, two actions that answer with an injected text, and a
/// health check.
pub struct HomeController {
    temp: String,
    temp2: String,
    http_context: HttpContext,
}

impl HomeController {
    /// The text the controller was given as its service.
    pub closed spec fn temp_view(&self) -> Seq<char> {
        self.temp@
    }

    /// The context of the request the controller serves.
    pub closed spec fn context(&self) -> HttpContext {
        self.http_context
    }

    /// A controller for the request in `http_context`, with `temp` as the text service
    /// both of its text fields are resolved to.
    pub fn with_service(http_context: HttpContext, temp: String) -> (r: Self)
        ensures
            r.context() == http_context,
            r.temp_view() == temp@,
    {
        let temp2 = temp.clone();
        HomeController { temp, temp2, http_context }
    }

    /// Gives the context back once the controller is done with it.
    pub fn into_http_context(self) -> (r: HttpContext)
        ensures
            r == self.context(),
    {
        self.http_context
    }

    /// Sets an HTML content type and a `200` status, and answers with a page.
    pub fn index(&mut self) -> (r: &'static str)
        requires
            old(self).context().response@.header_room(1),
        ensures
            r@ == index_page(),
            final(self).context().request == old(self).context().request,
            final(self).context().response@ == index_prepared(old(self).context().response@),
            final(self).temp_view() == old(self).temp_view(),
    {
        let html = "text/html";
        proof {
            reveal_strlit("text/html");
            assert(valid_header_value(html@));
            assert(vstd::string::is_ascii(html)) by {
                assert forall|i: int| 0 <= i < html@.len() implies (#[trigger] html@[i]) <= '\u{7f}' by {}
            }
            vstd::string::is_ascii_spec_bytes(html);
            assert(html.spec_bytes() =~= "text/html"@.map_values(|c: char| c as u8));
        }
        self.http_context.response.headers_mut().set_content_type(html);
        *self.http_context.response.status_mut() = 200;
        "<html><body><h1>Hello, World!</h1></body></html>"
    }

    /// Answers with the injected text.
    pub fn update(&mut self) -> (r: String)
        ensures
            r@ == old(self).temp_view(),
            *final(self) == *old(self),
    {
        self.temp.clone()
    }

    /// Answers with the injected text.
    pub fn replace(&mut self) -> (r: String)
        ensures
            r@ == old(self).temp_view(),
            *final(self) == *old(self),
    {
        self.temp.clone()
    }

    /// Answers `ok`.
    pub fn health(&self) -> (r: String)
        ensures
            r@ == "ok"@,
    {
        String::from_str("ok")
    }
}

impl WithHttpContext for HomeController {
    fn str_name() -> (r: &'static str)
        ensures
            r@ == "Home"@,
    {
        "Home"
    }

    /// A controller for the request in `http_context`, with no text service registered.
    fn new(http_context: HttpContext) -> (r: Self)
        ensures
            r.context() == http_context,
            r.temp_view() == Seq::<char>::empty(),
    {
        HomeController { temp: String::new(), temp2: String::new(), http_context }
    }
}

impl DependcyInjectableController for HomeController {
    fn inject(http_context: HttpContext, is_valid: Arc<AtomicBool>) -> (r: Self)
        ensures
            r.context() == http_context,
            r.temp_view() == Seq::<char>::empty(),
    {
        HomeController { temp: String::new(), temp2: String::new(), http_context }
    }
}

impl Routing for HomeController {
    open spec fn can_route(&self) -> bool {
        self.context().response@.header_room(2)
    }

    /// Runs the action named `method_name` and puts its result in the response; an unknown
    /// name is answered `404`. The `Content-Length` then follows the body.
    fn routing(&mut self, method_name: &str)
        ensures
            final(self).context().request == old(self).context().request,
            final(self).context().response@ == home_routed(
                old(self).context().response@,
                method_name@,
                old(self).temp_view(),
            ),
            content_length_of(final(self).context().response@.headers) == Some(
                final(self).context().response@.body.len() as u64,
            ),
            final(self).temp_view() == old(self).temp_view(),
    {
        if str_equals(method_name, "index") {
            let result = self.index();
            apply_action_result(&mut self.http_context, &result);
        } else if str_equals(method_name, "update") {
            let result = self.update();
            apply_action_result(&mut self.http_context, &result);
        } else if str_equals(method_name, "replace") {
            let result = self.replace();
            apply_action_result(&mut self.http_context, &result);
        } else if str_equals(method_name, "health") {
            let result = self.health();
            apply_action_result(&mut self.http_context, &result);
        } else {
            apply_not_found(&mut self.http_context);
        }
        finish_routing(&mut self.http_context);
    }
}

} // verus!
