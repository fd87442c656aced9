use vstd::prelude::*;
use vstd::utf8::encode_utf8;

use crate::controller::action_result::ActionResult;
use crate::http_context::http_context::HttpContext;
use crate::http_context::http_header::{
    content_length_of, name_content_length, name_content_type, valid_header_value, AspDotRustHttpHeader,
};
use crate::http_context::http_response::{length_bytes, HttpResponseView};

verus! {

/// The response once an action's result is in it: its body and status, and its content
/// type when it names one.
pub open spec fn result_applied(r: HttpResponseView, status: u16, body: Seq<u8>, content_type: Seq<char>) -> HttpResponseView {
    HttpResponseView {
        status_code: status,
        body: body,
        headers: if content_type.len() > 0 {
            r.headers.insert(name_content_type(), encode_utf8(content_type))
        } else {
            r.headers
        },
        ..r
    }
}

/// The response with a `Content-Length` that matches its body.
pub open spec fn length_set(r: HttpResponseView) -> HttpResponseView {
    HttpResponseView { headers: r.headers.insert(name_content_length(), length_bytes(r.body.len())), ..r }
}

/// The response to a request for an action the controller does not have.
pub open spec fn not_found(r: HttpResponseView) -> HttpResponseView {
    HttpResponseView { status_code: 404, body: "Not Found"@.map_values(|c: char| c as u8), ..r }
}

/// Puts the result of an action into the response: its body and status, and its content
/// type unless that is empty.
pub fn apply_action_result<R: ActionResult>(http_context: &mut HttpContext, result: &R)
    requires
        old(http_context).response@.header_room(1),
    ensures
        final(http_context).request == old(http_context).request,
        final(http_context).response@ == result_applied(
            old(http_context).response@,
            result.status_view(),
            result.body_view(),
            result.content_type_view(),
        ),
{
    let body = result.get_body_async();
    let content_type = result.content_type();
    let status_code = result.status_code();
    *http_context.response.body_mut() = body;
    *http_context.response.status_mut() = status_code;
    if content_type.unicode_len() > 0 {
        http_context.response.headers_mut().set_content_type(content_type);
    }
}

/// `StatusCode::NOT_FOUND.canonical_reason()`: the reason phrase of `404`, which the
/// crate's table of canonical reasons gives as `Not Found`.
#[verifier::external_body]
fn not_found_reason() -> (r: Option<&'static str>)
    ensures
        r is Some,
        r->Some_0@ == "Not Found"@,
{
    http::StatusCode::NOT_FOUND.canonical_reason()
}

/// Answers a request for an unknown action: `404` with the reason as body.
pub fn apply_not_found(http_context: &mut HttpContext)
    ensures
        final(http_context).request == old(http_context).request,
        final(http_context).response@ == not_found(old(http_context).response@),
{
    *http_context.response.status_mut() = 404;
    let reason = match not_found_reason() {
        Some(t) => t,
        None => "Not Found",
    };
    proof {
        reveal_strlit("Not Found");
    }
    let body = vstd::slice::slice_to_vec(reason.as_bytes());
    proof {
        assert(vstd::string::is_ascii(reason)) by {
            assert forall|i: int| 0 <= i < reason@.len() implies (#[trigger] reason@[i]) <= '\u{7f}' by {}
        }
        vstd::string::is_ascii_spec_bytes(reason);
        assert(body@ =~= "Not Found"@.map_values(|c: char| c as u8));
    }
    *http_context.response.body_mut() = body;
}

/// Ends the routing of a request: the `Content-Length` follows the body.
pub fn finish_routing(http_context: &mut HttpContext)
    requires
        old(http_context).response@.header_room(1),
    ensures
        final(http_context).request == old(http_context).request,
        final(http_context).response@ == length_set(old(http_context).response@),
        content_length_of(final(http_context).response@.headers) == Some(
            final(http_context).response@.body.len() as u64,
        ),
{
    let body_len = http_context.response.body().len();
    http_context.response.headers_mut().set_content_length(body_len);
}

} // verus!
