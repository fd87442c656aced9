use vstd::prelude::*;
use vstd::string::StringSliceAdditionalSpecFns;
use vstd::utf8::encode_utf8;

use crate::http_context::http_context::HttpContext;
use crate::http_context::http_header::{
    name_content_length, name_content_type, valid_header_value, AspDotRustHttpHeader,
};
use crate::http_context::http_response::{length_bytes, write_spec, HttpResponseView};

verus! {

/// The response once an action result set its headers: its status, its `Content-Length`
/// and its `Content-Type`.
pub open spec fn headers_set(r: HttpResponseView, status: u16, length: usize, content_type: Seq<char>) -> HttpResponseView {
    HttpResponseView {
        status_code: status,
        headers: r.headers.insert(name_content_length(), length_bytes(length as nat)).insert(
            name_content_type(),
            encode_utf8(content_type),
        ),
        ..r
    }
}

/// The response once an action result wrote itself through the response stream: its
/// status, `Content-Length` and `Content-Type` set, then the body written.
pub open spec fn written_through(
    r: HttpResponseView,
    status: u16,
    length: usize,
    content_type: Seq<char>,
    body: Seq<u8>,
) -> HttpResponseView {
    write_spec(headers_set(r, status, length, content_type), body)
}

/// What an action of a controller returns: a status, a body and its content type.
pub trait ActionResult {
    spec fn status_view(&self) -> u16;

    spec fn body_view(&self) -> Seq<u8>;

    spec fn content_type_view(&self) -> Seq<char>;

    spec fn content_length_view(&self) -> usize;

    fn status_code(&self) -> (r: u16)
        ensures
            r == self.status_view(),
    ;

    fn get_body_async(&self) -> (r: Vec<u8>)
        ensures
            r@ == self.body_view(),
    ;

    fn set_headers(&self, http_context: &mut HttpContext)
        requires
            old(http_context).response@.header_room(2),
        ensures
            final(http_context).request == old(http_context).request,
            final(http_context).response@ == headers_set(
                old(http_context).response@,
                self.status_view(),
                self.content_length_view(),
                self.content_type_view(),
            ),
    {
        *http_context.response.status_mut() = self.status_code();
        let length = self.content_length();
        let content_type = self.content_type();
        let headers = http_context.response.headers_mut();
        headers.set_content_length(length);
        headers.set_content_type(content_type);
    }

    fn write_to_http_context_async(&self, http_context: &mut HttpContext)
        requires
            old(http_context).response@.header_room(6),
        ensures
            final(http_context).request == old(http_context).request,
        default_ensures
            final(http_context).request == old(http_context).request,
            final(http_context).response@ == (HttpResponseView {
                body: self.body_view(),
                ..headers_set(
                    old(http_context).response@,
                    self.status_view(),
                    self.content_length_view(),
                    self.content_type_view(),
                )
            }),
    {
        self.set_headers(http_context);
        let body = self.get_body_async();
        *http_context.response.body_mut() = body;
    }

    fn content_type(&self) -> (r: &str)
        ensures
            r@ == self.content_type_view(),
            valid_header_value(r@),
    ;

    fn content_length(&self) -> (r: usize)
        ensures
            r == self.content_length_view(),
    ;
}

impl<'s> ActionResult for &'s str {
    open spec fn status_view(&self) -> u16 {
        200
    }

    open spec fn body_view(&self) -> Seq<u8> {
        (*self).spec_bytes()
    }

    open spec fn content_type_view(&self) -> Seq<char> {
        Seq::empty()
    }

    open spec fn content_length_view(&self) -> usize {
        (*self).spec_bytes().len() as usize
    }

    fn get_body_async(&self) -> (r: Vec<u8>) {
        vstd::slice::slice_to_vec(self.as_bytes())
    }

    fn write_to_http_context_async(&self, http_context: &mut HttpContext)
        ensures
            final(http_context).response@ == (HttpResponseView {
                body: self.body_view(),
                ..headers_set(
                    old(http_context).response@,
                    self.status_view(),
                    self.content_length_view(),
                    self.content_type_view(),
                )
            }),
    {
        self.set_headers(http_context);
        *http_context.response.body_mut() = vstd::slice::slice_to_vec(self.as_bytes());
    }

    fn status_code(&self) -> (r: u16) {
        200
    }

    fn content_type(&self) -> (r: &str) {
        proof {
            reveal_strlit("");
        }
        ""
    }

    fn content_length(&self) -> (r: usize) {
        self.len()
    }
}

impl ActionResult for String {
    open spec fn status_view(&self) -> u16 {
        200
    }

    open spec fn body_view(&self) -> Seq<u8> {
        encode_utf8(self@)
    }

    open spec fn content_type_view(&self) -> Seq<char> {
        Seq::empty()
    }

    open spec fn content_length_view(&self) -> usize {
        encode_utf8(self@).len() as usize
    }

    fn get_body_async(&self) -> (r: Vec<u8>) {
        vstd::slice::slice_to_vec(self.as_str().as_bytes())
    }

    fn write_to_http_context_async(&self, http_context: &mut HttpContext)
        ensures
            final(http_context).response@ == written_through(
                old(http_context).response@,
                self.status_view(),
                self.content_length_view(),
                self.content_type_view(),
                self.body_view(),
            ),
    {
        *http_context.response.status_mut() = self.status_code();
        let length = self.content_length();
        let content_type = self.content_type();
        let headers = http_context.response.headers_mut();
        headers.set_content_length(length);
        headers.set_content_type(content_type);
        http_context.response.write_async(self.as_str().as_bytes());
    }

    fn status_code(&self) -> (r: u16) {
        200
    }

    fn content_type(&self) -> (r: &str) {
        proof {
            reveal_strlit("");
        }
        ""
    }

    fn content_length(&self) -> (r: usize) {
        self.as_str().len()
    }
}

impl ActionResult for Vec<u8> {
    open spec fn status_view(&self) -> u16 {
        200
    }

    open spec fn body_view(&self) -> Seq<u8> {
        self@
    }

    open spec fn content_type_view(&self) -> Seq<char> {
        Seq::empty()
    }

    open spec fn content_length_view(&self) -> usize {
        self@.len() as usize
    }

    fn get_body_async(&self) -> (r: Vec<u8>) {
        self.clone()
    }

    fn write_to_http_context_async(&self, http_context: &mut HttpContext)
        ensures
            final(http_context).response@ == written_through(
                old(http_context).response@,
                self.status_view(),
                self.content_length_view(),
                self.content_type_view(),
                self.body_view(),
            ),
    {
        *http_context.response.status_mut() = self.status_code();
        let length = self.content_length();
        let content_type = self.content_type();
        let headers = http_context.response.headers_mut();
        headers.set_content_length(length);
        headers.set_content_type(content_type);
        http_context.response.write_async(self.as_slice());
    }

    fn status_code(&self) -> (r: u16) {
        200
    }

    fn content_type(&self) -> (r: &str) {
        proof {
            reveal_strlit("");
        }
        ""
    }

    fn content_length(&self) -> (r: usize) {
        self.len()
    }
}

/// Every built-in action result answers `200 OK` with no content type: bytes with
/// themselves as body, a text with its UTF-8 bytes, and a `Content-Length` of the body's
/// length.
pub proof fn lemma_builtin_results_answer_ok(bytes: Vec<u8>, text: String, slice: &str)
    ensures
        bytes.status_view() == 200,
        text.status_view() == 200,
        slice.status_view() == 200,
        bytes.body_view() == bytes@,
        text.body_view() == encode_utf8(text@),
        slice.body_view() == slice.spec_bytes(),
        bytes.content_length_view() == bytes@.len() as usize,
        text.content_length_view() == encode_utf8(text@).len() as usize,
        slice.content_length_view() == slice.spec_bytes().len() as usize,
        bytes.content_type_view().len() == 0,
        text.content_type_view().len() == 0,
        slice.content_type_view().len() == 0,
{
}

} // verus!
