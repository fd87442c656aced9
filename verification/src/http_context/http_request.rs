use http::{HeaderMap, HeaderValue};
use vstd::prelude::*;

use crate::application::ip_address::SocketAddress;
use crate::http_context::http_header::header_entries;
use crate::http_context::http_version::HttpVersion;

verus! {

/// The head of an HTTP request: method, path, version and headers, and the addresses of
/// the client and of the local end. The body stream stays with the server that received
/// the request.
pub struct HttpRequest {
    pub method: String,
    pub path: String,
    pub version: HttpVersion,
    pub headers: HeaderMap<HeaderValue>,
    pub keep_alive: bool,
    pub client_addr: SocketAddress,
    pub local_addr: SocketAddress,
}

impl HttpRequest {
    /// A request with the given head, kept alive unless its headers later say otherwise.
    pub fn from_parts(
        method: String,
        path: String,
        version: HttpVersion,
        headers: HeaderMap<HeaderValue>,
        client_addr: SocketAddress,
        local_addr: SocketAddress,
    ) -> (r: Self)
        ensures
            r.method@ == method@,
            r.path@ == path@,
            r.version == version,
            header_entries(r.headers) == header_entries(headers),
            r.keep_alive,
            r.client_addr == client_addr,
            r.local_addr == local_addr,
    {
        HttpRequest { method, path, version, headers, keep_alive: true, client_addr, local_addr }
    }

    pub fn method(&self) -> (r: &String)
        ensures
            r@ == self.method@,
    {
        &self.method
    }

    pub fn path(&self) -> (r: &str)
        ensures
            r@ == self.path@,
    {
        self.path.as_str()
    }

    pub fn version(&self) -> (r: HttpVersion)
        ensures
            r == self.version,
    {
        self.version
    }

    pub fn headers(&self) -> (r: &HeaderMap<HeaderValue>)
        ensures
            header_entries(*r) == header_entries(self.headers),
    {
        &self.headers
    }

    pub fn headers_mut(&mut self) -> (r: &mut HeaderMap<HeaderValue>)
        ensures
            header_entries(*r) == header_entries(old(self).headers),
            final(self).headers == *final(r),
            final(self).method == old(self).method,
            final(self).path == old(self).path,
            final(self).version == old(self).version,
            final(self).keep_alive == old(self).keep_alive,
            final(self).client_addr == old(self).client_addr,
            final(self).local_addr == old(self).local_addr,
    {
        &mut self.headers
    }
}

} // verus!
