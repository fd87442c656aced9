use http::{HeaderMap, HeaderValue};
use vstd::prelude::*;
use vstd::utf8::encode_utf8;

use crate::extensions::number::decimal_text;
use crate::http_context::http_version::HttpVersion;
use crate::http_context::http_header::{
    content_length_of, header_entries, header_key, header_map_contains, header_text, lemma_length_text_read_back,
    name_content_length, new_header_map, valid_header_name, valid_header_value, AspDotRustHttpHeader,
};

verus! {

/// How far a response has been written.
#[derive(Debug, Clone, Copy, PartialEq, Eq, Structural)]
#[allow(non_camel_case_types)]
pub enum WritenPhase {
    NONE,
    HTTP_HEADERS,
    HTTP_BODY,
    END,
}

impl WritenPhase {
    /// The phases in the order in which they are reached.
    pub open spec fn rank(self) -> u8 {
        match self {
            WritenPhase::NONE => 0,
            WritenPhase::HTTP_HEADERS => 1,
            WritenPhase::HTTP_BODY => 2,
            WritenPhase::END => 255,
        }
    }

    /// The number of the phase (`0`, `1`, `2`, `255`).
    pub fn value(&self) -> (r: u8)
        ensures
            r == self.rank(),
    {
        match self {
            WritenPhase::NONE => 0,
            WritenPhase::HTTP_HEADERS => 1,
            WritenPhase::HTTP_BODY => 2,
            WritenPhase::END => 255,
        }
    }
}

pub open spec fn name_connection() -> Seq<char> {
    seq!['c', 'o', 'n', 'n', 'e', 'c', 't', 'i', 'o', 'n']
}

pub open spec fn name_keep_alive() -> Seq<char> {
    seq!['k', 'e', 'e', 'p', '-', 'a', 'l', 'i', 'v', 'e']
}

/// The `Connection` header value for a response.
pub open spec fn connection_value(keep_alive: bool) -> Seq<char> {
    if keep_alive {
        seq!['k', 'e', 'e', 'p', '-', 'a', 'l', 'i', 'v', 'e']
    } else {
        seq!['c', 'l', 'o', 's', 'e']
    }
}

/// The `Keep-Alive` header value for a response.
pub open spec fn keep_alive_value() -> Seq<char> {
    "timeout=30, max=1000"@
}

/// The bytes of the `Content-Length` value `n`.
pub open spec fn length_bytes(n: nat) -> Seq<u8> {
    encode_utf8(decimal_text(n))
}

/// The headers once a response writes them: a `Content-Length` of the body unless one is
/// set, and `Connection` and `Keep-Alive` unless a `Connection` is set.
pub open spec fn headers_written(e: Map<Seq<char>, Seq<u8>>, body_len: nat, keep_alive: bool) -> Map<
    Seq<char>,
    Seq<u8>,
> {
    let e1 = if content_length_of(e) is None {
        e.insert(name_content_length(), length_bytes(body_len))
    } else {
        e
    };
    if e1.contains_key(name_connection()) {
        e1
    } else {
        e1.insert(name_connection(), encode_utf8(connection_value(keep_alive))).insert(
            name_keep_alive(),
            encode_utf8(keep_alive_value()),
        )
    }
}

/// The headers after `write_async(data)`: a `Content-Length` raised to the data's length
/// when it is missing or smaller.
pub open spec fn length_raised(e: Map<Seq<char>, Seq<u8>>, data_len: nat) -> Map<Seq<char>, Seq<u8>> {
    let current = match content_length_of(e) {
        Some(n) => n as nat,
        None => 0,
    };
    if current < data_len {
        e.insert(name_content_length(), length_bytes(data_len))
    } else {
        e
    }
}

/// The response once its headers are written: unchanged when they were written before.
pub open spec fn write_headers_spec(r: HttpResponseView) -> HttpResponseView {
    if r.written_phase.rank() >= 1 {
        r
    } else {
        HttpResponseView {
            headers: headers_written(r.headers, r.body.len(), r.keep_alive),
            written_phase: WritenPhase::HTTP_HEADERS,
            ..r
        }
    }
}

/// The response after `write_async(data)`: the length raised, the headers written, and
/// `data` appended to the output.
pub open spec fn write_spec(r: HttpResponseView, data: Seq<u8>) -> HttpResponseView {
    let r1 = HttpResponseView { headers: length_raised(r.headers, data.len()), ..r };
    let r2 = write_headers_spec(r1);
    HttpResponseView {
        output: match r2.output {
            Some(o) => Some(o + data),
            None => None,
        },
        ..r2
    }
}

/// The response after its body is written out.
pub open spec fn write_body_spec(r: HttpResponseView) -> HttpResponseView {
    let r1 = HttpResponseView { body: Seq::empty(), ..r };
    HttpResponseView { written_phase: WritenPhase::HTTP_BODY, ..write_spec(r1, r.body) }
}

/// The response after it is written out whole.
pub open spec fn write_response_spec(r: HttpResponseView) -> HttpResponseView {
    HttpResponseView { written_phase: WritenPhase::END, ..write_body_spec(write_headers_spec(r)) }
}

/// An HTTP response under construction, written into memory.
pub struct HttpResponse {
    pub status_code: u16,
    pub headers: HeaderMap<HeaderValue>,
    pub body: Vec<u8>,
    pub version: HttpVersion,
    pub written_phase: WritenPhase,
    pub keep_alive: bool,
    in_memory_output: Option<Vec<u8>>,
}

/// The abstract state of a response.
pub struct HttpResponseView {
    pub status_code: u16,
    pub headers: Map<Seq<char>, Seq<u8>>,
    pub body: Seq<u8>,
    pub version: HttpVersion,
    pub written_phase: WritenPhase,
    pub keep_alive: bool,
    /// What was written out, when the response writes into memory.
    pub output: Option<Seq<u8>>,
}

impl View for HttpResponse {
    type V = HttpResponseView;

    closed spec fn view(&self) -> HttpResponseView {
        HttpResponseView {
            status_code: self.status_code,
            headers: header_entries(self.headers),
            body: self.body@,
            version: self.version,
            written_phase: self.written_phase,
            keep_alive: self.keep_alive,
            output: match self.in_memory_output {
                Some(v) => Some(v@),
                None => None,
            },
        }
    }
}

impl HttpResponseView {
    /// Room for `extra` more headers.
    pub open spec fn header_room(self, extra: nat) -> bool {
        &&& self.headers.dom().finite()
        &&& self.headers.dom().len() + extra < 6553
    }
}

impl HttpResponse {
    /// An empty `200` response that collects what is written in memory.
    pub fn new_in_memory() -> (r: Self)
        ensures
            r@ == (HttpResponseView {
                status_code: 200,
                headers: Map::empty(),
                body: Seq::empty(),
                version: HttpVersion::Http11,
                written_phase: WritenPhase::NONE,
                keep_alive: false,
                output: Some(Seq::empty()),
            }),
    {
        HttpResponse {
            status_code: 200,
            headers: new_header_map(),
            body: Vec::new(),
            version: HttpVersion::Http11,
            written_phase: WritenPhase::NONE,
            keep_alive: false,
            in_memory_output: Some(Vec::new()),
        }
    }

    /// Completes the headers, once: sets `Content-Length` to the body's length unless it is
    /// set, and `Connection`/`Keep-Alive` unless `Connection` is set. Runs synchronously.
    pub fn write_headers_async(&mut self)
        requires
            old(self)@.written_phase == WritenPhase::NONE ==> old(self)@.header_room(3),
        ensures
            final(self)@ == write_headers_spec(old(self)@),
    {
        if self.written_phase.value() >= 1 {
            return;
        }
        let ghost e0 = header_entries(self.headers);
        if self.headers.content_length().is_none() {
            self.headers.set_content_length(self.body.len());
        }
        let ghost e1 = header_entries(self.headers);
        proof {
            assert(e1.dom().len() <= e0.dom().len() + 1);
        }
        let connection = connection_name();
        if !header_map_contains(&self.headers, connection) {
            let value = if self.keep_alive {
                keep_alive_text()
            } else {
                close_text()
            };
            self.headers.insert_str(connection, value);
            let ka = keep_alive_name();
            let ka_value = keep_alive_value_text();
            self.headers.insert_str(ka, ka_value);
        }
        self.written_phase = WritenPhase::HTTP_HEADERS;
    }
}

impl HttpResponse {
    /// Writes `data` out, raising `Content-Length` to its length when that is missing or
    /// smaller, and writing the headers first if they are not yet. Runs synchronously.
    pub fn write_async<'a>(&'a mut self, data: &[u8]) -> (r: &'a mut Self)
        requires
            old(self)@.header_room(4),
        ensures
            (*r)@ == write_spec(old(self)@, data@),
            *final(self) == *final(r),
    {
        let ghost e0 = header_entries(self.headers);
        let current = match self.headers.content_length() {
            Some(n) => n,
            None => 0,
        };
        if current < data.len() as u64 {
            self.headers.set_content_length(data.len());
        }
        proof {
            assert(header_entries(self.headers) == length_raised(e0, data@.len()));
        }
        self.write_headers_async();
        match self.in_memory_output.take() {
            Some(mut buf) => {
                let ghost before = buf@;
                let mut i: usize = 0;
                while i < data.len()
                    invariant
                        i <= data@.len(),
                        buf@ == before + data@.subrange(0, i as int),
                    decreases data@.len() - i,
                {
                    buf.push(data[i]);
                    i = i + 1;
                }
                assert(data@.subrange(0, data@.len() as int) =~= data@);
                self.in_memory_output = Some(buf);
            },
            None => {},
        }
        self
    }

    /// Moves the body out and writes it. Runs synchronously.
    pub fn write_body_async(&mut self)
        requires
            old(self)@.header_room(4),
        ensures
            final(self)@ == write_body_spec(old(self)@),
    {
        let mut body: Vec<u8> = Vec::new();
        std::mem::swap(&mut body, &mut self.body);
        self.write_async(body.as_slice());
        self.written_phase = WritenPhase::HTTP_BODY;
    }

    /// Writes the headers and then the body. Runs synchronously.
    pub fn write_response_async(&mut self)
        requires
            old(self)@.header_room(7),
        ensures
            final(self)@ == write_response_spec(old(self)@),
    {
        proof {
            lemma_headers_written_grows(self@.headers, self@.body.len(), self@.keep_alive);
        }
        self.write_headers_async();
        self.write_body_async();
        self.written_phase = WritenPhase::END;
    }

    pub fn body_mut(&mut self) -> (r: &mut Vec<u8>)
        ensures
            r@ == old(self)@.body,
            final(self)@ == (HttpResponseView { body: final(r)@, ..old(self)@ }),
    {
        &mut self.body
    }

    pub fn headers_mut(&mut self) -> (r: &mut HeaderMap<HeaderValue>)
        ensures
            header_entries(*r) == old(self)@.headers,
            final(self)@ == (HttpResponseView { headers: header_entries(*final(r)), ..old(self)@ }),
    {
        &mut self.headers
    }

    /// What was written out, when the response writes into memory.
    pub fn in_memory_output(&self) -> (r: Option<&Vec<u8>>)
        ensures
            match r {
                Some(v) => self@.output == Some(v@),
                None => self@.output is None,
            },
    {
        match &self.in_memory_output {
            Some(v) => Some(v),
            None => None,
        }
    }

    pub fn body(&self) -> (r: &Vec<u8>)
        ensures
            r@ == self@.body,
    {
        &self.body
    }

    pub fn headers(&self) -> (r: &HeaderMap<HeaderValue>)
        ensures
            header_entries(*r) == self@.headers,
    {
        &self.headers
    }

    pub fn status_mut(&mut self) -> (r: &mut u16)
        ensures
            *r == old(self)@.status_code,
            final(self)@ == (HttpResponseView { status_code: *final(r), ..old(self)@ }),
    {
        &mut self.status_code
    }
}

/// Writing the headers adds at most three names.
pub proof fn lemma_headers_written_grows(e: Map<Seq<char>, Seq<u8>>, body_len: nat, keep_alive: bool)
    requires
        e.dom().finite(),
    ensures
        headers_written(e, body_len, keep_alive).dom().finite(),
        headers_written(e, body_len, keep_alive).dom().len() <= e.dom().len() + 3,
{
}

/// Writing out a response that nothing was written of yet sends exactly its body, with a
/// `Content-Length` that is the body's length, and leaves it ended with an empty body.
pub proof fn lemma_write_response_fresh(r: HttpResponseView)
    requires
        r.written_phase == WritenPhase::NONE,
        r.output == Some(Seq::<u8>::empty()),
        content_length_of(r.headers) is None,
        r.body.len() <= u64::MAX,
    ensures
        write_response_spec(r).output == Some(r.body),
        content_length_of(write_response_spec(r).headers) == Some(r.body.len() as u64),
        write_response_spec(r).written_phase == WritenPhase::END,
        write_response_spec(r).body.len() == 0,
{
    let n = r.body.len();
    let e1 = r.headers.insert(name_content_length(), length_bytes(n));
    lemma_length_text_read_back(r.headers, n);
    assert(name_connection() != name_content_length()) by {
        assert(name_connection().len() != name_content_length().len());
    }
    assert(name_keep_alive() != name_content_length()) by {
        assert(name_keep_alive().len() != name_content_length().len());
    }
    let h = headers_written(r.headers, n, r.keep_alive);
    assert(h[name_content_length()] == e1[name_content_length()]);
    assert(h.contains_key(name_content_length()));
    assert(header_text(h, name_content_length()) == header_text(e1, name_content_length()));
    assert(content_length_of(h) == Some(n as u64));
    let r1 = write_headers_spec(r);
    assert(r1.headers == h);
    let r2 = HttpResponseView { body: Seq::empty(), ..r1 };
    assert(length_raised(r2.headers, n) == r2.headers);
    assert(Seq::<u8>::empty() + r.body =~= r.body);
}

/// Writing headers or data never moves a response back to an earlier phase, and neither
/// does writing the body of a response that has not ended. (Writing the body of an
/// ended response marks it as at its body again.)
pub proof fn lemma_phases_advance(r: HttpResponseView, data: Seq<u8>)
    ensures
        write_headers_spec(r).written_phase.rank() >= r.written_phase.rank(),
        write_headers_spec(r).written_phase.rank() >= 1,
        write_spec(r, data).written_phase.rank() >= r.written_phase.rank(),
        r.written_phase.rank() <= 2 ==> write_body_spec(r).written_phase.rank() >= r.written_phase.rank(),
        write_response_spec(r).written_phase == WritenPhase::END,
{
}

fn connection_name() -> (s: &'static str)
    ensures
        valid_header_name(s@),
        header_key(s@) == name_connection(),
{
    proof {
        reveal_strlit("Connection");
        assert(header_key("Connection"@) =~= name_connection());
    }
    "Connection"
}

fn keep_alive_name() -> (s: &'static str)
    ensures
        valid_header_name(s@),
        header_key(s@) == name_keep_alive(),
{
    proof {
        reveal_strlit("Keep-Alive");
        assert(header_key("Keep-Alive"@) =~= name_keep_alive());
    }
    "Keep-Alive"
}

fn keep_alive_text() -> (s: &'static str)
    ensures
        valid_header_value(s@),
        s@ == connection_value(true),
{
    proof {
        reveal_strlit("keep-alive");
        assert("keep-alive"@ =~= connection_value(true));
    }
    "keep-alive"
}

fn close_text() -> (s: &'static str)
    ensures
        valid_header_value(s@),
        s@ == connection_value(false),
{
    proof {
        reveal_strlit("close");
        assert("close"@ =~= connection_value(false));
    }
    "close"
}

fn keep_alive_value_text() -> (s: &'static str)
    ensures
        valid_header_value(s@),
        s@ == keep_alive_value(),
{
    proof {
        reveal_strlit("timeout=30, max=1000");
    }
    "timeout=30, max=1000"
}

} // verus!
