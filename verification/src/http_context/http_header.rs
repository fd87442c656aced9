use http::{HeaderMap, HeaderValue};
use vstd::prelude::*;
use vstd::string::StringSliceAdditionalSpecFns;
use vstd::utf8::encode_utf8;

use crate::extensions::number::{
    decimal_text, lemma_decimal_text_roundtrip, parse_u64, parse_unsigned, u64_to_decimal,
};

verus! {

/// `http::HeaderMap`, held opaque; what it holds is `header_entries`.
#[verifier::external_type_specification]
#[verifier::external_body]
#[verifier::reject_recursive_types(T)]
pub struct ExHeaderMap<T>(HeaderMap<T>);

/// `http::HeaderValue`, held opaque.
#[verifier::external_type_specification]
#[verifier::external_body]
pub struct ExHeaderValue(HeaderValue);

/// What a header map holds: for each (lower-case) header name, the bytes of its first value.
pub uninterp spec fn header_entries(m: HeaderMap<HeaderValue>) -> Map<Seq<char>, Seq<u8>>;

/// A character that may stand in a header name (the `tchar` set).
pub open spec fn is_header_name_char(c: char) -> bool {
    ||| ('a' <= c && c <= 'z')
    ||| ('A' <= c && c <= 'Z')
    ||| ('0' <= c && c <= '9')
    ||| c == '!' || c == '#' || c == '$' || c == '%' || c == '&' || c == '\'' || c == '*'
    ||| c == '+' || c == '-' || c == '.' || c == '^' || c == '_' || c == '`' || c == '|' || c == '~'
}

/// A header name of at most 64 characters, all from the `tchar` set.
pub open spec fn valid_header_name(s: Seq<char>) -> bool {
    &&& 0 < s.len() <= 64
    &&& forall|i: int| 0 <= i < s.len() ==> is_header_name_char(#[trigger] s[i])
}

pub open spec fn lower_char(c: char) -> char {
    if 'A' <= c && c <= 'Z' {
        ((c as u32) + 32) as char
    } else {
        c
    }
}

/// The key under which a header map files the name `s`: its ASCII lower-case form.
pub open spec fn header_key(s: Seq<char>) -> Seq<char> {
    s.map_values(|c: char| lower_char(c))
}

/// A header value: no control character but the tab.
pub open spec fn valid_header_value(s: Seq<char>) -> bool {
    forall|i: int| 0 <= i < s.len() ==> ((#[trigger] s[i] >= ' ' && s[i] != '\x7f') || s[i] == '\t')
}

/// Bytes that a header value can be read back as text from: visible ASCII or tab.
pub open spec fn visible_ascii(b: Seq<u8>) -> bool {
    forall|i: int| 0 <= i < b.len() ==> ((32 <= #[trigger] b[i] && b[i] < 127) || b[i] == 9)
}

pub open spec fn ascii_text(b: Seq<u8>) -> Seq<char> {
    b.map_values(|x: u8| x as char)
}

/// The text of the header filed under `key`, when it is present and readable.
pub open spec fn header_text(entries: Map<Seq<char>, Seq<u8>>, key: Seq<char>) -> Option<Seq<char>> {
    if entries.contains_key(key) && visible_ascii(entries[key]) {
        Some(ascii_text(entries[key]))
    } else {
        None
    }
}

/// A header map without entries.
pub open spec fn no_headers() -> Map<Seq<char>, Seq<u8>> {
    Map::empty()
}

/// `HeaderMap::new`: the map starts empty.
#[verifier::external_body]
pub(crate) fn new_header_map() -> (map: HeaderMap<HeaderValue>)
    ensures
        header_entries(map) == no_headers(),
{
    HeaderMap::new()
}

/// `HeaderMap::insert` with a static name and `HeaderValue::from_str(value)`: files the
/// bytes of `value` under the lower-case name, replacing every earlier value of that name.
/// `from_str` refuses control characters other than tab, and the static name must be a
/// valid name of at most 64 characters: both would panic. The map refuses to grow past its
/// maximum size: a map whose table hashes badly grows its table once the names reach a
/// fifth of its 32768 slots, which fails at the largest table, so fewer than 6553
/// names always leave room for one more.
#[verifier::external_body]
fn header_map_insert(m: &mut HeaderMap<HeaderValue>, key: &'static str, value: &str)
    requires
        valid_header_name(key@),
        valid_header_value(value@),
        header_entries(*old(m)).dom().finite(),
        header_entries(*old(m)).dom().len() < 6553,
    ensures
        header_entries(*final(m)) == header_entries(*old(m)).insert(header_key(key@), value.spec_bytes()),
{
    m.insert(key, HeaderValue::from_str(value).unwrap());
}

/// `HeaderMap::get` followed by `HeaderValue::to_str`: the text of the first value of the
/// name, if there is one and all its bytes are visible ASCII or tab.
#[verifier::external_body]
fn header_map_get_text(m: &HeaderMap<HeaderValue>, key: &'static str) -> (r: Option<String>)
    requires
        valid_header_name(key@),
    ensures
        r matches Some(t) ==> header_text(header_entries(*m), header_key(key@)) == Some(t@),
        r is None ==> header_text(header_entries(*m), header_key(key@)) is None,
{
    match m.get(key) {
        Some(v) => match v.to_str() {
            Ok(s) => Some(s.to_string()),
            Err(_) => None,
        },
        None => None,
    }
}

/// `HeaderMap::contains_key`: whether a value is filed under the lower-case name.
#[verifier::external_body]
pub(crate) fn header_map_contains(m: &HeaderMap<HeaderValue>, key: &'static str) -> (r: bool)
    requires
        valid_header_name(key@),
    ensures
        r == header_entries(*m).contains_key(header_key(key@)),
{
    m.contains_key(key)
}

/// Accessors for the headers the framework reads and writes.
pub trait AspDotRustHttpHeader {
    /// Room for one more header.
    spec fn can_insert(&self) -> bool;

    /// get the Authorization header value, if present
    fn authorization(&self) -> Option<String>;

    /// get the Content-Type header value, if present
    fn content_type(&self) -> Option<String>;

    /// get the Content-Length header value as a u64, if present and valid
    fn content_length(&self) -> Option<u64>;

    /// get the Origin header value, if present
    fn origin(&self) -> Option<String>;

    /// set the Content-Length header, replacing any existing value
    fn set_content_length(&mut self, length: usize)
        requires
            old(self).can_insert(),
    ;

    /// set the Content-Type header, replacing any existing value
    fn set_content_type(&mut self, content_type: &str)
        requires
            old(self).can_insert(),
            valid_header_value(content_type@),
    ;

    /// insert a header with a static key and a string value
    fn insert_str(&mut self, key: &'static str, value: &str)
        requires
            old(self).can_insert(),
            valid_header_name(key@),
            valid_header_value(value@),
    ;

    /// insert a header with a static key and a string value
    fn insert_string(&mut self, key: &'static str, value: String)
        requires
            old(self).can_insert(),
            valid_header_name(key@),
            valid_header_value(value@),
    ;
}

pub open spec fn name_authorization() -> Seq<char> {
    seq!['a', 'u', 't', 'h', 'o', 'r', 'i', 'z', 'a', 't', 'i', 'o', 'n']
}

pub open spec fn name_content_type() -> Seq<char> {
    seq!['c', 'o', 'n', 't', 'e', 'n', 't', '-', 't', 'y', 'p', 'e']
}

pub open spec fn name_content_length() -> Seq<char> {
    seq!['c', 'o', 'n', 't', 'e', 'n', 't', '-', 'l', 'e', 'n', 'g', 't', 'h']
}

pub open spec fn name_origin() -> Seq<char> {
    seq!['o', 'r', 'i', 'g', 'i', 'n']
}

/// The `Content-Length` of `entries`, read as `u64::from_str` reads it.
pub open spec fn content_length_of(entries: Map<Seq<char>, Seq<u8>>) -> Option<u64> {
    match header_text(entries, name_content_length()) {
        Some(t) => match parse_unsigned(t) {
            Some(n) => if n <= u64::MAX {
                Some(n as u64)
            } else {
                None
            },
            None => None,
        },
        None => None,
    }
}

proof fn lemma_header_key(s: Seq<char>, k: Seq<char>)
    requires
        s.len() == k.len(),
        forall|i: int| 0 <= i < s.len() ==> lower_char(#[trigger] s[i]) == k[i],
    ensures
        header_key(s) == k,
        valid_header_name(s) <== (0 < s.len() <= 64 && forall|i: int| 0 <= i < s.len() ==> is_header_name_char(#[trigger] s[i])),
{
    assert(header_key(s) =~= k);
}

/// `"Content-Length"`, and what it is filed under.
fn content_length_name() -> (s: &'static str)
    ensures
        valid_header_name(s@),
        header_key(s@) == name_content_length(),
{
    proof {
        reveal_strlit("Content-Length");
        lemma_header_key("Content-Length"@, name_content_length());
    }
    "Content-Length"
}

fn content_type_name() -> (s: &'static str)
    ensures
        valid_header_name(s@),
        header_key(s@) == name_content_type(),
{
    proof {
        reveal_strlit("Content-Type");
        lemma_header_key("Content-Type"@, name_content_type());
    }
    "Content-Type"
}

fn authorization_name() -> (s: &'static str)
    ensures
        valid_header_name(s@),
        header_key(s@) == name_authorization(),
{
    proof {
        reveal_strlit("Authorization");
        lemma_header_key("Authorization"@, name_authorization());
    }
    "Authorization"
}

fn origin_name() -> (s: &'static str)
    ensures
        valid_header_name(s@),
        header_key(s@) == name_origin(),
{
    proof {
        reveal_strlit("Origin");
        lemma_header_key("Origin"@, name_origin());
    }
    "Origin"
}

/// Digits are valid header text, encode to one byte each and read back unchanged.
proof fn lemma_decimal_header_roundtrip(s: &str, n: nat)
    requires
        s@ == decimal_text(n),
    ensures
        valid_header_value(s@),
        visible_ascii(s.spec_bytes()),
        ascii_text(s.spec_bytes()) == s@,
{
    lemma_decimal_text_roundtrip(n);
    assert(vstd::string::is_ascii(s)) by {
        assert forall|i: int| 0 <= i < s@.len() implies (#[trigger] s@[i] <= '\u{7f}') by {
            assert(crate::extensions::number::is_digit(s@[i]));
        }
    }
    vstd::string::is_ascii_spec_bytes(s);
    assert forall|i: int| 0 <= i < s@.len() implies ((#[trigger] s@[i] >= ' ' && s@[i] != '\x7f') || s@[i] == '\t') by {
        assert(crate::extensions::number::is_digit(s@[i]));
    }
    assert forall|i: int| 0 <= i < s.spec_bytes().len() implies ((32 <= #[trigger] s.spec_bytes()[i] && s.spec_bytes()[i] < 127) || s.spec_bytes()[i] == 9) by {
        assert(crate::extensions::number::is_digit(s@[i]));
    }
    assert(ascii_text(s.spec_bytes()) =~= s@) by {
        assert forall|i: int| 0 <= i < s@.len() implies ascii_text(s.spec_bytes())[i] == s@[i] by {
            assert(crate::extensions::number::is_digit(s@[i]));
        }
    }
}

/// The bytes of a number's decimal text read back, as a `Content-Length`, as that number.
pub proof fn lemma_length_text_read_back(e: Map<Seq<char>, Seq<u8>>, n: nat)
    requires
        n <= u64::MAX,
    ensures
        content_length_of(e.insert(name_content_length(), encode_utf8(decimal_text(n)))) == Some(n as u64),
{
    let t = decimal_text(n);
    lemma_decimal_text_roundtrip(n);
    assert(vstd::utf8::is_ascii_chars(t)) by {
        assert forall|i: int| 0 <= i < t.len() implies (#[trigger] t[i]) <= '\u{7f}' by {
            assert(crate::extensions::number::is_digit(t[i]));
        }
    }
    vstd::utf8::is_ascii_chars_encode_utf8(t);
    let b = encode_utf8(t);
    assert forall|i: int| 0 <= i < b.len() implies ((32 <= #[trigger] b[i] && b[i] < 127) || b[i] == 9) by {
        assert(crate::extensions::number::is_digit(t[i]));
        assert(t[i] as u8 == b[i]);
    }
    assert(ascii_text(b) =~= t) by {
        assert forall|i: int| 0 <= i < t.len() implies ascii_text(b)[i] == t[i] by {
            assert(crate::extensions::number::is_digit(t[i]));
            assert(t[i] as u8 == b[i]);
        }
    }
    let e2 = e.insert(name_content_length(), b);
    assert(header_text(e2, name_content_length()) == Some(t));
}

impl AspDotRustHttpHeader for HeaderMap<HeaderValue> {
    open spec fn can_insert(&self) -> bool {
        header_entries(*self).dom().finite() && header_entries(*self).dom().len() < 6553
    }

    fn authorization(&self) -> (r: Option<String>)
        ensures
            match r {
                Some(t) => header_text(header_entries(*self), name_authorization()) == Some(t@),
                None => header_text(header_entries(*self), name_authorization()) is None,
            },
    {
        let name = authorization_name();
        header_map_get_text(self, name)
    }

    fn content_type(&self) -> (r: Option<String>)
        ensures
            match r {
                Some(t) => header_text(header_entries(*self), name_content_type()) == Some(t@),
                None => header_text(header_entries(*self), name_content_type()) is None,
            },
    {
        let name = content_type_name();
        header_map_get_text(self, name)
    }

    fn content_length(&self) -> (r: Option<u64>)
        ensures
            r == content_length_of(header_entries(*self)),
    {
        let name = content_length_name();
        match header_map_get_text(self, name) {
            Some(t) => parse_u64(t.as_str()),
            None => None,
        }
    }

    fn origin(&self) -> (r: Option<String>)
        ensures
            match r {
                Some(t) => header_text(header_entries(*self), name_origin()) == Some(t@),
                None => header_text(header_entries(*self), name_origin()) is None,
            },
    {
        let name = origin_name();
        header_map_get_text(self, name)
    }

    fn set_content_length(&mut self, length: usize)
        ensures
            header_entries(*final(self)) == header_entries(*old(self)).insert(
                name_content_length(),
                encode_utf8(decimal_text(length as nat)),
            ),
            content_length_of(header_entries(*final(self))) == Some(length as u64),
            header_text(header_entries(*final(self)), name_content_length()) == Some(decimal_text(length as nat)),
    {
        proof {
            assert(old(self).can_insert());
        }
        let text = u64_to_decimal(length as u64);
        let name = content_length_name();
        let text_str = text.as_str();
        proof {
            lemma_decimal_header_roundtrip(text_str, length as nat);
            lemma_decimal_text_roundtrip(length as nat);
        }
        header_map_insert(self, name, text_str);
    }

    fn set_content_type(&mut self, content_type: &str)
        ensures
            header_entries(*final(self)) == header_entries(*old(self)).insert(name_content_type(), content_type.spec_bytes()),
    {
        proof {
            assert(old(self).can_insert());
        }
        let name = content_type_name();
        header_map_insert(self, name, content_type);
    }

    fn insert_str(&mut self, key: &'static str, value: &str)
        ensures
            header_entries(*final(self)) == header_entries(*old(self)).insert(header_key(key@), value.spec_bytes()),
    {
        header_map_insert(self, key, value);
    }

    fn insert_string(&mut self, key: &'static str, value: String)
        ensures
            header_entries(*final(self)) == header_entries(*old(self)).insert(header_key(key@), encode_utf8(value@)),
    {
        header_map_insert(self, key, value.as_str());
    }
}

} // verus!
