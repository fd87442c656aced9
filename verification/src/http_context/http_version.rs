use vstd::prelude::*;

use crate::extensions::str::{str_equals, Str};

verus! {

/// The HTTP protocol versions the framework speaks.
#[derive(Clone, Copy, Debug, PartialEq, Eq, Structural)]
pub enum HttpVersion {
    Http09,
    Http10,
    Http11,
    Http2,
    Http3,
}

/// The request-line text of a version.
pub open spec fn version_text(v: HttpVersion) -> Seq<char> {
    match v {
        HttpVersion::Http09 => "HTTP/0.9"@,
        HttpVersion::Http10 => "HTTP/1.0"@,
        HttpVersion::Http11 => "HTTP/1.1"@,
        HttpVersion::Http2 => "HTTP/2.0"@,
        HttpVersion::Http3 => "HTTP/3.0"@,
    }
}

proof fn lemma_version_texts_distinct()
    ensures
        forall|a: HttpVersion, b: HttpVersion| version_text(a) == version_text(b) ==> a == b,
{
    reveal_strlit("HTTP/0.9");
    reveal_strlit("HTTP/1.0");
    reveal_strlit("HTTP/1.1");
    reveal_strlit("HTTP/2.0");
    reveal_strlit("HTTP/3.0");
    assert forall|a: HttpVersion, b: HttpVersion| version_text(a) == version_text(b) implies a == b by {
        if a != b {
            assert(version_text(a)[5] != version_text(b)[5] || version_text(a)[7] != version_text(b)[7]);
        }
    }
}

impl Str for HttpVersion {
    fn from_str(s: &str) -> (r: Option<HttpVersion>)
        ensures
            match r {
                Some(v) => version_text(v) == s@,
                None => forall|v: HttpVersion| version_text(v) != s@,
            },
    {
        proof {
            lemma_version_texts_distinct();
        }
        if str_equals(s, "HTTP/0.9") {
            Some(HttpVersion::Http09)
        } else if str_equals(s, "HTTP/1.0") {
            Some(HttpVersion::Http10)
        } else if str_equals(s, "HTTP/1.1") {
            Some(HttpVersion::Http11)
        } else if str_equals(s, "HTTP/2.0") {
            Some(HttpVersion::Http2)
        } else if str_equals(s, "HTTP/3.0") {
            Some(HttpVersion::Http3)
        } else {
            proof {
                assert forall|v: HttpVersion| version_text(v) != s@ by {
                    match v {
                        HttpVersion::Http09 => {},
                        HttpVersion::Http10 => {},
                        HttpVersion::Http11 => {},
                        HttpVersion::Http2 => {},
                        HttpVersion::Http3 => {},
                    }
                }
            }
            None
        }
    }

    fn as_str(&self) -> (r: &str)
        ensures
            r@ == version_text(*self),
    {
        match self {
            HttpVersion::Http09 => "HTTP/0.9",
            HttpVersion::Http10 => "HTTP/1.0",
            HttpVersion::Http11 => "HTTP/1.1",
            HttpVersion::Http2 => "HTTP/2.0",
            HttpVersion::Http3 => "HTTP/3.0",
        }
    }
}

} // verus!
