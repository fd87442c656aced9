use vstd::prelude::*;

use crate::extensions::str::str_equals;

verus! {

/// The texts held in `v`, as a set.
pub open spec fn text_set(v: Seq<String>) -> Set<Seq<char>> {
    Set::new(|t: Seq<char>| exists|i: int| 0 <= i < v.len() && (#[trigger] v[i])@ == t)
}

/// The origin, header or method that stands for "any".
pub open spec fn wildcard() -> Seq<char> {
    seq!['*']
}

/// Whether `v` holds the text `t`.
pub fn contains_text(v: &Vec<String>, t: &str) -> (r: bool)
    ensures
        r == text_set(v@).contains(t@),
{
    let mut i: usize = 0;
    while i < v.len()
        invariant
            i <= v@.len(),
            forall|j: int| 0 <= j < i ==> (#[trigger] v@[j])@ != t@,
        decreases v@.len() - i,
    {
        if str_equals(v[i].as_str(), t) {
            assert(text_set(v@).contains(t@)) by {
                assert(v@[i as int]@ == t@);
            }
            return true;
        }
        i = i + 1;
    }
    false
}

/// Adds `t` to the texts of `v`, unless it is there already.
pub fn insert_text(v: &mut Vec<String>, t: String)
    ensures
        text_set(final(v)@) == text_set(old(v)@).insert(t@),
{
    if !contains_text(v, t.as_str()) {
        let ghost before = v@;
        let ghost tv = t@;
        v.push(t);
        assert(text_set(v@) =~= text_set(before).insert(tv)) by {
            assert forall|x: Seq<char>| #[trigger] text_set(v@).contains(x) implies text_set(before).insert(tv).contains(x) by {
                let i = choose|i: int| 0 <= i < v@.len() && (#[trigger] v@[i])@ == x;
                if i < before.len() {
                    assert(before[i] == v@[i]);
                }
            }
            assert forall|x: Seq<char>| #[trigger] text_set(before).insert(tv).contains(x) implies text_set(v@).contains(x) by {
                if x == tv {
                    assert(v@[before.len() as int]@ == x);
                } else {
                    let i = choose|i: int| 0 <= i < before.len() && (#[trigger] before[i])@ == x;
                    assert(v@[i] == before[i]);
                }
            }
        }
    } else {
        assert(text_set(v@) =~= text_set(v@).insert(t@));
    }
}

/// A vector holding exactly the text `t`.
fn single_text(t: &str) -> (r: Vec<String>)
    ensures
        text_set(r@) == set![t@],
{
    let mut v: Vec<String> = Vec::new();
    v.push(String::from_str(t));
    assert(text_set(v@) =~= set![t@]) by {
        assert(v@[0]@ == t@);
    }
    v
}

fn empty_texts() -> (r: Vec<String>)
    ensures
        text_set(r@) == Set::<Seq<char>>::empty(),
{
    let v: Vec<String> = Vec::new();
    assert(text_set(v@) =~= Set::<Seq<char>>::empty());
    v
}

/// What a CORS configuration allows, as sets of texts.
pub struct CorsView {
    pub allowed_origins: Set<Seq<char>>,
    pub allowed_methods: Set<Seq<char>>,
    pub allowed_headers: Set<Seq<char>>,
    pub exposed_headers: Set<Seq<char>>,
    pub allow_credentials: bool,
    pub max_age: u32,
}

/// Cross-origin resource sharing settings. Each list is read as a set: its order and
/// repetitions carry no meaning. Methods are held by their names.
#[derive(Clone, Debug)]
pub struct CorsConfiguration {
    pub allowed_origins: Vec<String>,
    pub allowed_methods: Vec<String>,
    pub allowed_headers: Vec<String>,
    pub exposed_headers: Vec<String>,
    pub allow_credentials: bool,
    pub max_age: u32,
}

impl View for CorsConfiguration {
    type V = CorsView;

    open spec fn view(&self) -> CorsView {
        CorsView {
            allowed_origins: text_set(self.allowed_origins@),
            allowed_methods: text_set(self.allowed_methods@),
            allowed_headers: text_set(self.allowed_headers@),
            exposed_headers: text_set(self.exposed_headers@),
            allow_credentials: self.allow_credentials,
            max_age: self.max_age,
        }
    }
}

/// Whether a request from `origin` is allowed: it is listed, or any origin is.
pub open spec fn origin_allowed(origins: Set<Seq<char>>, origin: Seq<char>) -> bool {
    origins.contains(origin) || origins.contains(wildcard())
}

/// The origins once `origin` is allowed: it replaces the wildcard, or joins the others.
pub open spec fn origins_with(origins: Set<Seq<char>>, origin: Seq<char>) -> Set<Seq<char>> {
    if origins.contains(wildcard()) {
        set![origin]
    } else {
        origins.insert(origin)
    }
}

/// Credentials are never allowed together with the wildcard origin.
pub open spec fn credentials_exclusive(c: CorsView) -> bool {
    !(c.allow_credentials && c.allowed_origins.contains(wildcard()))
}

/// The origins once credentials are allowed: the wildcard cannot stay, and with it go
/// all the others.
pub open spec fn origins_with_credentials(origins: Set<Seq<char>>) -> Set<Seq<char>> {
    if origins.contains(wildcard()) {
        Set::empty()
    } else {
        origins
    }
}

pub open spec fn method_names() -> Set<Seq<char>> {
    set![
        seq!['G', 'E', 'T'],
        seq!['P', 'O', 'S', 'T'],
        seq!['P', 'U', 'T'],
        seq!['D', 'E', 'L', 'E', 'T', 'E'],
        seq!['O', 'P', 'T', 'I', 'O', 'N', 'S'],
    ]
}

fn wildcard_text() -> (r: &'static str)
    ensures
        r@ == wildcard(),
{
    proof {
        reveal_strlit("*");
    }
    "*"
}

impl Default for CorsConfiguration {
    /// Any origin and header, the methods GET, POST, PUT, DELETE and OPTIONS, all headers
    /// exposed, no credentials, and a preflight cache of one day.
    fn default() -> (r: Self)
        ensures
            r@ == (CorsView {
                allowed_origins: set![wildcard()],
                allowed_methods: method_names(),
                allowed_headers: set![wildcard()],
                exposed_headers: set![wildcard()],
                allow_credentials: false,
                max_age: 86400,
            }),
    {
        let mut methods: Vec<String> = Vec::new();
        let get = "GET";
        let post = "POST";
        let put = "PUT";
        let delete = "DELETE";
        let options = "OPTIONS";
        proof {
            reveal_strlit("GET");
            reveal_strlit("POST");
            reveal_strlit("PUT");
            reveal_strlit("DELETE");
            reveal_strlit("OPTIONS");
        }
        methods.push(String::from_str(get));
        methods.push(String::from_str(post));
        methods.push(String::from_str(put));
        methods.push(String::from_str(delete));
        methods.push(String::from_str(options));
        assert(text_set(methods@) =~= method_names()) by {
            assert(methods@[0]@ == seq!['G', 'E', 'T']);
            assert(methods@[1]@ == seq!['P', 'O', 'S', 'T']);
            assert(methods@[2]@ == seq!['P', 'U', 'T']);
            assert(methods@[3]@ == seq!['D', 'E', 'L', 'E', 'T', 'E']);
            assert(methods@[4]@ == seq!['O', 'P', 'T', 'I', 'O', 'N', 'S']);
        }
        CorsConfiguration {
            allowed_origins: single_text(wildcard_text()),
            allowed_methods: methods,
            allowed_headers: single_text(wildcard_text()),
            exposed_headers: single_text(wildcard_text()),
            allow_credentials: false,
            max_age: 86400,
        }
    }
}

impl CorsConfiguration {
    /// Whether requests from `origin` are allowed.
    pub fn is_origin_allowed(&self, origin: &str) -> (r: bool)
        ensures
            r == origin_allowed(self@.allowed_origins, origin@),
    {
        contains_text(&self.allowed_origins, origin) || contains_text(&self.allowed_origins, wildcard_text())
    }

    /// Allows requests from `origin`; a wildcard in place is dropped first. Allowing the
    /// wildcard itself turns credentials off, as the two exclude each other.
    pub fn allow_origin(&mut self, origin: &str) -> (r: &Self)
        ensures
            final(self)@ == (CorsView {
                allowed_origins: origins_with(old(self)@.allowed_origins, origin@),
                allow_credentials: old(self)@.allow_credentials && origin@ != wildcard(),
                ..old(self)@
            }),
            r@ == final(self)@,
            credentials_exclusive(old(self)@) ==> credentials_exclusive(final(self)@),
    {
        if contains_text(&self.allowed_origins, wildcard_text()) {
            self.allowed_origins = empty_texts();
        }
        if crate::extensions::str::str_equals(origin, wildcard_text()) {
            self.allow_credentials = false;
        }
        insert_text(&mut self.allowed_origins, String::from_str(origin));
        proof {
            if old(self)@.allowed_origins.contains(wildcard()) {
                assert(Set::<Seq<char>>::empty().insert(origin@) =~= set![origin@]);
            }
        }
        self
    }

    /// Allows requests from any origin; credentials are then no longer allowed.
    pub fn allow_any_origin(&mut self) -> (r: &Self)
        ensures
            final(self)@ == (CorsView {
                allowed_origins: set![wildcard()],
                allow_credentials: false,
                ..old(self)@
            }),
            r@ == final(self)@,
            credentials_exclusive(final(self)@),
    {
        self.allowed_origins = single_text(wildcard_text());
        self.allow_credentials = false;
        self
    }

    /// Allows credentials; credentials and the wildcard origin exclude each other, so a
    /// wildcard in place is dropped, together with every other origin.
    pub fn allow_credentials(&mut self) -> (r: &Self)
        ensures
            final(self)@ == (CorsView {
                allowed_origins: origins_with_credentials(old(self)@.allowed_origins),
                allow_credentials: true,
                ..old(self)@
            }),
            r@ == final(self)@,
            credentials_exclusive(final(self)@),
    {
        if contains_text(&self.allowed_origins, wildcard_text()) {
            self.allowed_origins = empty_texts();
        }
        self.allow_credentials = true;
        self
    }

    /// Sets how long, in seconds, a preflight answer may be cached.
    pub fn max_age(&mut self, secs: u32) -> (r: &Self)
        ensures
            final(self)@ == (CorsView { max_age: secs, ..old(self)@ }),
            r@ == final(self)@,
    {
        self.max_age = secs;
        self
    }

    /// Exposes `header` to the requesting script.
    pub fn expose_header(&mut self, header: &str) -> (r: &Self)
        ensures
            final(self)@ == (CorsView {
                exposed_headers: old(self)@.exposed_headers.insert(header@),
                ..old(self)@
            }),
            r@ == final(self)@,
    {
        insert_text(&mut self.exposed_headers, String::from_str(header));
        self
    }
}

/// An origin that was just allowed is allowed.
pub proof fn lemma_allowed_after_allow_origin(origins: Set<Seq<char>>, origin: Seq<char>)
    ensures
        origin_allowed(origins_with(origins, origin), origin),
{
}

/// Every change of the CORS settings keeps credentials and the wildcard origin apart,
/// and the defaults start them apart.
pub proof fn lemma_credentials_stay_exclusive(c: CorsView, origin: Seq<char>, header: Seq<char>, secs: u32)
    requires
        credentials_exclusive(c),
    ensures
        credentials_exclusive(CorsView {
            allowed_origins: origins_with(c.allowed_origins, origin),
            allow_credentials: c.allow_credentials && origin != wildcard(),
            ..c
        }),
        credentials_exclusive(CorsView { allowed_origins: set![wildcard()], allow_credentials: false, ..c }),
        credentials_exclusive(
            CorsView {
                allowed_origins: origins_with_credentials(c.allowed_origins),
                allow_credentials: true,
                ..c
            },
        ),
        credentials_exclusive(CorsView { max_age: secs, ..c }),
        credentials_exclusive(CorsView { exposed_headers: c.exposed_headers.insert(header), ..c }),
{
}

/// Allowing any origin allows every origin.
pub proof fn lemma_any_origin_allows_all(origin: Seq<char>)
    ensures
        origin_allowed(set![wildcard()], origin),
{
}

/// Once credentials are allowed, the wildcard origin is gone, and an origin is allowed
/// only if it was listed by name and no wildcard stood beside it.
pub proof fn lemma_credentials_exclude_wildcard(origins: Set<Seq<char>>, origin: Seq<char>)
    ensures
        !origins_with_credentials(origins).contains(wildcard()),
        origin_allowed(origins_with_credentials(origins), origin) <==> (!origins.contains(wildcard())
            && origins.contains(origin)),
{
}

} // verus!
