use vstd::prelude::*;

use crate::http_context::http_context::HttpContext;
use crate::http_context::http_header::lower_char;

verus! {

/// An action of a controller, the HTTP methods it answers and the path it is bound to.
#[derive(Debug, Clone, PartialEq, Eq)]
pub struct ActionRoute {
    pub action_name: &'static str,
    pub method: Vec<&'static str>,
    pub route: &'static str,
}

impl ActionRoute {
    pub fn new(action_name: &'static str, method: Vec<&'static str>, route: &'static str) -> (r: Self)
        ensures
            r.action_name == action_name,
            r.method@ == method@,
            r.route == route,
    {
        ActionRoute { action_name, method, route }
    }
}

/// A controller that runs one of its actions by name.
pub trait Routing: Sized {
    /// Whether the controller's response has room for the headers routing sets.
    spec fn can_route(&self) -> bool;

    fn routing(&mut self, method_name: &str)
        requires
            old(self).can_route(),
    ;
}

/// A controller built around the context of one request.
pub trait WithHttpContext: Sized {
    /// The controller's name without its `Controller` suffix.
    fn str_name() -> &'static str;

    fn new(http_context: HttpContext) -> Self;
}

/// The HTTP methods an action can be bound to, in lower case.
pub open spec fn http_methods() -> Seq<Seq<char>> {
    seq![
        seq!['g', 'e', 't'],
        seq!['p', 'o', 's', 't'],
        seq!['p', 'u', 't'],
        seq!['d', 'e', 'l', 'e', 't', 'e'],
        seq!['p', 'a', 't', 'c', 'h'],
        seq!['o', 'p', 't', 'i', 'o', 'n', 's'],
        seq!['h', 'e', 'a', 'd'],
    ]
}

/// `a` and `b` are equal once ASCII letters are taken in lower case.
pub open spec fn eq_ignore_ascii_case(a: Seq<char>, b: Seq<char>) -> bool {
    a.len() == b.len() && forall|i: int| 0 <= i < a.len() ==> lower_char(#[trigger] a[i]) == lower_char(b[i])
}

/// `c` with an ASCII capital letter taken in lower case.
pub fn to_ascii_lower(c: char) -> (r: char)
    ensures
        r == lower_char(c),
{
    if 'A' <= c && c <= 'Z' {
        ((c as u8) + 32) as char
    } else {
        c
    }
}

/// Whether `a` and `b` are equal but for the case of ASCII letters.
pub fn str_eq_ignore_ascii_case(a: &str, b: &str) -> (r: bool)
    ensures
        r == eq_ignore_ascii_case(a@, b@),
{
    let n = a.unicode_len();
    if n != b.unicode_len() {
        return false;
    }
    let mut i: usize = 0;
    while i < n
        invariant
            n == a@.len(),
            n == b@.len(),
            i <= n,
            forall|j: int| 0 <= j < i ==> lower_char(#[trigger] a@[j]) == lower_char(b@[j]),
        decreases n - i,
    {
        if to_ascii_lower(a.get_char(i)) != to_ascii_lower(b.get_char(i)) {
            return false;
        }
        i = i + 1;
    }
    true
}

/// The HTTP methods an action can be bound to, as texts.
fn http_method_names() -> (r: Vec<&'static str>)
    ensures
        r@.len() == http_methods().len(),
        forall|i: int| 0 <= i < r@.len() ==> (#[trigger] r@[i])@ == http_methods()[i],
{
    proof {
        reveal_strlit("get");
        reveal_strlit("post");
        reveal_strlit("put");
        reveal_strlit("delete");
        reveal_strlit("patch");
        reveal_strlit("options");
        reveal_strlit("head");
    }
    let v = vec!["get", "post", "put", "delete", "patch", "options", "head"];
    v
}

/// Whether `method` names an HTTP method an action can be bound to, in any case.
pub fn is_http_method(method: &str) -> (r: bool)
    ensures
        r == exists|i: int| 0 <= i < http_methods().len() && eq_ignore_ascii_case(method@, #[trigger] http_methods()[i]),
{
    let names = http_method_names();
    let mut i: usize = 0;
    while i < names.len()
        invariant
            i <= names@.len(),
            names@.len() == http_methods().len(),
            forall|k: int| 0 <= k < names@.len() ==> (#[trigger] names@[k])@ == http_methods()[k],
            forall|k: int| 0 <= k < i ==> !eq_ignore_ascii_case(method@, #[trigger] http_methods()[k]),
        decreases names@.len() - i,
    {
        if str_eq_ignore_ascii_case(method, names[i]) {
            return true;
        }
        i = i + 1;
    }
    false
}

/// An argument of a `#[route(...)]` attribute, as far as routing reads it.
pub enum RouteArg {
    /// A string literal.
    Str(String),
    /// An array of string literals.
    StrList(Vec<String>),
    /// Anything else.
    Other,
}

/// A routing attribute on an action.
pub enum RouteAttribute {
    /// `#[get("/path")]` and the like: the attribute's name, and its argument when that is
    /// one string literal.
    Method { name: String, path: Option<String> },
    /// `#[route(["GET", ...], "/path")]`: its arguments.
    Route { args: Vec<RouteArg> },
}

/// The spec form of a `RouteArg`.
pub enum RouteArgView {
    Str(Seq<char>),
    StrList(Seq<Seq<char>>),
    Other,
}

pub open spec fn route_arg_view(a: RouteArg) -> RouteArgView {
    match a {
        RouteArg::Str(s) => RouteArgView::Str(s@),
        RouteArg::StrList(v) => RouteArgView::StrList(v@.map_values(|t: String| t@)),
        RouteArg::Other => RouteArgView::Other,
    }
}

/// An action bound to its HTTP methods and path.
pub struct RouteDeclaration {
    pub action_name: String,
    pub methods: Vec<String>,
    pub path: String,
}

/// `s` with ASCII letters in upper case.
pub open spec fn ascii_upper(s: Seq<char>) -> Seq<char> {
    s.map_values(|c: char| if 'a' <= c && c <= 'z' { ((c as u32) - 32) as char } else { c })
}

/// Whether `name` is one of the attributes that bind an action to one HTTP method.
pub open spec fn is_method_attribute(name: Seq<char>) -> bool {
    http_methods().contains(name)
}

pub open spec fn is_http_method_spec(m: Seq<char>) -> bool {
    exists|i: int| 0 <= i < http_methods().len() && eq_ignore_ascii_case(m, #[trigger] http_methods()[i])
}

/// The index of the first listed method that is not an HTTP method.
pub open spec fn first_invalid_method(methods: Seq<Seq<char>>) -> Option<int>
    decreases methods.len(),
{
    if methods.len() == 0 {
        None
    } else if !is_http_method_spec(methods[0]) {
        Some(0)
    } else {
        match first_invalid_method(methods.drop_first()) {
            Some(i) => Some(i + 1),
            None => None,
        }
    }
}

/// The quoted form of a string literal, as its token reads.
pub open spec fn quoted(s: Seq<char>) -> Seq<char> {
    seq!['"'] + s + seq!['"']
}

/// The name of an action in backquotes.
pub open spec fn ticked(s: Seq<char>) -> Seq<char> {
    seq!['`'] + s + seq!['`']
}

/// What binding `action` by the attribute `attr` gives: its methods and path, or the
/// message the route macro reports.
pub open spec fn route_declaration(action: Seq<char>, attr: RouteAttributeView) -> Result<(Seq<Seq<char>>, Seq<char>), Seq<char>> {
    match attr {
        RouteAttributeView::Method { name, path } => match path {
            Some(p) => Ok((seq![ascii_upper(name)], p)),
            None => Err("Invalid #["@ + name + "(...)] on "@ + ticked(action)),
        },
        RouteAttributeView::Route { args } => if args.len() == 0 {
            Err("Missing HTTP method or path in #[route]"@)
        } else if args.len() == 1 {
            Err("Missing route method or path in #[route]"@)
        } else {
            match args[0] {
                RouteArgView::StrList(methods) => match first_invalid_method(methods) {
                    Some(i) => Err(
                        "Invalid HTTP method "@ + ticked(quoted(methods[i])) + " in #[route] on "@ + ticked(action),
                    ),
                    None => match args[1] {
                        RouteArgView::Str(p) => Ok((methods, p)),
                        _ => Err("Route path in #[route] must be a string literal on "@ + ticked(action)),
                    },
                },
                _ => Err("HTTP method in #[route] must be a string literal on "@ + ticked(action)),
            }
        },
    }
}

/// The spec form of a `RouteAttribute`.
pub enum RouteAttributeView {
    Method { name: Seq<char>, path: Option<Seq<char>> },
    Route { args: Seq<RouteArgView> },
}

pub open spec fn route_attribute_view(a: RouteAttribute) -> RouteAttributeView {
    match a {
        RouteAttribute::Method { name, path } => RouteAttributeView::Method {
            name: name@,
            path: match path {
                Some(p) => Some(p@),
                None => None,
            },
        },
        RouteAttribute::Route { args } => RouteAttributeView::Route {
            args: args@.map_values(|x: RouteArg| route_arg_view(x)),
        },
    }
}

/// The HTTP methods an action can be bound to, in upper case.
fn http_method_upper_names() -> (r: Vec<&'static str>)
    ensures
        r@.len() == http_methods().len(),
        forall|i: int| 0 <= i < r@.len() ==> (#[trigger] r@[i])@ == ascii_upper(http_methods()[i]),
{
    proof {
        reveal_strlit("GET");
        reveal_strlit("POST");
        reveal_strlit("PUT");
        reveal_strlit("DELETE");
        reveal_strlit("PATCH");
        reveal_strlit("OPTIONS");
        reveal_strlit("HEAD");
        assert(ascii_upper(http_methods()[0]) =~= "GET"@);
        assert(ascii_upper(http_methods()[1]) =~= "POST"@);
        assert(ascii_upper(http_methods()[2]) =~= "PUT"@);
        assert(ascii_upper(http_methods()[3]) =~= "DELETE"@);
        assert(ascii_upper(http_methods()[4]) =~= "PATCH"@);
        assert(ascii_upper(http_methods()[5]) =~= "OPTIONS"@);
        assert(ascii_upper(http_methods()[6]) =~= "HEAD"@);
    }
    vec!["GET", "POST", "PUT", "DELETE", "PATCH", "OPTIONS", "HEAD"]
}

/// The method an attribute such as `get` binds an action to: its name in upper case.
pub fn method_attribute_upper(name: &str) -> (r: Option<&'static str>)
    ensures
        match r {
            Some(u) => is_method_attribute(name@) && u@ == ascii_upper(name@),
            None => !is_method_attribute(name@),
        },
{
    let names = http_method_names();
    let upper = http_method_upper_names();
    let mut i: usize = 0;
    while i < names.len()
        invariant
            i <= names@.len(),
            names@.len() == http_methods().len(),
            upper@.len() == http_methods().len(),
            forall|k: int| 0 <= k < names@.len() ==> (#[trigger] names@[k])@ == http_methods()[k],
            forall|k: int| 0 <= k < upper@.len() ==> (#[trigger] upper@[k])@ == ascii_upper(http_methods()[k]),
            forall|k: int| 0 <= k < i ==> http_methods()[k] != name@,
        decreases names@.len() - i,
    {
        if crate::extensions::str::str_equals(name, names[i]) {
            assert(http_methods()[i as int] == name@);
            return Some(upper[i]);
        }
        i = i + 1;
    }
    None
}

/// Whether an attribute named `name` binds an action to a route: one of the method
/// attributes, or `route`.
pub fn is_route_attribute(name: &str) -> (r: bool)
    ensures
        r == (is_method_attribute(name@) || name@ == "route"@),
{
    match method_attribute_upper(name) {
        Some(_) => true,
        None => crate::extensions::str::str_equals(name, "route"),
    }
}

/// `"..."` around `s`.
fn quote_text(s: &str) -> (r: String)
    ensures
        r@ == quoted(s@),
{
    let mut out = String::from_str("\"");
    proof {
        reveal_strlit("\"");
    }
    out.append(s);
    out.append("\"");
    out
}

/// `` `...` `` around `s`.
fn tick_text(s: &str) -> (r: String)
    ensures
        r@ == ticked(s@),
{
    let mut out = String::from_str("`");
    proof {
        reveal_strlit("`");
    }
    out.append(s);
    out.append("`");
    out
}

/// The first listed method that is not an HTTP method.
fn find_invalid_method(methods: &Vec<String>) -> (r: Option<usize>)
    ensures
        r matches Some(i) ==> i < methods@.len(),
        match r {
            Some(i) => first_invalid_method(methods@.map_values(|t: String| t@)) == Some(i as int),
            None => first_invalid_method(methods@.map_values(|t: String| t@)) is None,
        },
{
    let ghost all = methods@.map_values(|t: String| t@);
    let mut i: usize = 0;
    while i < methods.len()
        invariant
            i <= methods@.len(),
            all == methods@.map_values(|t: String| t@),
            forall|k: int| 0 <= k < i ==> is_http_method_spec(#[trigger] all[k]),
        decreases methods@.len() - i,
    {
        if !is_http_method(methods[i].as_str()) {
            proof {
                lemma_first_invalid_method_at(all, i as int);
            }
            return Some(i);
        }
        i = i + 1;
    }
    proof {
        lemma_all_methods_valid(all);
    }
    None
}

proof fn lemma_first_invalid_method_at(m: Seq<Seq<char>>, i: int)
    requires
        0 <= i < m.len(),
        !is_http_method_spec(m[i]),
        forall|k: int| 0 <= k < i ==> is_http_method_spec(#[trigger] m[k]),
    ensures
        first_invalid_method(m) == Some(i),
    decreases i,
{
    if i > 0 {
        let rest = m.drop_first();
        assert forall|k: int| 0 <= k < i - 1 implies is_http_method_spec(#[trigger] rest[k]) by {
            assert(rest[k] == m[k + 1]);
        }
        assert(rest[i - 1] == m[i]);
        lemma_first_invalid_method_at(rest, i - 1);
        assert(is_http_method_spec(m[0]));
    }
}

proof fn lemma_all_methods_valid(m: Seq<Seq<char>>)
    requires
        forall|k: int| 0 <= k < m.len() ==> is_http_method_spec(#[trigger] m[k]),
    ensures
        first_invalid_method(m) is None,
    decreases m.len(),
{
    if m.len() > 0 {
        let rest = m.drop_first();
        assert forall|k: int| 0 <= k < rest.len() implies is_http_method_spec(#[trigger] rest[k]) by {
            assert(rest[k] == m[k + 1]);
        }
        lemma_all_methods_valid(rest);
        assert(is_http_method_spec(m[0]));
    }
}

fn copy_texts(v: &Vec<String>) -> (r: Vec<String>)
    ensures
        r@.map_values(|t: String| t@) == v@.map_values(|t: String| t@),
{
    let mut out: Vec<String> = Vec::new();
    let mut i: usize = 0;
    while i < v.len()
        invariant
            i <= v@.len(),
            out@.len() == i,
            forall|k: int| 0 <= k < i ==> (#[trigger] out@[k])@ == v@[k]@,
        decreases v@.len() - i,
    {
        out.push(v[i].clone());
        i = i + 1;
    }
    assert(out@.map_values(|t: String| t@) =~= v@.map_values(|t: String| t@));
    out
}

/// Binds `action` by the routing attribute `attr`, checking it as the route macro does:
/// its methods and path, or the message that macro reports.
pub fn route_from_attribute(action: &str, attr: &RouteAttribute) -> (r: Result<RouteDeclaration, String>)
    requires
        attr matches RouteAttribute::Method { name, .. } ==> is_method_attribute(name@),
    ensures
        match r {
            Ok(d) => d.action_name@ == action@ && route_declaration(action@, route_attribute_view(*attr)) == Ok::<
                (Seq<Seq<char>>, Seq<char>),
                Seq<char>,
            >((d.methods@.map_values(|t: String| t@), d.path@)),
            Err(m) => route_declaration(action@, route_attribute_view(*attr)) == Err::<
                (Seq<Seq<char>>, Seq<char>),
                Seq<char>,
            >(m@),
        },
{
    match attr {
        RouteAttribute::Method { name, path } => {
            match path {
                Some(p) => {
                    let upper = match method_attribute_upper(name.as_str()) {
                        Some(u) => u,
                        None => {
                            return Err(String::new());
                        },
                    };
                    let mut methods: Vec<String> = Vec::new();
                    methods.push(String::from_str(upper));
                    assert(methods@.map_values(|t: String| t@) =~= seq![ascii_upper(name@)]);
                    Ok(RouteDeclaration { action_name: String::from_str(action), methods, path: p.clone() })
                },
                None => {
                    let mut m = String::from_str("Invalid #[");
                    m.append(name.as_str());
                    m.append("(...)] on ");
                    let t = tick_text(action);
                    m.append(t.as_str());
                    proof {
                        reveal_strlit("Invalid #[");
                        reveal_strlit("(...)] on ");
                        assert(m@ =~= "Invalid #["@ + name@ + "(...)] on "@ + ticked(action@));
                    }
                    Err(m)
                },
            }
        },
        RouteAttribute::Route { args } => {
            proof {
                reveal_strlit("Missing HTTP method or path in #[route]");
                reveal_strlit("Missing route method or path in #[route]");
            }
            if args.len() == 0 {
                return Err(String::from_str("Missing HTTP method or path in #[route]"));
            }
            if args.len() == 1 {
                return Err(String::from_str("Missing route method or path in #[route]"));
            }
            let ghost views = args@.map_values(|x: RouteArg| route_arg_view(x));
            assert(views[0] == route_arg_view(args@[0]));
            assert(views[1] == route_arg_view(args@[1]));
            match &args[0] {
                RouteArg::StrList(methods) => {
                    match find_invalid_method(methods) {
                        Some(i) => {
                            let mut m = String::from_str("Invalid HTTP method ");
                            let q = quote_text(methods[i].as_str());
                            let tq = tick_text(q.as_str());
                            m.append(tq.as_str());
                            m.append(" in #[route] on ");
                            let t = tick_text(action);
                            m.append(t.as_str());
                            proof {
                                reveal_strlit("Invalid HTTP method ");
                                reveal_strlit(" in #[route] on ");
                                assert(methods@.map_values(|t: String| t@)[i as int] == methods@[i as int]@);
                                assert(m@ =~= "Invalid HTTP method "@ + ticked(quoted(methods@[i as int]@))
                                    + " in #[route] on "@ + ticked(action@));
                            }
                            Err(m)
                        },
                        None => {
                            match &args[1] {
                                RouteArg::Str(p) => {
                                    Ok(
                                        RouteDeclaration {
                                            action_name: String::from_str(action),
                                            methods: copy_texts(methods),
                                            path: p.clone(),
                                        },
                                    )
                                },
                                _ => {
                                    let mut m = String::from_str("Route path in #[route] must be a string literal on ");
                                    let t = tick_text(action);
                                    m.append(t.as_str());
                                    proof {
                                        reveal_strlit("Route path in #[route] must be a string literal on ");
                                        assert(m@ =~= "Route path in #[route] must be a string literal on "@
                                            + ticked(action@));
                                    }
                                    Err(m)
                                },
                            }
                        },
                    }
                },
                _ => {
                    let mut m = String::from_str("HTTP method in #[route] must be a string literal on ");
                    let t = tick_text(action);
                    m.append(t.as_str());
                    proof {
                        reveal_strlit("HTTP method in #[route] must be a string literal on ");
                        assert(m@ =~= "HTTP method in #[route] must be a string literal on "@ + ticked(action@));
                    }
                    Err(m)
                },
            }
        },
    }
}

/// The methods an action can be bound to are exactly GET, POST, PUT, DELETE, PATCH,
/// OPTIONS and HEAD: a method name is accepted, in any ASCII case, if and only if it is
/// one of these seven; the method attributes are these seven names in lower case, and each
/// binds its name in upper case.
pub proof fn lemma_http_methods_are_the_seven(m: Seq<char>)
    ensures
        is_http_method_spec(m) <==> (eq_ignore_ascii_case(m, "get"@) || eq_ignore_ascii_case(m, "post"@)
            || eq_ignore_ascii_case(m, "put"@) || eq_ignore_ascii_case(m, "delete"@) || eq_ignore_ascii_case(
            m,
            "patch"@,
        ) || eq_ignore_ascii_case(m, "options"@) || eq_ignore_ascii_case(m, "head"@)),
        is_method_attribute(m) <==> (m == "get"@ || m == "post"@ || m == "put"@ || m == "delete"@ || m == "patch"@
            || m == "options"@ || m == "head"@),
        m == "get"@ ==> ascii_upper(m) == "GET"@,
        m == "post"@ ==> ascii_upper(m) == "POST"@,
        m == "put"@ ==> ascii_upper(m) == "PUT"@,
        m == "delete"@ ==> ascii_upper(m) == "DELETE"@,
        m == "patch"@ ==> ascii_upper(m) == "PATCH"@,
        m == "options"@ ==> ascii_upper(m) == "OPTIONS"@,
        m == "head"@ ==> ascii_upper(m) == "HEAD"@,
{
    reveal_strlit("get");
    reveal_strlit("post");
    reveal_strlit("put");
    reveal_strlit("delete");
    reveal_strlit("patch");
    reveal_strlit("options");
    reveal_strlit("head");
    reveal_strlit("GET");
    reveal_strlit("POST");
    reveal_strlit("PUT");
    reveal_strlit("DELETE");
    reveal_strlit("PATCH");
    reveal_strlit("OPTIONS");
    reveal_strlit("HEAD");
    let h = http_methods();
    assert(h[0] =~= "get"@);
    assert(h[1] =~= "post"@);
    assert(h[2] =~= "put"@);
    assert(h[3] =~= "delete"@);
    assert(h[4] =~= "patch"@);
    assert(h[5] =~= "options"@);
    assert(h[6] =~= "head"@);
    assert(h.len() == 7);
    if is_http_method_spec(m) {
        let i = choose|i: int| 0 <= i < h.len() && eq_ignore_ascii_case(m, #[trigger] h[i]);
        assert(0 <= i < 7);
    }
    if eq_ignore_ascii_case(m, "get"@) { assert(eq_ignore_ascii_case(m, h[0])); }
    if eq_ignore_ascii_case(m, "post"@) { assert(eq_ignore_ascii_case(m, h[1])); }
    if eq_ignore_ascii_case(m, "put"@) { assert(eq_ignore_ascii_case(m, h[2])); }
    if eq_ignore_ascii_case(m, "delete"@) { assert(eq_ignore_ascii_case(m, h[3])); }
    if eq_ignore_ascii_case(m, "patch"@) { assert(eq_ignore_ascii_case(m, h[4])); }
    if eq_ignore_ascii_case(m, "options"@) { assert(eq_ignore_ascii_case(m, h[5])); }
    if eq_ignore_ascii_case(m, "head"@) { assert(eq_ignore_ascii_case(m, h[6])); }
    if is_method_attribute(m) {
        let i = choose|i: int| 0 <= i < h.len() && h[i] == m;
        assert(0 <= i < 7);
    }
    if m == "get"@ { assert(h[0] == m); assert(ascii_upper(m) =~= "GET"@); }
    if m == "post"@ { assert(h[1] == m); assert(ascii_upper(m) =~= "POST"@); }
    if m == "put"@ { assert(h[2] == m); assert(ascii_upper(m) =~= "PUT"@); }
    if m == "delete"@ { assert(h[3] == m); assert(ascii_upper(m) =~= "DELETE"@); }
    if m == "patch"@ { assert(h[4] == m); assert(ascii_upper(m) =~= "PATCH"@); }
    if m == "options"@ { assert(h[5] == m); assert(ascii_upper(m) =~= "OPTIONS"@); }
    if m == "head"@ { assert(h[6] == m); assert(ascii_upper(m) =~= "HEAD"@); }
}

} // verus!
