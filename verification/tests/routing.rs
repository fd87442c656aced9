use asp_dot_rust::controller::routing::{
    is_http_method, is_route_attribute, method_attribute_upper, route_from_attribute, RouteArg, RouteAttribute,
};
use asp_dot_rust::controller::ActionRoute;

#[test]
fn http_methods_ignore_case() {
    assert!(is_http_method("GET"));
    assert!(is_http_method("get"));
    assert!(is_http_method("Patch"));
    assert!(is_http_method("HEAD"));
    assert!(!is_http_method("CONNECT"));
    assert!(!is_http_method("GETS"));
    assert!(!is_http_method(""));
}

#[test]
fn route_attributes() {
    assert!(is_route_attribute("get"));
    assert!(is_route_attribute("route"));
    assert!(!is_route_attribute("Get"));
    assert!(!is_route_attribute("path"));
    assert_eq!(method_attribute_upper("delete"), Some("DELETE"));
    assert_eq!(method_attribute_upper("trace"), None);
}

#[test]
fn method_attribute_binds_upper_case_method() {
    let attr = RouteAttribute::Method { name: "post".to_string(), path: Some("/update".to_string()) };
    let d = route_from_attribute("update", &attr).ok().unwrap();
    assert_eq!(d.action_name, "update");
    assert_eq!(d.methods, vec!["POST".to_string()]);
    assert_eq!(d.path, "/update");
}

#[test]
fn method_attribute_without_path() {
    let attr = RouteAttribute::Method { name: "get".to_string(), path: None };
    assert_eq!(route_from_attribute("index", &attr).err().unwrap(), "Invalid #[get(...)] on `index`");
}

#[test]
fn route_attribute_keeps_listed_methods() {
    let attr = RouteAttribute::Route {
        args: vec![
            RouteArg::StrList(vec!["GET".to_string(), "post".to_string()]),
            RouteArg::Str("/health".to_string()),
        ],
    };
    let d = route_from_attribute("health", &attr).ok().unwrap();
    assert_eq!(d.methods, vec!["GET".to_string(), "post".to_string()]);
    assert_eq!(d.path, "/health");
}

#[test]
fn route_attribute_errors() {
    let missing = RouteAttribute::Route { args: vec![] };
    assert_eq!(route_from_attribute("a", &missing).err().unwrap(), "Missing HTTP method or path in #[route]");
    let one = RouteAttribute::Route { args: vec![RouteArg::StrList(vec![])] };
    assert_eq!(route_from_attribute("a", &one).err().unwrap(), "Missing route method or path in #[route]");
    let bad_method = RouteAttribute::Route {
        args: vec![RouteArg::StrList(vec!["GET".to_string(), "FETCH".to_string()]), RouteArg::Str("/".to_string())],
    };
    assert_eq!(
        route_from_attribute("a", &bad_method).err().unwrap(),
        "Invalid HTTP method `\"FETCH\"` in #[route] on `a`"
    );
    let not_list = RouteAttribute::Route { args: vec![RouteArg::Str("GET".to_string()), RouteArg::Str("/".to_string())] };
    assert_eq!(
        route_from_attribute("a", &not_list).err().unwrap(),
        "HTTP method in #[route] must be a string literal on `a`"
    );
    let bad_path = RouteAttribute::Route { args: vec![RouteArg::StrList(vec!["GET".to_string()]), RouteArg::Other] };
    assert_eq!(
        route_from_attribute("a", &bad_path).err().unwrap(),
        "Route path in #[route] must be a string literal on `a`"
    );
}

#[test]
fn action_route_new() {
    let r = ActionRoute::new("index", vec!["GET"], "/");
    assert_eq!(r.action_name, "index");
    assert_eq!(r.method, vec!["GET"]);
    assert_eq!(r.route, "/");
}
