use asp_dot_rust::controller::ControllerRegistry;
use asp_dot_rust::dependcy_injection::flags::{get_http_inject_type, TypeShape};
use asp_dot_rust::dependcy_injection::inject_plan::{
    derived_field_kinds, inject_new_fn, injection_plan_of, DeriveError, InjectError, InjectionKind, NewFnShape,
    StructShape, INJECT_CONFIG, INJECT_CONTROLLER, INJECT_SERVICE,
};
use asp_dot_rust::dependcy_injection::{Cfg, CfgRequire, HttpInjectType, Serv};
use std::sync::Arc;

#[test]
fn cfg_unwrap_and_default() {
    let c = Cfg(Some(Arc::new(5u32)));
    assert_eq!(*c.clone().unwrap(), 5);
    assert_eq!(*c.unwrap_or_default(), 5);
    let none: Cfg<u32> = Cfg(None);
    assert!(none.is_none());
    assert_eq!(*none.unwrap_or_default(), 0);
}

#[test]
fn required_configuration_and_service() {
    let c = CfgRequire(Arc::new("x".to_string()));
    assert_eq!(c.len(), 1);
    assert_eq!(*c.clone().unwrap(), "x");
    let s = Serv(Arc::new(7i64));
    let t = s.clone();
    assert!(Arc::ptr_eq(&s, &t));
    assert_eq!(**t, 7);
}

#[test]
fn registry_makes_fresh_controllers() {
    let mut r: ControllerRegistry<Box<dyn Fn() -> String>> = ControllerRegistry::new();
    assert!(r.get_controller::<String>(1).is_none());
    r.add_controller(1, Box::new(|| "home".to_string()));
    r.add_controller(2, Box::new(|| "api".to_string()));
    assert_eq!(*r.get_controller::<String>(1).unwrap(), "home");
    assert_eq!(*r.get_controller::<String>(2).unwrap(), "api");
    assert!(r.get_controller::<String>(3).is_none());
}

#[test]
fn inject_types_by_shape() {
    let path = |s: &str| TypeShape::Path { name: s.to_string(), generic: None };
    assert_eq!(get_http_inject_type(&path("HttpContextRef")), HttpInjectType::ShareMutPtr);
    assert_eq!(get_http_inject_type(&path("HttpContext")), HttpInjectType::MoveHttpContext);
    assert_eq!(
        get_http_inject_type(&TypeShape::Reference(Box::new(path("HttpContext")))),
        HttpInjectType::BorrowHttpContext
    );
    assert_eq!(
        get_http_inject_type(&TypeShape::Reference(Box::new(path("HttpContextRef")))),
        HttpInjectType::NotInjected
    );
    assert_eq!(get_http_inject_type(&path("String")), HttpInjectType::NotInjected);
    assert_eq!(get_http_inject_type(&TypeShape::Other), HttpInjectType::NotInjected);
}

fn wrapper(name: &str, inner: &str) -> TypeShape {
    TypeShape::Path {
        name: name.to_string(),
        generic: Some(Box::new(TypeShape::Path { name: inner.to_string(), generic: None })),
    }
}

fn plain(name: &str) -> TypeShape {
    TypeShape::Path { name: name.to_string(), generic: None }
}

#[test]
fn service_plan_fills_wrappers() {
    let params = vec![wrapper("Serv", "Db"), wrapper("Cfg", "A"), wrapper("CfgRequire", "B"), wrapper("CfgReload", "C")];
    let plan = injection_plan_of(&params, INJECT_SERVICE | INJECT_CONFIG).unwrap();
    assert_eq!(
        plan,
        vec![
            (0, InjectionKind::Service),
            (1, InjectionKind::OptionalConfig),
            (2, InjectionKind::RequiredConfig),
            (3, InjectionKind::ReloadConfig)
        ]
    );
}

#[test]
fn service_plan_refuses_plain_parameter() {
    let params = vec![wrapper("Serv", "Db"), plain("u32")];
    assert_eq!(injection_plan_of(&params, INJECT_SERVICE | INJECT_CONFIG), Err(InjectError::NotInjectable(1)));
    let config_only = vec![wrapper("Serv", "Db")];
    assert_eq!(injection_plan_of(&config_only, INJECT_CONFIG), Err(InjectError::NotInjectable(0)));
    let bare_serv = vec![plain("Serv")];
    assert_eq!(injection_plan_of(&bare_serv, INJECT_SERVICE), Err(InjectError::NotInjectable(0)));
}

#[test]
fn controller_plan_takes_context_once() {
    let all = INJECT_SERVICE | INJECT_CONFIG | INJECT_CONTROLLER;
    let ok = vec![plain("HttpContextRef"), wrapper("Serv", "Db"), plain("String")];
    assert_eq!(
        injection_plan_of(&ok, all),
        Ok(vec![(0, InjectionKind::HttpContextRef), (1, InjectionKind::Service)])
    );
    let twice = vec![plain("HttpContextRef"), plain("HttpContextRef")];
    assert_eq!(injection_plan_of(&twice, all), Err(InjectError::HttpContextTwice));
    let by_value = vec![plain("HttpContext")];
    assert_eq!(injection_plan_of(&by_value, all), Err(InjectError::HttpContextNotShared));
    let missing = vec![wrapper("Serv", "Db")];
    assert_eq!(injection_plan_of(&missing, all), Err(InjectError::MissingHttpContext));
    assert_eq!(InjectError::MissingHttpContext.message("C", &vec![]), "`new` fn args must contain HttpContextRef");
    assert_eq!(
        InjectError::NotInjectable(1).message("C", &vec!["Serv<Db>".to_string(), "u32".to_string()]),
        "Field must be Serv<T> (Service), Cfg<T> (optional config), CfgRequire<T> (required config), or CfgReload<T> (reloadable config), found: u32"
    );
}

#[test]
fn derived_fields() {
    let s = StructShape::Named(vec![wrapper("Serv", "Db"), wrapper("CfgReload", "R"), wrapper("Cfg", "A")]);
    assert_eq!(
        derived_field_kinds(&s),
        Ok(vec![InjectionKind::Service, InjectionKind::ReloadConfig, InjectionKind::OptionalConfig])
    );
    assert_eq!(derived_field_kinds(&StructShape::Unit), Ok(vec![]));
    assert_eq!(derived_field_kinds(&StructShape::Tuple), Err(DeriveError::TupleStruct));
    assert_eq!(derived_field_kinds(&StructShape::NotStruct), Err(DeriveError::NotStruct));
}

#[test]
fn derived_plain_field_is_refused() {
    let s = StructShape::Named(vec![wrapper("Serv", "Db"), plain("u32"), plain("String")]);
    assert_eq!(derived_field_kinds(&s), Err(DeriveError::NotInjectableField(1)));
}

#[test]
fn new_fn_shape_is_checked() {
    let ok = NewFnShape { is_async: false, return_type: Some(plain("Self")), params: vec![wrapper("Serv", "Db")] };
    assert_eq!(inject_new_fn(&ok, "MyService", INJECT_SERVICE), Ok(vec![(0, InjectionKind::Service)]));
    let named = NewFnShape { is_async: false, return_type: Some(plain("MyService")), params: vec![] };
    assert_eq!(inject_new_fn(&named, "MyService", INJECT_SERVICE), Ok(vec![]));
    let asynchronous = NewFnShape { is_async: true, return_type: Some(plain("Self")), params: vec![] };
    assert_eq!(inject_new_fn(&asynchronous, "MyService", INJECT_SERVICE), Err(InjectError::NewIsAsync));
    let other = NewFnShape { is_async: false, return_type: Some(plain("Other")), params: vec![] };
    assert_eq!(inject_new_fn(&other, "MyService", INJECT_SERVICE), Err(InjectError::NewNotReturningSelf));
    let unit = NewFnShape { is_async: false, return_type: None, params: vec![] };
    assert_eq!(inject_new_fn(&unit, "MyService", INJECT_SERVICE), Err(InjectError::NewNotReturningSelf));
    assert_eq!(InjectError::NewIsAsync.message("MyService", &vec![]), "fn `new` cannot be async");
    assert_eq!(
        InjectError::NewNotReturningSelf.message("MyService", &vec![]),
        "fn `new` must return Self or MyService"
    );
}
