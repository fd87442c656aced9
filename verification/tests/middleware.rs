use asp_dot_rust::middleware::{middleware_plan, ImplItemShape, MiddlewareError};

fn item(is_fn: bool, name: &str) -> ImplItemShape {
    ImplItemShape { is_fn, name: name.to_string() }
}

#[test]
fn middleware_keeps_other_items() {
    let items = vec![item(true, "with_application"), item(true, "invoke_async"), item(false, "Alias"), item(true, "type_name")];
    let plan = middleware_plan(Some("AuthorizeMiddleware"), &items).ok().unwrap();
    assert_eq!(plan.service_name, "AuthorizeMiddlewareService");
    assert_eq!(plan.invoke_index, 1);
    assert_eq!(plan.kept_items, vec![0, 2, 3]);
}

#[test]
fn middleware_errors() {
    let items = vec![item(true, "invoke"), item(false, "invoke_async")];
    let e = middleware_plan(Some("M"), &items).err().unwrap();
    assert_eq!(e, MiddlewareError::MissingInvokeAsync);
    assert_eq!(e.message(), "#[middleware] requires the `invoke_async` function");
    assert_eq!(middleware_plan(None, &items).err().unwrap(), MiddlewareError::NotStructImpl);
}
