use vstd::prelude::*;

use crate::extensions::str::str_equals;

verus! {

/// How a controller field receives the request's context.
#[derive(Debug, Clone, Copy, PartialEq, Eq, Structural)]
pub enum HttpInjectType {
    NotInjected,
    ShareMutPtr,
    BorrowHttpContext,
    MoveHttpContext,
}

/// The shape of a field's type, as far as injection reads it.
pub enum TypeShape {
    /// A path type, by the name of its last segment and that segment's first generic
    /// argument when it is a type.
    Path { name: String, generic: Option<Box<TypeShape>> },
    /// A reference to a type.
    Reference(Box<TypeShape>),
    /// Any other type.
    Other,
}

/// How a field of the type `t` receives the context: a shared pointer as such, the
/// context itself by move, a reference to the context by borrow, anything else not at all.
pub open spec fn inject_type_of(t: TypeShape) -> HttpInjectType
    decreases t,
{
    match t {
        TypeShape::Path { name, .. } => if name@ == "HttpContextRef"@ {
            HttpInjectType::ShareMutPtr
        } else if name@ == "HttpContext"@ {
            HttpInjectType::MoveHttpContext
        } else {
            HttpInjectType::NotInjected
        },
        TypeShape::Reference(inner) => if inject_type_of(*inner) == HttpInjectType::MoveHttpContext {
            HttpInjectType::BorrowHttpContext
        } else {
            HttpInjectType::NotInjected
        },
        TypeShape::Other => HttpInjectType::NotInjected,
    }
}

pub fn get_http_inject_type(ty: &TypeShape) -> (r: HttpInjectType)
    ensures
        r == inject_type_of(*ty),
    decreases *ty,
{
    match ty {
        TypeShape::Path { name, .. } => {
            if str_equals(name.as_str(), "HttpContextRef") {
                HttpInjectType::ShareMutPtr
            } else if str_equals(name.as_str(), "HttpContext") {
                HttpInjectType::MoveHttpContext
            } else {
                HttpInjectType::NotInjected
            }
        },
        TypeShape::Reference(inner) => {
            let child = get_http_inject_type(inner);
            if child == HttpInjectType::MoveHttpContext {
                HttpInjectType::BorrowHttpContext
            } else {
                HttpInjectType::NotInjected
            }
        },
        TypeShape::Other => HttpInjectType::NotInjected,
    }
}

/// The type behind any references.
pub open spec fn exact_type_of(t: TypeShape) -> TypeShape
    decreases t,
{
    match t {
        TypeShape::Reference(inner) => exact_type_of(*inner),
        _ => t,
    }
}

/// The type behind any references, as the injection macro names the type it injects.
pub fn get_exact_type(ty: &TypeShape) -> (r: &TypeShape)
    ensures
        *r == exact_type_of(*ty),
    decreases *ty,
{
    match ty {
        TypeShape::Reference(inner) => get_exact_type(inner),
        _ => ty,
    }
}

} // verus!
