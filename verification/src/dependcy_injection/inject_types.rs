use std::ops::Deref;
use std::sync::atomic::AtomicBool;
use std::sync::Arc;
use vstd::prelude::*;

use crate::http_context::http_context::HttpContext;

verus! {

/// An injected service, shared.
pub struct Serv<T: ?Sized>(pub Arc<T>);

impl<T: ?Sized> Deref for Serv<T> {
    type Target = Arc<T>;

    fn deref(&self) -> (r: &Arc<T>)
        ensures
            *r == self.0,
    {
        &self.0
    }
}

impl<T: ?Sized> Clone for Serv<T> {
    fn clone(&self) -> (r: Self)
        ensures
            r.0 == self.0,
    {
        Serv(Arc::clone(&self.0))
    }
}

/// An optional configuration: `None` when the type was never registered.
pub struct Cfg<T>(pub Option<Arc<T>>);

impl<T> Cfg<T> {
    /// The configuration, which must have been registered.
    pub fn unwrap(self) -> (r: Arc<T>)
        requires
            self.0 is Some,
        ensures
            r == self.0->Some_0,
    {
        self.0.unwrap()
    }

    /// The configuration, or its default value when it was never registered.
    pub fn unwrap_or_default(self) -> (r: Arc<T>)
        where
            T: Default,
        ensures
            match self.0 {
                Some(a) => r == a,
                None => T::default.ensures((), *r),
            },
    {
        self.0.unwrap_or_default()
    }
}

impl<T> Deref for Cfg<T> {
    type Target = Option<Arc<T>>;

    fn deref(&self) -> (r: &Option<Arc<T>>)
        ensures
            *r == self.0,
    {
        &self.0
    }
}

impl<T> Clone for Cfg<T> {
    fn clone(&self) -> (r: Self)
        ensures
            r.0 == self.0,
    {
        match &self.0 {
            Some(a) => Cfg(Some(Arc::clone(a))),
            None => Cfg(None),
        }
    }
}

/// A configuration that must be registered.
pub struct CfgRequire<T>(pub Arc<T>);

impl<T> CfgRequire<T> {
    /// The configuration.
    pub fn unwrap(self) -> (r: Arc<T>)
        ensures
            r == self.0,
    {
        self.0
    }
}

impl<T> Deref for CfgRequire<T> {
    type Target = Arc<T>;

    fn deref(&self) -> (r: &Arc<T>)
        ensures
            *r == self.0,
    {
        &self.0
    }
}

impl<T> Clone for CfgRequire<T> {
    fn clone(&self) -> (r: Self)
        ensures
            r.0 == self.0,
    {
        CfgRequire(Arc::clone(&self.0))
    }
}

/// A controller built by injection around the context of one request; `is_valid` tells
/// it whether the request is still being served.
pub trait DependcyInjectableController: Sized {
    fn inject(http_context: HttpContext, is_valid: Arc<AtomicBool>) -> Self;
}

} // verus!
