//! Dependency injection for request handlers: a signature rewriter that turns
//! `#[inject]` parameters into container lookups, and the request-time pieces
//! that resolve those lookups from a request-scoped container.
use vstd::prelude::*;

pub mod ctxt;
pub mod rewrite;
pub mod adapter;
pub mod laws;

verus! {

/// Binds a marker type to the lookup key of the service `T` it stands for.
pub trait ContainerKey<T: ?Sized> {
    const KEY: &'static str;
}

/// A resolved service, tagged with the marker type `K` that names its key.
pub struct Injected<T, K>(pub T, pub core::marker::PhantomData<K>);

impl<T, K> Injected<T, K> {
    pub fn new(injected: T) -> (r: Self)
        ensures
            r.0 == injected,
    {
        Injected(injected, core::marker::PhantomData)
    }
}

} // verus!
