//! The stores that storage requests are served from.

use std::sync::Arc;
use vstd::prelude::*;

verus! {

/// The stores of a server: the immutable store, its local part, and the mutable store.
pub struct LoreStorageService<I: ?Sized, M: ?Sized> {
    immutable_store: Arc<I>,
    local_store: Arc<I>,
    mutable_store: Arc<M>,
}

/// What a [`LoreStorageService`] holds.
pub struct StoresView<I: ?Sized, M: ?Sized> {
    pub immutable: Arc<I>,
    pub local: Arc<I>,
    pub mutable: Arc<M>,
}

impl<I: ?Sized, M: ?Sized> View for LoreStorageService<I, M> {
    type V = StoresView<I, M>;

    closed spec fn view(&self) -> StoresView<I, M> {
        StoresView {
            immutable: self.immutable_store,
            local: self.local_store,
            mutable: self.mutable_store,
        }
    }
}

impl<I: ?Sized, M: ?Sized> Clone for LoreStorageService<I, M> {
    /// The same stores, shared.
    fn clone(&self) -> (r: LoreStorageService<I, M>)
        ensures
            r@ == self@,
    {
        LoreStorageService {
            immutable_store: self.immutable_store.clone(),
            local_store: self.local_store.clone(),
            mutable_store: self.mutable_store.clone(),
        }
    }
}

impl<I: ?Sized, M: ?Sized> LoreStorageService<I, M> {
    /// Serve from the given stores.
    pub fn new(immutable_store: Arc<I>, local_store: Arc<I>, mutable_store: Arc<M>) -> (r:
        LoreStorageService<I, M>)
        ensures
            r@ == (StoresView {
                immutable: immutable_store,
                local: local_store,
                mutable: mutable_store,
            }),
    {
        LoreStorageService { immutable_store, local_store, mutable_store }
    }

    /// The local part of the immutable store.
    pub fn local_immutable_store(&self) -> (r: &Arc<I>)
        ensures
            *r == self@.local,
    {
        &self.local_store
    }

    /// The immutable store.
    pub fn immutable_store(&self) -> (r: &Arc<I>)
        ensures
            *r == self@.immutable,
    {
        &self.immutable_store
    }

    /// The mutable store.
    pub fn mutable_store(&self) -> (r: &Arc<M>)
        ensures
            *r == self@.mutable,
    {
        &self.mutable_store
    }

    /// The name under which the service is measured.
    pub fn namespace(&self) -> (r: &'static str)
        ensures
            r@ == "urc.grpc.storage_service"@,
    {
        "urc.grpc.storage_service"
    }
}

} // verus!
