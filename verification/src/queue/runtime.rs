//! The queue as the server holds it: a store, or the reason why there is none.
use crate::queue::error::{StoreError, StoreErrorModel};
use crate::queue::model::{QueueModel, empty_queue};
use crate::queue::store::QueueStore;
use vstd::prelude::*;

verus! {

/// The store, or why it cannot be used.
#[derive(Debug)]
pub enum QueueRuntime {
    Available(QueueStore),
    Unavailable(StoreError),
}

impl View for QueueRuntime {
    type V = Result<QueueModel, StoreErrorModel>;

    open spec fn view(&self) -> Result<QueueModel, StoreErrorModel> {
        match self {
            QueueRuntime::Available(store) => Ok(store@),
            QueueRuntime::Unavailable(e) => Err(e@),
        }
    }
}

impl QueueRuntime {
    /// The runtime for what opening the store gave.
    pub fn open(opened: Result<QueueStore, StoreError>) -> (r: Self)
        ensures
            match opened {
                Ok(store) => r == QueueRuntime::Available(store),
                Err(e) => r == QueueRuntime::Unavailable(e),
            },
    {
        match opened {
            Ok(store) => QueueRuntime::Available(store),
            Err(e) => QueueRuntime::Unavailable(e),
        }
    }

    /// A runtime with an empty store in memory.
    pub fn in_memory() -> (r: Self)
        ensures
            r@ == Ok::<_, StoreErrorModel>(empty_queue()),
    {
        QueueRuntime::open(QueueStore::open_in_memory())
    }

    /// The store, for use, or why it cannot be used.
    pub fn store_mut(&mut self) -> (r: Result<&mut QueueStore, StoreError>)
        ensures
            match *old(self) {
                QueueRuntime::Available(store) => {
                    &&& r is Ok
                    &&& *r->Ok_0 == store
                    &&& *final(self) == QueueRuntime::Available(*final(r->Ok_0))
                },
                QueueRuntime::Unavailable(e) => {
                    &&& r is Err
                    &&& r->Err_0 == e
                    &&& *final(self) == *old(self)
                },
            },
    {
        match self {
            QueueRuntime::Available(store) => Ok(store),
            QueueRuntime::Unavailable(e) => Err(e.clone()),
        }
    }
}

} // verus!
