//! A frame store that many handlers may use at once. A lock admits one
//! writer at a time, and readers only while nobody writes, so a reader sees
//! a whole frame: the one before a save or the one after it.

use vstd::prelude::*;
use vstd::rwlock::RwLock;
use crate::frame::{FrameStore, DEFAULT_MAX_FRAME_LEN};
use crate::validate::{fault_of, payload_fault, valid_frame, ValidationError};

verus! {

/// A [`FrameStore`] behind a lock. All the handlers of a service share one.
pub struct SharedFrameStore {
    lock: RwLock<FrameStore, spec_fn(FrameStore) -> bool>,
    max_len: usize,
}

impl SharedFrameStore {
    /// The largest number of characters that a frame of this store may have.
    pub closed spec fn limit(&self) -> nat {
        self.max_len as nat
    }

    #[verifier::type_invariant]
    spec fn lock_keeps_limit(&self) -> bool {
        forall|store: FrameStore| #[trigger] self.lock.inv(store) <==> store.limit() == self.max_len
    }

    /// A shared store with the limit [`DEFAULT_MAX_FRAME_LEN`], holding the
    /// empty frame.
    pub fn new() -> (shared: SharedFrameStore)
        ensures
            shared.limit() == DEFAULT_MAX_FRAME_LEN,
    {
        SharedFrameStore::with_limit(DEFAULT_MAX_FRAME_LEN)
    }

    /// A shared store with the limit `max_len`, holding the empty frame.
    pub fn with_limit(max_len: usize) -> (shared: SharedFrameStore)
        ensures
            shared.limit() == max_len,
    {
        let store = FrameStore::with_limit(max_len);
        let ghost keeps = |s: FrameStore| s.limit() == max_len as nat;
        let lock = RwLock::<FrameStore, spec_fn(FrameStore) -> bool>::new(store, Ghost(keeps));
        SharedFrameStore { lock, max_len }
    }

    /// The largest number of characters that a frame of this store may have.
    pub fn max_len(&self) -> (max: usize)
        ensures
            max == self.limit(),
    {
        self.max_len
    }

    /// A copy of the frame that the store holds at the moment of the call. It
    /// is a whole frame that was accepted, or the empty frame: hexadecimal
    /// digits only, within the limit.
    ///
    /// Other handlers may save at any time, and any valid frame is one that
    /// they may have saved. So of the frame returned the contract states what
    /// holds of every frame that the store can hold, and that is all a caller
    /// can rely on. Which frame a store returns that nobody else writes to is
    /// stated on [`FrameStore::get_frame`], which is called here under the
    /// read lock.
    pub fn get_frame(&self) -> (frame: String)
        ensures
            valid_frame(frame@, self.limit()),
    {
        proof {
            use_type_invariant(self);
        }
        let handle = self.lock.acquire_read();
        let frame = handle.borrow().get_frame();
        handle.release_read();
        frame
    }

    /// Validates `payload` against the store's limit and, if it is valid,
    /// makes it the current frame, in one step for every reader. A rejected
    /// payload leaves the store as it was.
    pub fn save_frame(&self, payload: &str) -> (r: Result<(), ValidationError>)
        ensures
            fault_of(r) == payload_fault(payload@, self.limit()),
    {
        proof {
            use_type_invariant(self);
        }
        let (mut store, handle) = self.lock.acquire_write();
        let r = store.save_frame(payload);
        handle.release_write(store);
        r
    }
}

} // verus!
