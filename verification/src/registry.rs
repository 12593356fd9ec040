//! The registry of the capture workers in flight.

use vstd::prelude::*;

verus! {

/// The handles of the capture workers that were spawned and not yet waited
/// for, in the order in which they were registered. What a handle is, is the
/// caller's matter: the registry only keeps it.
pub struct WorkerRegistry<H> {
    handles: Vec<H>,
}

impl<H> View for WorkerRegistry<H> {
    type V = Seq<H>;

    closed spec fn view(&self) -> Seq<H> {
        self.handles@
    }
}

impl<H> WorkerRegistry<H> {
    /// A registry with no worker in flight.
    pub fn new() -> (registry: WorkerRegistry<H>)
        ensures
            registry@ == Seq::<H>::empty(),
    {
        WorkerRegistry { handles: Vec::new() }
    }

    /// The number of workers in flight.
    pub fn len(&self) -> (n: usize)
        ensures
            n == self@.len(),
    {
        self.handles.len()
    }

    pub fn is_empty(&self) -> (empty: bool)
        ensures
            empty == (self@.len() == 0),
    {
        self.handles.len() == 0
    }

    /// Registers the handle of a worker that was just spawned.
    pub fn register(&mut self, handle: H)
        ensures
            final(self)@ == old(self)@.push(handle),
    {
        self.handles.push(handle);
    }

    /// Hands out the handle registered first, for the caller to wait on; none
    /// where no worker is in flight.
    pub fn take_next(&mut self) -> (handle: Option<H>)
        ensures
            match handle {
                Some(h) => old(self)@.len() > 0 && h == old(self)@[0] && final(self)@ == old(
                    self,
                )@.drop_first(),
                None => old(self)@.len() == 0 && final(self)@ == old(self)@,
            },
    {
        if self.handles.len() == 0 {
            None
        } else {
            Some(self.handles.remove(0))
        }
    }

    /// Hands out all handles in the order of their registration and leaves
    /// the registry empty. The caller waits on each; a worker that has
    /// already finished is waited on like any other.
    pub fn drain_all(&mut self) -> (handles: Vec<H>)
        ensures
            handles@ == old(self)@,
            final(self)@ == Seq::<H>::empty(),
    {
        let mut handles: Vec<H> = Vec::new();
        std::mem::swap(&mut handles, &mut self.handles);
        handles
    }
}

} // verus!
