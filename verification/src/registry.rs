//! The lifecycle registry: a single exclusively-owned slot for the handle
//! of the one managed process.
//!
//! The slot is written once after a successful spawn and emptied at most
//! once, on shutdown, by an atomic remove-and-return. Because the handle is
//! *taken* rather than peeked at, a kill can never be issued twice against
//! the same handle, even when two code paths race to shut down: whichever
//! take comes second receives nothing. The application shell serializes
//! access to the registry; this module fixes what each access does.

use vstd::prelude::*;

verus! {

/// The supervisor's exclusive reference to the spawned child: the process
/// identifier a termination request is issued against. The child's event
/// stream travels separately, into the event pump.
#[derive(PartialEq, Eq, Structural, Debug, Clone, Copy)]
pub struct ManagedProcess {
    pub pid: u32,
}

/// Model of a handle option: the process identifier it carries, if any.
pub open spec fn spec_handle_pid(h: Option<ManagedProcess>) -> Option<u32> {
    match h {
        Some(p) => Some(p.pid),
        None => None,
    }
}

/// Atomic remove-and-return on the slot's model: what comes out, and what
/// the slot holds afterwards.
pub open spec fn spec_take(s: Option<u32>) -> (Option<u32>, Option<u32>) {
    (s, None)
}

/// The single registry slot, `Option` semantics, owned for the
/// application's run and handed by exclusive reference to whichever path
/// needs it.
pub struct LifecycleRegistry {
    slot: Option<ManagedProcess>,
}

impl View for LifecycleRegistry {
    type V = Option<u32>;

    /// The slot's contents: the stored process identifier, if any.
    closed spec fn view(&self) -> Option<u32> {
        spec_handle_pid(self.slot)
    }
}

impl LifecycleRegistry {
    /// An empty registry, as the application starts with.
    pub fn new() -> (r: Self)
        ensures
            r@ is None,
    {
        LifecycleRegistry { slot: None }
    }

    /// Stores the handle of the freshly spawned child. Called exactly once
    /// per application run, after a successful spawn; any prior handle is
    /// overwritten (a documented precondition of the caller, not a state
    /// this supervisor reaches).
    pub fn store(&mut self, h: ManagedProcess)
        ensures
            final(self)@ == Some(h.pid),
    {
        self.slot = Some(h);
    }

    /// Atomically removes and returns the handle, if one is stored. The
    /// slot is empty afterwards, so of two racing shutdown paths only one
    /// receives the handle.
    pub fn take(&mut self) -> (r: Option<ManagedProcess>)
        ensures
            spec_handle_pid(r) == spec_take(old(self)@).0,
            final(self)@ == spec_take(old(self)@).1,
    {
        let r = self.slot;
        self.slot = None;
        r
    }
}

/// At-most-one-kill: whatever the slot holds, the first take yields exactly
/// that, and a second take on the resulting slot yields nothing. A kill is
/// therefore issued at most once per stored handle.
pub proof fn lemma_at_most_one_kill(s: Option<u32>)
    ensures
        spec_take(s).0 == s,
        spec_take(spec_take(s).1).0 is None,
{
}

} // verus!
