use vstd::prelude::*;

use crate::error::SyscallError;
use crate::event::{EntryView, StructuredEvent};

verus! {

/// The ordered, append-only log of the events that one invocation emitted,
/// with a fixed capacity standing for the host's storage.
pub struct EffectLog {
    events: Vec<StructuredEvent>,
    capacity: usize,
}

impl View for EffectLog {
    type V = Seq<Seq<EntryView>>;

    closed spec fn view(&self) -> Seq<Seq<EntryView>> {
        self.events@.map_values(|e: StructuredEvent| e@)
    }
}

impl EffectLog {
    /// How many events the log can hold.
    pub closed spec fn spec_capacity(&self) -> nat {
        self.capacity as nat
    }

    /// An empty log that holds up to `capacity` events.
    pub fn new(capacity: usize) -> (r: EffectLog)
        ensures
            r@ == Seq::<Seq<EntryView>>::empty(),
            r.spec_capacity() == capacity,
    {
        let r = EffectLog { events: Vec::new(), capacity };
        assert(r@ =~= Seq::<Seq<EntryView>>::empty());
        r
    }

    pub fn len(&self) -> (r: usize)
        ensures
            r == self@.len(),
    {
        self.events.len()
    }

    pub fn capacity(&self) -> (r: usize)
        ensures
            r == self.spec_capacity(),
    {
        self.capacity
    }

    /// The event recorded at position `i`.
    pub fn get(&self, i: usize) -> (r: &StructuredEvent)
        requires
            i < self@.len(),
        ensures
            r@ == self@[i as int],
    {
        &self.events[i]
    }

    /// Appends `event`, or fails with `HostError` when the log is full.
    pub fn record(&mut self, event: StructuredEvent) -> (r: Result<(), SyscallError>)
        ensures
            final(self).spec_capacity() == old(self).spec_capacity(),
            old(self)@.len() < old(self).spec_capacity() ==> r == Ok::<(), SyscallError>(()) && final(self)@ == old(self)@.push(
                event@,
            ),
            old(self)@.len() >= old(self).spec_capacity() ==> r == Err::<(), SyscallError>(
                SyscallError::HostError,
            ) && final(self)@ == old(self)@,
    {
        if self.events.len() >= self.capacity {
            return Err(SyscallError::HostError);
        }
        let ghost before = self.events@;
        self.events.push(event);
        assert(self@ =~= before.map_values(|e: StructuredEvent| e@).push(event@));
        Ok(())
    }
}

} // verus!
