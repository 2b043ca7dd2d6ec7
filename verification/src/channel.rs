//! The output channel: the one transmit resource that all output passes
//! through, and the guard that serialises access to it.

use crate::render::append_bytes;
use vstd::prelude::*;

verus! {

/// What can be seen of a channel: whether its lock is held, and every byte
/// that was written to it, in order.
pub struct ChannelState {
    pub held: bool,
    pub observed: Seq<u8>,
}

/// The single shared output channel, guarded by an exclusive lock.
pub struct Channel {
    held: bool,
    sent: Vec<u8>,
}

impl View for Channel {
    type V = ChannelState;

    closed spec fn view(&self) -> ChannelState {
        ChannelState { held: self.held, observed: self.sent@ }
    }
}

impl Channel {
    /// A channel that nobody holds and that has observed nothing.
    pub fn new() -> (channel: Channel)
        ensures
            channel@ == (ChannelState { held: false, observed: Seq::empty() }),
    {
        Channel { held: false, sent: Vec::new() }
    }

    /// Whether the lock is held.
    pub fn is_held(&self) -> (held: bool)
        ensures
            held == self@.held,
    {
        self.held
    }

    /// The bytes observed so far.
    pub fn observed(&self) -> (bytes: &[u8])
        ensures
            bytes@ == self@.observed,
    {
        self.sent.as_slice()
    }

    /// Hands out the bytes observed so far and starts over with none. The
    /// lock is left as it is.
    pub fn drain(&mut self) -> (bytes: Vec<u8>)
        ensures
            bytes@ == old(self)@.observed,
            final(self)@ == (ChannelState { held: old(self)@.held, observed: Seq::empty() }),
    {
        let mut bytes: Vec<u8> = Vec::new();
        bytes.append(&mut self.sent);
        bytes
    }

    /// Takes the lock if it is free. Returns whether it was taken.
    pub fn try_lock(&mut self) -> (taken: bool)
        ensures
            taken == !old(self)@.held,
            final(self)@ == (ChannelState { held: true, observed: old(self)@.observed }),
    {
        let taken = !self.held;
        self.held = true;
        taken
    }

    /// Releases the lock.
    pub fn unlock(&mut self)
        ensures
            final(self)@ == (ChannelState { held: false, observed: old(self)@.observed }),
    {
        self.held = false;
    }

    /// Forces the lock into the unlocked state, whoever holds it.
    pub fn force_unlock(&mut self)
        ensures
            final(self)@ == (ChannelState { held: false, observed: old(self)@.observed }),
    {
        self.held = false;
    }

    /// Writes `bytes` to the channel. The caller holds the lock.
    pub fn write_bytes(&mut self, bytes: &[u8])
        requires
            old(self)@.held,
        ensures
            final(self)@ == (ChannelState {
                held: true,
                observed: old(self)@.observed + bytes@,
            }),
    {
        append_bytes(&mut self.sent, bytes);
    }

    /// Writes `bytes` to the channel under the guard's protocol: the lock is
    /// forced open, taken, and released after the write.
    ///
    /// The write proceeds from every state, also when the lock is held on
    /// entry: the holder's claim is discarded.
    pub fn emit(&mut self, bytes: &[u8])
        ensures
            final(self)@ == emitted(old(self)@, bytes@),
    {
        self.force_unlock();
        let taken = self.try_lock();
        assert(taken);
        self.write_bytes(bytes);
        self.unlock();
    }
}

/// The state of a channel after `bytes` were emitted to it: the lock is free
/// and exactly `bytes` follow what was observed before.
pub open spec fn emitted(before: ChannelState, bytes: Seq<u8>) -> ChannelState {
    ChannelState { held: false, observed: before.observed + bytes }
}

/// Emitting in two parts is observed as emitting the whole at once.
pub proof fn lemma_emitted_concat(before: ChannelState, a: Seq<u8>, b: Seq<u8>)
    ensures
        emitted(emitted(before, a), b) == emitted(before, a + b),
{
    assert((before.observed + a) + b == before.observed + (a + b));
}

/// Emitting nothing to a free channel changes nothing.
pub proof fn lemma_emitted_nothing(before: ChannelState)
    requires
        !before.held,
    ensures
        emitted(before, Seq::empty()) == before,
{
    assert(before.observed + Seq::<u8>::empty() == before.observed);
}

} // verus!
