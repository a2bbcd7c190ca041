//! The subscriber registry owned by the event-loop thread.
//!
//! An ordered sequence of (channel id, callback) pairs. Insertion order is
//! preserved, duplicates are allowed, and removal drops every pair whose
//! channel id matches. Inbound datagrams are delivered to every registered
//! callback, whatever channel id the datagram carries, so the delivery
//! list is simply the callbacks in registration order.
//!
//! Callbacks are plain copyable values (such as function pointers); the
//! registry never invokes them, it only keeps their order.

use vstd::prelude::*;

verus! {

/// The entries that survive removing channel `cid`: every pair whose
/// channel differs from `cid`, keeping their relative order.
pub open spec fn without_channel<T>(s: Seq<(u16, T)>, cid: u16) -> Seq<(u16, T)>
    decreases s.len(),
{
    if s.len() == 0 {
        s
    } else {
        let rest = without_channel(s.drop_last(), cid);
        if s.last().0 == cid {
            rest
        } else {
            rest.push(s.last())
        }
    }
}

/// The callbacks a datagram is delivered to, in registration order: every
/// registered callback, regardless of the channel id the datagram carries.
pub open spec fn recipient_list<T>(s: Seq<(u16, T)>) -> Seq<T> {
    s.map_values(|e: (u16, T)| e.1)
}

/// Removing a channel keeps no pair of that channel, keeps every pair of
/// the other channels, and never grows the registry.
pub proof fn lemma_without_channel<T>(s: Seq<(u16, T)>, cid: u16)
    ensures
        forall|i: int|
            0 <= i < without_channel(s, cid).len() ==> (#[trigger] without_channel(s, cid)[i]).0
                != cid,
        forall|i: int|
            0 <= i < s.len() && (#[trigger] s[i]).0 != cid ==> without_channel(s, cid).contains(
                s[i],
            ),
        without_channel(s, cid).len() <= s.len(),
    decreases s.len(),
{
    if s.len() > 0 {
        lemma_without_channel(s.drop_last(), cid);
        let rest = without_channel(s.drop_last(), cid);
        assert forall|i: int|
            0 <= i < s.len() && (#[trigger] s[i]).0 != cid implies without_channel(
            s,
            cid,
        ).contains(s[i]) by {
            if i < s.len() - 1 {
                assert(s.drop_last()[i] == s[i]);
                let j = choose|j: int| 0 <= j < rest.len() && rest[j] == s[i];
                assert(without_channel(s, cid)[j] == s[i]);
            } else {
                assert(without_channel(s, cid).last() == s[i]);
            }
        }
    }
}

/// The ordered registry of (channel id, callback) pairs.
pub struct SubscriberRegistry<T> {
    items: Vec<(u16, T)>,
}

impl<T: Copy> SubscriberRegistry<T> {
    /// The registered pairs, in registration order.
    pub closed spec fn entries(self) -> Seq<(u16, T)> {
        self.items@
    }

    /// Makes an empty registry.
    pub fn new() -> (r: Self)
        ensures
            r.entries() == Seq::<(u16, T)>::empty(),
    {
        SubscriberRegistry { items: Vec::new() }
    }

    /// Appends a pair; an already-registered channel id is not checked, so
    /// duplicates accumulate.
    pub fn subscribe(&mut self, cid: u16, subscriber: T)
        ensures
            final(self).entries() == old(self).entries().push((cid, subscriber)),
    {
        self.items.push((cid, subscriber));
    }

    /// Removes every pair registered for channel `cid`, keeping the others
    /// in the order they were registered.
    pub fn unsubscribe(&mut self, cid: u16)
        ensures
            final(self).entries() == without_channel(old(self).entries(), cid),
    {
        let mut kept: Vec<(u16, T)> = Vec::new();
        let mut i: usize = 0;
        while i < self.items.len()
            invariant
                i <= self.items@.len(),
                self.items@ == old(self).items@,
                kept@ == without_channel(self.items@.subrange(0, i as int), cid),
            decreases self.items@.len() - i,
        {
            let entry = self.items[i];
            proof {
                assert(self.items@.subrange(0, i + 1).drop_last() =~= self.items@.subrange(
                    0,
                    i as int,
                ));
                assert(self.items@.subrange(0, i + 1).last() == entry);
            }
            if entry.0 != cid {
                kept.push(entry);
            }
            i = i + 1;
        }
        proof {
            assert(self.items@.subrange(0, self.items@.len() as int) =~= self.items@);
        }
        self.items = kept;
    }

    /// Hands out the delivery list for one inbound datagram: every
    /// registered callback, in registration order.
    pub fn recipients(&self) -> (r: Vec<T>)
        ensures
            r@ == recipient_list(self.entries()),
    {
        let mut r: Vec<T> = Vec::new();
        let mut i: usize = 0;
        while i < self.items.len()
            invariant
                i <= self.items@.len(),
                r@ == recipient_list(self.items@.subrange(0, i as int)),
            decreases self.items@.len() - i,
        {
            let entry = self.items[i];
            r.push(entry.1);
            proof {
                assert(r@ =~= recipient_list(self.items@.subrange(0, i + 1)));
            }
            i = i + 1;
        }
        proof {
            assert(self.items@.subrange(0, self.items@.len() as int) =~= self.items@);
        }
        r
    }

    /// Number of registered pairs.
    pub fn len(&self) -> (n: usize)
        ensures
            n == self.entries().len(),
    {
        self.items.len()
    }
}

} // verus!
