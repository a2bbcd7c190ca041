//! The command-application step of the event loop.
//!
//! Producer threads enqueue [`PeerCommand`]s; the loop thread drains them
//! in arrival order and applies each to the engine state: the subscriber
//! registry and the outbound sequence counter. Applying a command yields a
//! [`LoopStep`] telling the loop what to do next: keep waiting, send a
//! finished datagram, or terminate. The waiting, receiving and sending
//! themselves happen outside the library; everything the loop decides is
//! here.

use crate::frame::frame_bytes;
use crate::message::Message;
use crate::registry::{lemma_without_channel, recipient_list, without_channel, SubscriberRegistry};
use vstd::prelude::*;

verus! {

/// One request from a producer thread to the event loop.
pub enum PeerCommand<T> {
    /// Register `subscriber` for channel `cid`.
    Subscribe { cid: u16, subscriber: T },
    /// Drop every subscription of channel `cid`.
    UnSubscribe { cid: u16 },
    /// Frame `msg` for channel `cid` and send it to the group.
    Publish { cid: u16, msg: Message },
    /// End the loop thread with success.
    Stop,
}

/// What the event loop must do after applying one command.
pub enum LoopStep {
    /// Keep waiting for further events.
    Continue,
    /// Send the finished datagram on the multicast socket.
    Transmit(Vec<u8>),
    /// End the loop thread with success.
    Stop,
}

/// A publish command must carry a well-formed message buffer.
pub open spec fn command_wf<T>(cmd: PeerCommand<T>) -> bool {
    match cmd {
        PeerCommand::Publish { msg, .. } => msg.wf(),
        _ => true,
    }
}

/// The sequence counter after one send: incremented, wrapping around at
/// the top of the 64-bit range.
pub open spec fn wrap_inc(seqno: u64) -> u64 {
    if seqno == 0xffff_ffff_ffff_ffff {
        0
    } else {
        (seqno + 1) as u64
    }
}

/// The registry contents after applying one command.
pub open spec fn subs_after<T>(subs: Seq<(u16, T)>, cmd: PeerCommand<T>) -> Seq<(u16, T)> {
    match cmd {
        PeerCommand::Subscribe { cid, subscriber } => subs.push((cid, subscriber)),
        PeerCommand::UnSubscribe { cid } => without_channel(subs, cid),
        PeerCommand::Publish { .. } => subs,
        PeerCommand::Stop => subs,
    }
}

/// The sequence counter after applying one command: only a publish
/// consumes a sequence number.
pub open spec fn seqno_after<T>(seqno: u64, cmd: PeerCommand<T>) -> u64 {
    match cmd {
        PeerCommand::Publish { .. } => wrap_inc(seqno),
        _ => seqno,
    }
}

/// The registry contents after draining `cmds` in order, where a stop
/// command ends the drain and the commands after it are never applied.
pub open spec fn drain_subs<T>(subs: Seq<(u16, T)>, cmds: Seq<PeerCommand<T>>) -> Seq<(u16, T)>
    decreases cmds.len(),
{
    if cmds.len() == 0 {
        subs
    } else if cmds[0] is Stop {
        subs
    } else {
        drain_subs(subs_after(subs, cmds[0]), cmds.skip(1))
    }
}

/// The sequence counter after draining `cmds` in order, up to the first
/// stop command.
pub open spec fn drain_seqno<T>(seqno: u64, cmds: Seq<PeerCommand<T>>) -> u64
    decreases cmds.len(),
{
    if cmds.len() == 0 {
        seqno
    } else if cmds[0] is Stop {
        seqno
    } else {
        drain_seqno(seqno_after(seqno, cmds[0]), cmds.skip(1))
    }
}

/// The datagrams sent while draining `cmds` in order, up to the first stop
/// command: one frame per publish, each carrying the sequence number
/// assigned to that send.
pub open spec fn frames_out<T>(seqno: u64, cmds: Seq<PeerCommand<T>>) -> Seq<Seq<u8>>
    decreases cmds.len(),
{
    if cmds.len() == 0 {
        Seq::empty()
    } else {
        match cmds[0] {
            PeerCommand::Publish { cid, msg } => seq![frame_bytes(cid, seqno, msg.payload())]
                + frames_out(wrap_inc(seqno), cmds.skip(1)),
            PeerCommand::Stop => Seq::empty(),
            _ => frames_out(seqno, cmds.skip(1)),
        }
    }
}

/// The byte sequences of a batch of finished datagrams.
pub open spec fn frame_views(frames: Seq<Vec<u8>>) -> Seq<Seq<u8>> {
    frames.map_values(|f: Vec<u8>| f@)
}

/// Whether draining `cmds` reaches a stop command and ends the loop.
pub open spec fn drain_stops<T>(cmds: Seq<PeerCommand<T>>) -> bool
    decreases cmds.len(),
{
    if cmds.len() == 0 {
        false
    } else if cmds[0] is Stop {
        true
    } else {
        drain_stops(cmds.skip(1))
    }
}

/// Law: once a subscribe command for `(cid, subscriber)` is applied, the
/// callback is on the delivery list of every inbound datagram — delivery
/// is not filtered by the channel id a datagram carries — and any later
/// command other than an unsubscribe of the same channel keeps the
/// subscription registered, while applying an unsubscribe of `cid` leaves
/// no subscription of that channel behind.
pub proof fn lemma_subscribe_delivers_until_unsubscribe<T>(
    subs: Seq<(u16, T)>,
    cid: u16,
    subscriber: T,
    later: PeerCommand<T>,
)
    ensures
        recipient_list(subs_after(subs, PeerCommand::Subscribe { cid, subscriber })).contains(
            subscriber,
        ),
        (match later {
            PeerCommand::UnSubscribe { cid: other } => other != cid,
            _ => true,
        }) ==> subs_after(
            subs_after(subs, PeerCommand::Subscribe { cid, subscriber }),
            later,
        ).contains((cid, subscriber)),
        forall|i: int|
            0 <= i < subs_after(subs, PeerCommand::UnSubscribe { cid }).len() ==> (
            #[trigger] subs_after(subs, PeerCommand::UnSubscribe { cid })[i]).0 != cid,
{
    let registered = subs.push((cid, subscriber));
    assert(recipient_list(registered)[subs.len() as int] == subscriber);
    assert(recipient_list(registered).contains(subscriber));
    match later {
        PeerCommand::Subscribe { cid: c2, subscriber: s2 } => {
            assert(registered.push((c2, s2))[subs.len() as int] == (cid, subscriber));
            assert(registered.push((c2, s2)).contains((cid, subscriber)));
        },
        PeerCommand::UnSubscribe { cid: other } => {
            if other != cid {
                lemma_without_channel(registered, other);
                assert(registered[subs.len() as int] == (cid, subscriber));
            }
        },
        _ => {
            assert(registered[subs.len() as int] == (cid, subscriber));
            assert(registered.contains((cid, subscriber)));
        },
    }
    lemma_without_channel(subs, cid);
}

/// The state the event-loop thread owns exclusively: the subscriber
/// registry and the sequence counter for outbound frames.
pub struct EngineCore<T> {
    registry: SubscriberRegistry<T>,
    seq_counter: u64,
}

impl<T: Copy> EngineCore<T> {
    /// The registered (channel id, callback) pairs, in registration order.
    pub closed spec fn subscribers(self) -> Seq<(u16, T)> {
        self.registry.entries()
    }

    /// The sequence number the next publish will carry.
    pub closed spec fn next_seq(self) -> u64 {
        self.seq_counter
    }

    /// Makes an engine with no subscribers; sequence numbers start at one.
    pub fn new() -> (r: Self)
        ensures
            r.subscribers() == Seq::<(u16, T)>::empty(),
            r.next_seq() == 1,
    {
        EngineCore { registry: SubscriberRegistry::new(), seq_counter: 1 }
    }

    /// Applies one command to the engine state and says what the loop must
    /// do next: a subscribe appends to the registry, an unsubscribe drops
    /// every matching pair, a publish packs the message with the assigned
    /// sequence number and asks for a send, and a stop ends the loop.
    pub fn apply_command(&mut self, cmd: PeerCommand<T>) -> (step: LoopStep)
        requires
            command_wf(cmd),
        ensures
            final(self).subscribers() == subs_after(old(self).subscribers(), cmd),
            final(self).next_seq() == seqno_after(old(self).next_seq(), cmd),
            match cmd {
                PeerCommand::Publish { cid, msg } => (step matches LoopStep::Transmit(b) && b@
                    == frame_bytes(cid, old(self).next_seq(), msg.payload())),
                PeerCommand::Stop => step == LoopStep::Stop,
                _ => step == LoopStep::Continue,
            },
    {
        match cmd {
            PeerCommand::Subscribe { cid, subscriber } => {
                self.registry.subscribe(cid, subscriber);
                LoopStep::Continue
            },
            PeerCommand::UnSubscribe { cid } => {
                self.registry.unsubscribe(cid);
                LoopStep::Continue
            },
            PeerCommand::Publish { cid, msg } => {
                let seqno = self.seq_counter;
                self.seq_counter = if seqno == 0xffff_ffff_ffff_ffff {
                    0
                } else {
                    seqno + 1
                };
                LoopStep::Transmit(msg.pack(cid, seqno))
            },
            PeerCommand::Stop => LoopStep::Stop,
        }
    }

    /// Drains one batch of queued commands in the exact order they sit in
    /// `cmds` — the arrival order of the queue — applying each in turn, up
    /// to and including the first stop command. Returns the datagrams to
    /// send, in command order, and whether the loop must terminate;
    /// commands after a stop are never applied.
    pub fn apply_all(&mut self, cmds: Vec<PeerCommand<T>>) -> (r: (Vec<Vec<u8>>, bool))
        requires
            forall|i: int| 0 <= i < cmds@.len() ==> command_wf(#[trigger] cmds@[i]),
        ensures
            final(self).subscribers() == drain_subs(old(self).subscribers(), cmds@),
            final(self).next_seq() == drain_seqno(old(self).next_seq(), cmds@),
            frame_views(r.0@) == frames_out(old(self).next_seq(), cmds@),
            r.1 == drain_stops(cmds@),
    {
        let ghost orig = cmds@;
        let mut cmds = cmds;
        let mut frames: Vec<Vec<u8>> = Vec::new();
        let mut stopped = false;
        proof {
            assert(frame_views(frames@) + frames_out(self.next_seq(), cmds@) =~= frames_out(
                self.next_seq(),
                cmds@,
            ));
        }
        while !stopped && cmds.len() > 0
            invariant
                forall|i: int| 0 <= i < cmds@.len() ==> command_wf(#[trigger] cmds@[i]),
                !stopped ==> drain_subs(old(self).subscribers(), orig) == drain_subs(
                    self.subscribers(),
                    cmds@,
                ),
                !stopped ==> drain_seqno(old(self).next_seq(), orig) == drain_seqno(
                    self.next_seq(),
                    cmds@,
                ),
                !stopped ==> frames_out(old(self).next_seq(), orig) == frame_views(frames@)
                    + frames_out(self.next_seq(), cmds@),
                !stopped ==> drain_stops(orig) == drain_stops(cmds@),
                stopped ==> drain_subs(old(self).subscribers(), orig) == self.subscribers(),
                stopped ==> drain_seqno(old(self).next_seq(), orig) == self.next_seq(),
                stopped ==> frames_out(old(self).next_seq(), orig) == frame_views(frames@),
                stopped ==> drain_stops(orig),
            decreases cmds@.len(),
        {
            let ghost before = cmds@;
            let cmd = cmds.remove(0);
            let ghost gcmd = cmd;
            proof {
                assert(cmds@ =~= before.skip(1));
                assert forall|i: int| 0 <= i < cmds@.len() implies command_wf(
                    #[trigger] cmds@[i],
                ) by {
                    assert(cmds@[i] == before[i + 1]);
                }
            }
            let ghost subs_before = self.subscribers();
            let ghost seq_before = self.next_seq();
            let ghost frames_before = frames@;
            let step = self.apply_command(cmd);
            match step {
                LoopStep::Continue => {
                    proof {
                        assert(frames_out(seq_before, before) =~= frames_out(
                            self.next_seq(),
                            cmds@,
                        ));
                    }
                },
                LoopStep::Transmit(bytes) => {
                    frames.push(bytes);
                    proof {
                        match gcmd {
                            PeerCommand::Publish { cid, msg } => {
                                assert(frames_out(seq_before, before) =~= seq![bytes@]
                                    + frames_out(self.next_seq(), cmds@));
                                assert(frame_views(frames@) =~= frame_views(frames_before).push(
                                    bytes@,
                                ));
                                assert(frame_views(frames@) + frames_out(self.next_seq(), cmds@)
                                    =~= frame_views(frames_before) + frames_out(
                                    seq_before,
                                    before,
                                ));
                            },
                            _ => {
                                assert(false);
                            },
                        }
                    }
                },
                LoopStep::Stop => {
                    stopped = true;
                    proof {
                        assert(frames_out(seq_before, before) =~= Seq::<Seq<u8>>::empty());
                        assert(frame_views(frames@) + Seq::<Seq<u8>>::empty() =~= frame_views(
                            frames@,
                        ));
                    }
                },
            }
        }
        proof {
            if !stopped {
                assert(frames_out(self.next_seq(), cmds@) =~= Seq::<Seq<u8>>::empty());
                assert(frame_views(frames@) + Seq::<Seq<u8>>::empty() =~= frame_views(frames@));
            }
        }
        (frames, stopped)
    }

    /// Hands out the delivery list for one inbound datagram: every
    /// registered callback in registration order, whatever channel id the
    /// datagram carries.
    pub fn recipients(&self) -> (r: Vec<T>)
        ensures
            r@ == recipient_list(self.subscribers()),
    {
        self.registry.recipients()
    }

    /// Number of registered subscriptions.
    pub fn subscriber_count(&self) -> (n: usize)
        ensures
            n == self.subscribers().len(),
    {
        self.registry.len()
    }
}

} // verus!
