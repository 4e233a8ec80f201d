//! Work units, join handles, and the orchestrator that drives them.
//!
//! A `Computation` describes one unit of deferred work. `launch` clones the
//! shared resources the unit needs (a fresh producer handle for the channel,
//! another reference-counted handle for the counter), moves them into the
//! unit, and hands back a one-shot `JoinHandle`. `join` consumes the handle,
//! runs the unit to completion, and surfaces its outcome — a value, or a
//! `FailureSignal` for a unit that terminated abnormally. Blocking until a
//! unit finishes is modelled by `join` performing the unit's remaining work
//! itself, so every interleaving a caller can express is an order of `join`
//! calls.

use crate::channel::{Channel, Entry, Receiver, Sender};
use crate::counter::{LockContaminated, LockState, SharedCounter, SharedHandle};
use vstd::prelude::*;

verus! {

/// Reported by `join` when the unit terminated abnormally instead of
/// returning a value.
#[derive(Clone, Copy, PartialEq, Eq, Structural, Debug)]
pub struct FailureSignal;

/// What a unit of work does when it runs.
pub enum Computation {
    /// Send each message in order through the unit's own producer handle,
    /// then drop the handle.
    Produce(Vec<String>),
    /// Add one to the shared counter under its lock.
    AddOne,
    /// Terminate normally with this value.
    Finish(u64),
    /// Terminate abnormally at once.
    Fail,
    /// Acquire the counter lock and terminate abnormally while holding it.
    FailHoldingLock,
}

/// A launched unit: its work plus the shared-resource handles moved into it.
pub struct WorkUnit {
    work: Computation,
    sender: Option<Sender>,
    handle: Option<SharedHandle>,
}

/// One slot in the orchestrator's table of launched units.
pub enum UnitSlot {
    /// The unit has not been joined yet.
    Running(WorkUnit),
    /// The unit was joined; its outcome has been handed out once.
    Joined,
}

/// A one-shot capability to join a launched unit. It is not `Clone`, and
/// `join` consumes it, so joining twice is impossible by construction.
pub struct JoinHandle {
    id: usize,
}

impl JoinHandle {
    /// The slot this handle refers to.
    pub closed spec fn id(&self) -> usize {
        self.id
    }
}

/// The view of a `Vec` of messages as a sequence of character sequences.
pub open spec fn texts_of(msgs: Vec<String>) -> Seq<Seq<char>> {
    msgs@.map_values(|s: String| s@)
}

spec fn slot_has_handle(s: UnitSlot) -> bool {
    match s {
        UnitSlot::Running(u) => u.handle is Some,
        UnitSlot::Joined => false,
    }
}

spec fn running_produce(s: UnitSlot) -> bool {
    match s {
        UnitSlot::Running(u) => u.work is Produce,
        UnitSlot::Joined => false,
    }
}

spec fn slot_sender_index(s: UnitSlot) -> usize {
    match s {
        UnitSlot::Running(u) => match u.sender {
            Some(snd) => snd.index(),
            None => 0,
        },
        UnitSlot::Joined => 0,
    }
}

spec fn handle_count(s: Seq<UnitSlot>) -> nat
    decreases s.len(),
{
    if s.len() == 0 {
        0
    } else {
        handle_count(s.drop_last()) + if slot_has_handle(s.last()) {
            1nat
        } else {
            0nat
        }
    }
}

proof fn lemma_handle_count_push(s: Seq<UnitSlot>, x: UnitSlot)
    ensures
        handle_count(s.push(x)) == handle_count(s) + if slot_has_handle(x) {
            1nat
        } else {
            0nat
        },
{
    assert(s.push(x).drop_last() =~= s);
    assert(s.push(x).last() == x);
}

proof fn lemma_handle_count_update(s: Seq<UnitSlot>, i: int, x: UnitSlot)
    requires
        0 <= i < s.len(),
        !slot_has_handle(x),
    ensures
        handle_count(s) == handle_count(s.update(i, x)) + if slot_has_handle(s[i]) {
            1nat
        } else {
            0nat
        },
    decreases s.len(),
{
    let t = s.update(i, x);
    if i == s.len() - 1 {
        assert(t.drop_last() =~= s.drop_last());
    } else {
        assert(t.drop_last() =~= s.drop_last().update(i, x));
        assert(t.last() == s.last());
        lemma_handle_count_update(s.drop_last(), i, x);
    }
}

/// The driver: it owns the channel, the counter storage, the main-thread
/// ends of both, and the table of launched units.
pub struct Orchestrator {
    channel: Channel,
    main_sender: Option<Sender>,
    receiver: Option<Receiver>,
    counter: SharedCounter,
    main_handle: SharedHandle,
    units: Vec<UnitSlot>,
}

impl Orchestrator {
    /// Every message ever accepted by the channel, in order.
    pub closed spec fn sent_log(self) -> Seq<Entry> {
        self.channel.sent_log()
    }

    /// Every message the consumer has observed, in order.
    pub closed spec fn delivered_log(self) -> Seq<Entry> {
        self.channel.delivered_log()
    }

    /// The messages still buffered in the channel.
    pub closed spec fn queued(self) -> Seq<Entry> {
        self.channel.queued()
    }

    /// Live producer handles, the orchestrator's own one included.
    pub closed spec fn live_senders(self) -> usize {
        self.channel.live_senders()
    }

    /// Producer handles ever issued by the channel.
    pub closed spec fn issued(self) -> nat {
        self.channel.issued()
    }

    /// Is the consuming end of the channel still present?
    pub closed spec fn receiver_live(self) -> bool {
        self.channel.receiver_live()
    }

    /// Does the orchestrator still hold the consuming end?
    pub closed spec fn receiver_present(self) -> bool {
        self.receiver is Some
    }

    /// Does the orchestrator still hold its own producer handle?
    pub closed spec fn has_main_sender(self) -> bool {
        self.main_sender is Some
    }

    /// The identity of the orchestrator's own producer handle.
    pub closed spec fn main_sender_index(self) -> usize {
        match self.main_sender {
            Some(s) => s.index(),
            None => 0,
        }
    }

    /// The number in the shared counter cell.
    pub closed spec fn counter_value(self) -> u64 {
        self.counter.value()
    }

    /// The state of the counter's lock.
    pub closed spec fn lock_state(self) -> LockState {
        self.counter.lock_state()
    }

    /// Outstanding counter handles, the orchestrator's own one included.
    pub closed spec fn holders(self) -> usize {
        self.counter.holders()
    }

    /// How many units have been launched.
    pub closed spec fn units_len(self) -> nat {
        self.units@.len()
    }

    /// Is the unit in slot `i` still unjoined?
    pub closed spec fn unit_running(self, i: int) -> bool {
        self.units@[i] is Running
    }

    /// The work of the (running) unit in slot `i`.
    pub closed spec fn unit_work(self, i: int) -> Computation {
        match self.units@[i] {
            UnitSlot::Running(u) => u.work,
            UnitSlot::Joined => Computation::Fail,
        }
    }

    /// The identity of the producer handle owned by the unit in slot `i`.
    pub closed spec fn unit_sender_index(self, i: int) -> usize {
        slot_sender_index(self.units@[i])
    }

    spec fn unit_ok(self, i: int) -> bool {
        match self.units@[i] {
            UnitSlot::Running(u) => {
                &&& (u.work is Produce ==> match u.sender {
                    Some(s) => self.channel.holds(s),
                    None => false,
                })
                &&& (!(u.work is Produce) ==> u.sender is None)
                &&& ((u.work is AddOne || u.work is FailHoldingLock) <==> u.handle is Some)
            },
            UnitSlot::Joined => true,
        }
    }

    /// The orchestrator's invariant: the channel is well formed, the lock is
    /// never left held between operations, every running unit's resources
    /// are live, producer identities never collide, and the counter's
    /// reference count covers the orchestrator's handle and every handle
    /// moved into a running unit.
    pub closed spec fn wf(self) -> bool {
        &&& self.channel.wf()
        &&& (self.receiver is Some) == self.channel.receiver_live()
        &&& self.counter.lock_state() != LockState::Held
        &&& (match self.main_sender {
            Some(s) => self.channel.holds(s),
            None => true,
        })
        &&& self.counter.holders() >= 1 + handle_count(self.units@)
        &&& (forall|i: int| 0 <= i < self.units@.len() ==> self.unit_ok(i))
        &&& (forall|i: int, j: int|
            0 <= i < self.units@.len() && 0 <= j < self.units@.len() && i != j && running_produce(
                self.units@[i],
            ) && running_produce(self.units@[j]) ==> slot_sender_index(self.units@[i])
                != slot_sender_index(self.units@[j]))
        &&& (forall|i: int|
            0 <= i < self.units@.len() && running_produce(self.units@[i]) ==> match self
                .main_sender {
                Some(s) => slot_sender_index(self.units@[i]) != s.index(),
                None => true,
            })
    }

    /// Builds the shared scene: one channel, one counter initialised to
    /// `initial`, the orchestrator holding the consuming end, one producer
    /// handle, and one counter handle; no units yet.
    pub fn new(initial: u64) -> (r: Orchestrator)
        ensures
            r.wf(),
            r.units_len() == 0,
            r.sent_log() == Seq::<Entry>::empty(),
            r.delivered_log() == Seq::<Entry>::empty(),
            r.queued() == Seq::<Entry>::empty(),
            r.live_senders() == 1,
            r.issued() == 1,
            r.receiver_live(),
            r.receiver_present(),
            r.has_main_sender(),
            r.main_sender_index() == 0,
            r.counter_value() == initial,
            r.lock_state() == LockState::Free,
            r.holders() == 1,
    {
        let (channel, s0, receiver) = Channel::create();
        let (counter, h0) = SharedHandle::new(initial);
        let orch = Orchestrator {
            channel,
            main_sender: Some(s0),
            receiver: Some(receiver),
            counter,
            main_handle: h0,
            units: Vec::new(),
        };
        proof {
            assert(handle_count(orch.units@) == 0);
        }
        orch
    }

    /// Schedules `work` as a new unit. Resources are cloned here and moved
    /// into the unit: a `Produce` unit gets its own fresh producer handle,
    /// and the counter units get their own counter handle. Returns the
    /// one-shot handle for joining the unit.
    pub fn launch(&mut self, work: Computation) -> (h: JoinHandle)
        requires
            old(self).wf(),
            old(self).units_len() < usize::MAX,
            old(self).holders() < usize::MAX,
            work is Produce ==> old(self).has_main_sender(),
        ensures
            final(self).wf(),
            h.id() == old(self).units_len(),
            final(self).units_len() == old(self).units_len() + 1,
            final(self).unit_running(h.id() as int),
            final(self).unit_work(h.id() as int) == work,
            forall|i: int|
                0 <= i < old(self).units_len() ==> {
                    &&& final(self).unit_running(i) == old(self).unit_running(i)
                    &&& final(self).unit_work(i) == old(self).unit_work(i)
                    &&& final(self).unit_sender_index(i) == old(self).unit_sender_index(i)
                },
            final(self).has_main_sender() == old(self).has_main_sender(),
            final(self).main_sender_index() == old(self).main_sender_index(),
            final(self).receiver_present() == old(self).receiver_present(),
            final(self).receiver_live() == old(self).receiver_live(),
            final(self).sent_log() == old(self).sent_log(),
            final(self).delivered_log() == old(self).delivered_log(),
            final(self).queued() == old(self).queued(),
            final(self).counter_value() == old(self).counter_value(),
            final(self).lock_state() == old(self).lock_state(),
            if work is Produce {
                &&& final(self).live_senders() == old(self).live_senders() + 1
                &&& final(self).issued() == old(self).issued() + 1
                &&& final(self).unit_sender_index(h.id() as int) == old(self).issued()
                &&& final(self).holders() == old(self).holders()
            } else if work is AddOne || work is FailHoldingLock {
                &&& final(self).live_senders() == old(self).live_senders()
                &&& final(self).issued() == old(self).issued()
                &&& final(self).holders() == old(self).holders() + 1
            } else {
                &&& final(self).live_senders() == old(self).live_senders()
                &&& final(self).issued() == old(self).issued()
                &&& final(self).holders() == old(self).holders()
            },
    {
        let id = self.units.len();
        let slot = match work {
            Computation::Produce(msgs) => {
                let snd = match &self.main_sender {
                    Some(s) => self.channel.clone_sender(s),
                    None => vstd::pervasive::unreached(),
                };
                UnitSlot::Running(
                    WorkUnit { work: Computation::Produce(msgs), sender: Some(snd), handle: None },
                )
            },
            Computation::AddOne => {
                let hnd = self.counter.clone_handle(&self.main_handle);
                UnitSlot::Running(
                    WorkUnit { work: Computation::AddOne, sender: None, handle: Some(hnd) },
                )
            },
            Computation::FailHoldingLock => {
                let hnd = self.counter.clone_handle(&self.main_handle);
                UnitSlot::Running(
                    WorkUnit {
                        work: Computation::FailHoldingLock,
                        sender: None,
                        handle: Some(hnd),
                    },
                )
            },
            other => UnitSlot::Running(WorkUnit { work: other, sender: None, handle: None }),
        };
        proof {
            lemma_handle_count_push(old(self).units@, slot);
            assert forall|i: int| 0 <= i < old(self).units@.len() && running_produce(
                old(self).units@[i],
            ) implies slot_sender_index(old(self).units@[i]) < old(self).issued() by {
                assert(old(self).unit_ok(i));
                match old(self).units@[i] {
                    UnitSlot::Running(u) => match u.sender {
                        Some(s) => crate::channel::lemma_holds_bound(old(self).channel, s),
                        None => {},
                    },
                    UnitSlot::Joined => {},
                }
            }
            match old(self).main_sender {
                Some(s) => crate::channel::lemma_holds_bound(old(self).channel, s),
                None => {},
            }
        }
        self.units.push(slot);
        proof {
            assert forall|i: int| 0 <= i < self.units@.len() implies self.unit_ok(i) by {
                if i < self.units@.len() - 1 {
                    assert(old(self).unit_ok(i));
                }
            }
        }
        JoinHandle { id }
    }

    /// Blocks until the unit behind `h` has terminated — in this model, by
    /// running its remaining work — consumes the handle, and returns the
    /// unit's outcome: its value, or `FailureSignal` if it terminated
    /// abnormally. The failure is surfaced here, never propagated into the
    /// caller, and never replaced by a made-up value.
    pub fn join(&mut self, h: JoinHandle) -> (r: Result<u64, FailureSignal>)
        requires
            old(self).wf(),
            h.id() < old(self).units_len(),
            old(self).unit_running(h.id() as int),
        ensures
            final(self).wf(),
            final(self).units_len() == old(self).units_len(),
            !final(self).unit_running(h.id() as int),
            forall|i: int|
                0 <= i < old(self).units_len() && i != h.id() ==> {
                    &&& final(self).unit_running(i) == old(self).unit_running(i)
                    &&& final(self).unit_work(i) == old(self).unit_work(i)
                    &&& final(self).unit_sender_index(i) == old(self).unit_sender_index(i)
                },
            final(self).has_main_sender() == old(self).has_main_sender(),
            final(self).main_sender_index() == old(self).main_sender_index(),
            final(self).receiver_present() == old(self).receiver_present(),
            final(self).receiver_live() == old(self).receiver_live(),
            final(self).issued() == old(self).issued(),
            final(self).delivered_log() == old(self).delivered_log(),
            match old(self).unit_work(h.id() as int) {
                Computation::Finish(v) => {
                    &&& r == Ok::<u64, FailureSignal>(v)
                    &&& final(self).sent_log() == old(self).sent_log()
                    &&& final(self).queued() == old(self).queued()
                    &&& final(self).live_senders() == old(self).live_senders()
                    &&& final(self).counter_value() == old(self).counter_value()
                    &&& final(self).lock_state() == old(self).lock_state()
                    &&& final(self).holders() == old(self).holders()
                },
                Computation::Fail => {
                    &&& r == Err::<u64, FailureSignal>(FailureSignal)
                    &&& final(self).sent_log() == old(self).sent_log()
                    &&& final(self).queued() == old(self).queued()
                    &&& final(self).live_senders() == old(self).live_senders()
                    &&& final(self).counter_value() == old(self).counter_value()
                    &&& final(self).lock_state() == old(self).lock_state()
                    &&& final(self).holders() == old(self).holders()
                },
                Computation::AddOne => {
                    &&& final(self).sent_log() == old(self).sent_log()
                    &&& final(self).queued() == old(self).queued()
                    &&& final(self).live_senders() == old(self).live_senders()
                    &&& final(self).holders() == old(self).holders() - 1
                    &&& if old(self).lock_state() == LockState::Free {
                        if old(self).counter_value() < u64::MAX {
                            &&& r == Ok::<u64, FailureSignal>(
                                (old(self).counter_value() + 1) as u64,
                            )
                            &&& final(self).counter_value() == old(self).counter_value() + 1
                            &&& final(self).lock_state() == LockState::Free
                        } else {
                            // the increment overflows inside the critical
                            // section: the unit dies holding the lock
                            &&& r == Err::<u64, FailureSignal>(FailureSignal)
                            &&& final(self).counter_value() == old(self).counter_value()
                            &&& final(self).lock_state() == LockState::Contaminated
                        }
                    } else {
                        &&& r == Err::<u64, FailureSignal>(FailureSignal)
                        &&& final(self).counter_value() == old(self).counter_value()
                        &&& final(self).lock_state() == LockState::Contaminated
                    }
                },
                Computation::FailHoldingLock => {
                    &&& r == Err::<u64, FailureSignal>(FailureSignal)
                    &&& final(self).sent_log() == old(self).sent_log()
                    &&& final(self).queued() == old(self).queued()
                    &&& final(self).live_senders() == old(self).live_senders()
                    &&& final(self).holders() == old(self).holders() - 1
                    &&& final(self).counter_value() == old(self).counter_value()
                    &&& final(self).lock_state() == LockState::Contaminated
                },
                Computation::Produce(msgs) => {
                    &&& final(self).counter_value() == old(self).counter_value()
                    &&& final(self).lock_state() == old(self).lock_state()
                    &&& final(self).holders() == old(self).holders()
                    &&& final(self).live_senders() == old(self).live_senders() - 1
                    &&& if old(self).receiver_live() {
                        &&& r matches Ok(c) && c == msgs@.len()
                        &&& final(self).sent_log() == old(self).sent_log()
                            + crate::channel::tagged(
                            old(self).unit_sender_index(h.id() as int),
                            texts_of(msgs),
                        )
                        &&& final(self).queued() == old(self).queued() + crate::channel::tagged(
                            old(self).unit_sender_index(h.id() as int),
                            texts_of(msgs),
                        )
                    } else {
                        &&& final(self).sent_log() == old(self).sent_log()
                        &&& final(self).queued() == old(self).queued()
                        &&& if msgs@.len() == 0 {
                            r == Ok::<u64, FailureSignal>(0)
                        } else {
                            r == Err::<u64, FailureSignal>(FailureSignal)
                        }
                    }
                },
            },
    {
        let i = h.id;
        let ghost w = old(self).unit_work(h.id() as int);
        let slot = self.units.remove(i);
        let unit = match slot {
            UnitSlot::Running(u) => u,
            UnitSlot::Joined => vstd::pervasive::unreached(),
        };
        let WorkUnit { work, sender, handle } = unit;
        proof {
            assert(old(self).unit_ok(i as int));
            lemma_handle_count_update(old(self).units@, i as int, UnitSlot::Joined);
        }
        let outcome: Result<u64, FailureSignal> = match work {
            Computation::Finish(v) => Ok(v),
            Computation::Fail => Err(FailureSignal),
            Computation::AddOne => {
                let hnd = match handle {
                    Some(x) => x,
                    None => vstd::pervasive::unreached(),
                };
                let res = match self.counter.acquire(&hnd) {
                    Ok(_) => {
                        let v = self.counter.read_locked();
                        if v < u64::MAX {
                            self.counter.write_locked(v + 1);
                            self.counter.release();
                            Ok(v + 1)
                        } else {
                            self.counter.abandon();
                            Err(FailureSignal)
                        }
                    },
                    Err(_) => Err(FailureSignal),
                };
                self.counter.drop_handle(hnd);
                res
            },
            Computation::FailHoldingLock => {
                let hnd = match handle {
                    Some(x) => x,
                    None => vstd::pervasive::unreached(),
                };
                match self.counter.acquire(&hnd) {
                    Ok(_) => {
                        self.counter.abandon();
                    },
                    Err(_) => {},
                }
                self.counter.drop_handle(hnd);
                Err(FailureSignal)
            },
            Computation::Produce(msgs) => {
                let snd = match sender {
                    Some(s) => s,
                    None => vstd::pervasive::unreached(),
                };
                let ghost si = snd.index();
                let ghost texts = msgs@.map_values(|s: String| s@);
                let mut k: usize = 0;
                let mut ok: bool = true;
                while ok && k < msgs.len()
                    invariant
                        self.units@ == old(self).units@.remove(h.id() as int),
                        self.main_sender == old(self).main_sender,
                        self.receiver == old(self).receiver,
                        self.counter == old(self).counter,
                        self.channel.wf(),
                        self.channel.holds(snd),
                        snd.index() == si,
                        forall|t: Sender|
                            self.channel.holds(t) == old(self).channel.holds(t),
                        self.channel.receiver_live() == old(self).channel.receiver_live(),
                        self.channel.live_senders() == old(self).channel.live_senders(),
                        self.channel.issued() == old(self).channel.issued(),
                        self.channel.delivered_log() == old(self).channel.delivered_log(),
                        k <= msgs@.len(),
                        texts == msgs@.map_values(|s: String| s@),
                        old(self).channel.receiver_live() ==> ok,
                        msgs@.len() == 0 ==> ok,
                        ok ==> self.channel.sent_log() == old(self).channel.sent_log()
                            + crate::channel::tagged(si, texts.take(k as int)),
                        ok ==> self.channel.queued() == old(self).channel.queued()
                            + crate::channel::tagged(si, texts.take(k as int)),
                        !old(self).channel.receiver_live() ==> self.channel.sent_log() == old(
                            self,
                        ).channel.sent_log() && self.channel.queued() == old(
                            self,
                        ).channel.queued() && k == 0,
                    decreases msgs@.len() - k + if ok {
                        1int
                    } else {
                        0int
                    },
                {
                    let m = msgs[k].clone();
                    let ghost sprev = self.channel.sent_log();
                    let ghost qprev = self.channel.queued();
                    match self.channel.send(&snd, m) {
                        Ok(_) => {
                            proof {
                                assert(m@ == texts[k as int]);
                                assert(texts.take(k + 1 as int) =~= texts.take(k as int).push(
                                    texts[k as int],
                                ));
                                assert(crate::channel::tagged(si, texts.take(k + 1 as int))
                                    =~= crate::channel::tagged(si, texts.take(k as int)).push(
                                    (si, texts[k as int]),
                                ));
                                assert(sprev.push((si, texts[k as int]))
                                    =~= old(self).channel.sent_log() + crate::channel::tagged(
                                    si,
                                    texts.take(k + 1 as int),
                                ));
                                assert(qprev.push((si, texts[k as int]))
                                    =~= old(self).channel.queued() + crate::channel::tagged(
                                    si,
                                    texts.take(k + 1 as int),
                                ));
                            }
                            k = k + 1;
                        },
                        Err(_) => {
                            ok = false;
                        },
                    }
                }
                self.channel.drop_sender(snd);
                proof {
                    if !old(self).channel.receiver_live() {
                        assert(crate::channel::tagged(si, texts.take(0)) =~= Seq::<Entry>::empty());
                        assert(self.channel.sent_log() =~= old(self).channel.sent_log());
                        assert(self.channel.queued() =~= old(self).channel.queued());
                    }
                }
                if ok {
                    proof {
                        assert(texts.take(msgs@.len() as int) =~= texts);
                    }
                    let c = msgs.len();
                    Ok(c as u64)
                } else {
                    Err(FailureSignal)
                }
            },
        };
        self.units.insert(i, UnitSlot::Joined);
        proof {
            assert(self.units@ =~= old(self).units@.update(h.id() as int, UnitSlot::Joined));
            let iu = h.id() as int;
            assert forall|j: int| 0 <= j < self.units@.len() implies self.unit_ok(j) by {
                if j != iu {
                    assert(old(self).unit_ok(j));
                    match old(self).units@[j] {
                        UnitSlot::Running(u) => match u.sender {
                            Some(s) => {
                                if running_produce(old(self).units@[iu]) {
                                    assert(running_produce(old(self).units@[j]));
                                    assert(slot_sender_index(old(self).units@[j])
                                        != slot_sender_index(old(self).units@[iu]));
                                }
                                assert(self.channel.holds(s));
                            },
                            None => {},
                        },
                        UnitSlot::Joined => {},
                    }
                }
            }
        }
        outcome
    }

    /// Retires the orchestrator's own producer handle. Once every launched
    /// producer has been joined as well, the channel is disconnected.
    pub fn drop_main_sender(&mut self)
        requires
            old(self).wf(),
            old(self).has_main_sender(),
        ensures
            final(self).wf(),
            !final(self).has_main_sender(),
            final(self).live_senders() == old(self).live_senders() - 1,
            final(self).issued() == old(self).issued(),
            final(self).sent_log() == old(self).sent_log(),
            final(self).delivered_log() == old(self).delivered_log(),
            final(self).queued() == old(self).queued(),
            final(self).receiver_live() == old(self).receiver_live(),
            final(self).receiver_present() == old(self).receiver_present(),
            final(self).counter_value() == old(self).counter_value(),
            final(self).lock_state() == old(self).lock_state(),
            final(self).holders() == old(self).holders(),
            final(self).units_len() == old(self).units_len(),
            forall|i: int|
                0 <= i < old(self).units_len() ==> {
                    &&& final(self).unit_running(i) == old(self).unit_running(i)
                    &&& final(self).unit_work(i) == old(self).unit_work(i)
                    &&& final(self).unit_sender_index(i) == old(self).unit_sender_index(i)
                },
    {
        let s = match self.main_sender.take() {
            Some(s) => s,
            None => vstd::pervasive::unreached(),
        };
        self.channel.drop_sender(s);
        proof {
            assert forall|j: int| 0 <= j < self.units@.len() implies self.unit_ok(j) by {
                assert(old(self).unit_ok(j));
                match old(self).units@[j] {
                    UnitSlot::Running(u) => match u.sender {
                        Some(t) => {
                            if running_produce(old(self).units@[j]) {
                                assert(slot_sender_index(old(self).units@[j]) != s.index());
                            }
                        },
                        None => {},
                    },
                    UnitSlot::Joined => {},
                }
            }
        }
    }

    /// One blocking receive on the channel, performed by the orchestrator's
    /// own consuming end.
    pub fn recv_one(&mut self) -> (out: Result<String, crate::channel::Disconnected>)
        requires
            old(self).wf(),
            old(self).receiver_present(),
            old(self).queued().len() > 0 || old(self).live_senders() == 0,
        ensures
            final(self).wf(),
            final(self).receiver_present(),
            final(self).live_senders() == old(self).live_senders(),
            final(self).issued() == old(self).issued(),
            final(self).sent_log() == old(self).sent_log(),
            final(self).has_main_sender() == old(self).has_main_sender(),
            final(self).main_sender_index() == old(self).main_sender_index(),
            final(self).counter_value() == old(self).counter_value(),
            final(self).lock_state() == old(self).lock_state(),
            final(self).holders() == old(self).holders(),
            final(self).units_len() == old(self).units_len(),
            forall|i: int|
                0 <= i < old(self).units_len() ==> {
                    &&& final(self).unit_running(i) == old(self).unit_running(i)
                    &&& final(self).unit_work(i) == old(self).unit_work(i)
                    &&& final(self).unit_sender_index(i) == old(self).unit_sender_index(i)
                },
            if old(self).queued().len() > 0 {
                &&& out matches Ok(t) && t@ == old(self).queued()[0].1
                &&& final(self).queued() == old(self).queued().drop_first()
                &&& final(self).delivered_log() == old(self).delivered_log().push(
                    old(self).queued()[0],
                )
            } else {
                &&& out == Err::<String, crate::channel::Disconnected>(
                    crate::channel::Disconnected,
                )
                &&& final(self).queued() == old(self).queued()
                &&& final(self).delivered_log() == old(self).delivered_log()
            },
    {
        let out = match &self.receiver {
            Some(r) => self.channel.recv(r),
            None => vstd::pervasive::unreached(),
        };
        proof {
            assert forall|j: int| 0 <= j < self.units@.len() implies self.unit_ok(j) by {
                assert(old(self).unit_ok(j));
            }
        }
        out
    }

    /// Consumes the receiving end and collects every remaining message, in
    /// arrival order. Callable only once the channel is disconnected, which
    /// is when the iteration is guaranteed to end.
    pub fn drain(&mut self) -> (out: Vec<String>)
        requires
            old(self).wf(),
            old(self).receiver_present(),
            old(self).live_senders() == 0,
        ensures
            final(self).wf(),
            !final(self).receiver_present(),
            out@.map_values(|t: String| t@) == old(self).queued().map_values(|e: Entry| e.1),
            final(self).queued() == Seq::<Entry>::empty(),
            final(self).delivered_log() == old(self).delivered_log() + old(self).queued(),
            final(self).sent_log() == old(self).sent_log(),
            final(self).counter_value() == old(self).counter_value(),
            final(self).lock_state() == old(self).lock_state(),
            final(self).holders() == old(self).holders(),
    {
        let r = match self.receiver.take() {
            Some(r) => r,
            None => vstd::pervasive::unreached(),
        };
        let out = self.channel.iterate(r);
        proof {
            assert forall|j: int| 0 <= j < self.units@.len() implies self.unit_ok(j) by {
                assert(old(self).unit_ok(j));
            }
        }
        out
    }

    /// The final read of the counter, performed under the lock: the value,
    /// or `LockContaminated` if some holder died inside the critical section
    /// and nobody has cleared the lock since.
    pub fn report(&self) -> (r: Result<u64, LockContaminated>)
        requires
            self.wf(),
        ensures
            if self.lock_state() == LockState::Free {
                r == Ok::<u64, LockContaminated>(self.counter_value())
            } else {
                r == Err::<u64, LockContaminated>(LockContaminated)
            },
    {
        self.counter.read(&self.main_handle)
    }

    /// Explicitly acknowledges a contaminated counter lock, returning the
    /// possibly inconsistent value and making the lock usable again.
    pub fn acknowledge(&mut self) -> (r: u64)
        requires
            old(self).wf(),
            old(self).lock_state() == LockState::Contaminated,
        ensures
            final(self).wf(),
            r == old(self).counter_value(),
            final(self).lock_state() == LockState::Free,
            final(self).counter_value() == old(self).counter_value(),
            final(self).holders() == old(self).holders(),
            final(self).sent_log() == old(self).sent_log(),
            final(self).delivered_log() == old(self).delivered_log(),
            final(self).queued() == old(self).queued(),
            final(self).live_senders() == old(self).live_senders(),
            final(self).receiver_present() == old(self).receiver_present(),
            final(self).has_main_sender() == old(self).has_main_sender(),
            final(self).units_len() == old(self).units_len(),
            forall|i: int|
                0 <= i < old(self).units_len() ==> {
                    &&& final(self).unit_running(i) == old(self).unit_running(i)
                    &&& final(self).unit_work(i) == old(self).unit_work(i)
                    &&& final(self).unit_sender_index(i) == old(self).unit_sender_index(i)
                },
    {
        let r = self.counter.clear(&self.main_handle);
        proof {
            assert forall|j: int| 0 <= j < self.units@.len() implies self.unit_ok(j) by {
                assert(old(self).unit_ok(j));
            }
        }
        r
    }
}

/// First-in first-out per producer, seen from the orchestrator: whatever the
/// consuming end has observed from any one producer handle is exactly a
/// prefix of what that handle has sent, in the order it was sent — however
/// the launches, joins and receives were interleaved to reach this state.
pub proof fn lemma_orchestrator_fifo(o: Orchestrator, id: usize)
    requires
        o.wf(),
    ensures
        crate::channel::project(o.delivered_log(), id) == crate::channel::project(
            o.sent_log(),
            id,
        ).take(crate::channel::project(o.delivered_log(), id).len() as int),
{
    crate::channel::lemma_per_sender_fifo(o.channel, id);
}

/// One unit sends a single message; the orchestrator joins it, retires its
/// own producer handle, and receives exactly that message.
pub fn run_single_message(text: String) -> (r: String)
    ensures
        r@ == text@,
{
    let mut orch = Orchestrator::new(0);
    let mut batch: Vec<String> = Vec::new();
    let ghost t = text@;
    batch.push(text);
    let ghost texts = texts_of(batch);
    let h = orch.launch(Computation::Produce(batch));
    let joined = orch.join(h);
    orch.drop_main_sender();
    proof {
        assert(orch.queued().len() == texts.len());
        assert(orch.queued()[0].1 == t);
    }
    let got = orch.recv_one();
    match got {
        Ok(m) => m,
        Err(_) => vstd::pervasive::unreached(),
    }
}

/// Two producer units send their batches; the orchestrator joins both,
/// disconnects, and collects everything: all messages arrive, none is lost
/// or duplicated, and each batch keeps its internal order.
pub fn run_two_producers(batch_a: Vec<String>, batch_b: Vec<String>) -> (r: Vec<String>)
    ensures
        r@.map_values(|t: String| t@) == texts_of(batch_a) + texts_of(batch_b),
        r@.len() == batch_a@.len() + batch_b@.len(),
{
    let mut orch = Orchestrator::new(0);
    let ghost ta = texts_of(batch_a);
    let ghost tb = texts_of(batch_b);
    let h1 = orch.launch(Computation::Produce(batch_a));
    let h2 = orch.launch(Computation::Produce(batch_b));
    let r1 = orch.join(h1);
    let r2 = orch.join(h2);
    orch.drop_main_sender();
    let out = orch.drain();
    proof {
        assert(out@.map_values(|t: String| t@) =~= ta + tb);
    }
    out
}

/// Launches `n` units that each add one to a counter starting at `initial`,
/// joins them in any caller-chosen order, and reads the final value under
/// the lock: no update is lost, whatever the order, so the result is exactly
/// `initial + n`.
pub fn run_counter_round(initial: u64, n: usize, order: &Vec<usize>) -> (r: u64)
    requires
        initial + n <= u64::MAX,
        n <= usize::MAX - 1,
        order@.len() == n,
        forall|i: int| 0 <= i < n ==> order@[i] < n - i,
    ensures
        r == initial + n,
{
    let mut orch = Orchestrator::new(initial);
    let mut handles: Vec<JoinHandle> = Vec::new();
    let mut i: usize = 0;
    while i < n
        invariant
            orch.wf(),
            i <= n,
            n <= usize::MAX - 1,
            handles@.len() == i,
            orch.units_len() == i,
            forall|j: int| 0 <= j < i ==> (#[trigger] handles@[j].id()) == j,
            forall|j: int|
                0 <= j < i ==> orch.unit_running(j) && orch.unit_work(j) == Computation::AddOne,
            orch.counter_value() == initial,
            orch.lock_state() == LockState::Free,
            orch.holders() == 1 + i,
        decreases n - i,
    {
        let h = orch.launch(Computation::AddOne);
        handles.push(h);
        i = i + 1;
    }
    let mut joined: usize = 0;
    while joined < n
        invariant
            orch.wf(),
            joined <= n,
            initial + n <= u64::MAX,
            handles@.len() == n - joined,
            orch.units_len() == n,
            order@.len() == n,
            forall|i2: int| 0 <= i2 < n ==> order@[i2] < n - i2,
            orch.counter_value() == initial + joined,
            orch.lock_state() == LockState::Free,
            forall|j: int| 0 <= j < handles@.len() ==> (#[trigger] handles@[j].id()) < n,
            forall|j: int|
                0 <= j < handles@.len() ==> orch.unit_running(#[trigger] handles@[j].id() as int)
                    && orch.unit_work(handles@[j].id() as int) == Computation::AddOne,
            forall|j: int, k: int|
                0 <= j < handles@.len() && 0 <= k < handles@.len() && j != k ==> (
                #[trigger] handles@[j].id()) != (#[trigger] handles@[k].id()),
        decreases n - joined,
    {
        let ghost hprev = handles@;
        let k = order[joined];
        let h = handles.swap_remove(k);
        let ghost hid = h.id() as int;
        let res = orch.join(h);
        proof {
            assert forall|j: int| 0 <= j < handles@.len() implies {
                &&& (#[trigger] handles@[j].id()) < n
                &&& handles@[j].id() != hid
            } by {
                if j == k {
                    assert(handles@[j] == hprev[hprev.len() - 1]);
                } else {
                    assert(handles@[j] == hprev[j]);
                }
            }
        }
        joined = joined + 1;
    }
    let fin = orch.report();
    match fin {
        Ok(v) => v,
        Err(_) => vstd::pervasive::unreached(),
    }
}

/// Launches a unit that succeeds with a value, one that terminates
/// abnormally, and another that succeeds; joins all three — never stopping
/// at the failure — and aggregates the outcomes: the successes in launch
/// order, and the count of failures.
pub fn run_report() -> (r: (Vec<u64>, usize))
    ensures
        r.0@ == seq![7u64, 9u64],
        r.1 == 1,
{
    let mut orch = Orchestrator::new(0);
    let h1 = orch.launch(Computation::Finish(7));
    let h2 = orch.launch(Computation::Fail);
    let h3 = orch.launch(Computation::Finish(9));
    let mut successes: Vec<u64> = Vec::new();
    let mut failures: usize = 0;
    match orch.join(h1) {
        Ok(v) => successes.push(v),
        Err(_) => failures = failures + 1,
    }
    match orch.join(h2) {
        Ok(v) => successes.push(v),
        Err(_) => failures = failures + 1,
    }
    match orch.join(h3) {
        Ok(v) => successes.push(v),
        Err(_) => failures = failures + 1,
    }
    proof {
        assert(successes@ =~= seq![7u64, 9u64]);
    }
    (successes, failures)
}

/// A unit dies while holding the counter lock: its failure surfaces at
/// `join`, the lock is left contaminated, a later unit's locked update fails
/// with the same signal, and only an explicit acknowledgement makes the
/// counter usable again, its value untouched.
pub fn run_contamination_round(initial: u64) -> (r: (
    Result<u64, FailureSignal>,
    Result<u64, FailureSignal>,
    u64,
))
    ensures
        r.0 == Err::<u64, FailureSignal>(FailureSignal),
        r.1 == Err::<u64, FailureSignal>(FailureSignal),
        r.2 == initial,
{
    let mut orch = Orchestrator::new(initial);
    let h1 = orch.launch(Computation::FailHoldingLock);
    let r1 = orch.join(h1);
    let h2 = orch.launch(Computation::AddOne);
    let r2 = orch.join(h2);
    let cleared = orch.acknowledge();
    let fin = orch.report();
    let value = match fin {
        Ok(v) => v,
        Err(_) => vstd::pervasive::unreached(),
    };
    (r1, r2, value)
}

} // verus!
