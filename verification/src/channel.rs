//! A multi-producer single-consumer FIFO channel, modelled explicitly.
//!
//! The `Channel` value owns the queue and all bookkeeping; `Sender` and
//! `Receiver` are unforgeable capability tokens handed out by `create`.
//! Two ghost logs record the full history of the channel: every message
//! ever enqueued (`sent_log`) and every message ever handed to the
//! consumer (`delivered_log`). The well-formedness invariant ties the two
//! logs to the queue, which is what makes the ordering and conservation
//! lemmas at the bottom of this file provable.

use vstd::prelude::*;

verus! {

/// A history entry: the identity of the producer handle, and the text it sent.
pub type Entry = (usize, Seq<char>);

/// One queued message, tagged with the producer handle that enqueued it.
struct Message {
    from: usize,
    text: String,
}

/// Returned by `send` when the receiving end no longer exists.
#[derive(Clone, Copy, PartialEq, Eq, Structural, Debug)]
pub struct SendError;

/// Returned by `recv` when every producer handle has been dropped and the
/// queue is empty: the normal end of the stream, not a failure.
#[derive(Clone, Copy, PartialEq, Eq, Structural, Debug)]
pub struct Disconnected;

/// A producer capability for one channel. Each handle has its own identity,
/// so the per-producer ordering guarantee can be stated handle by handle.
/// It is not `Clone`: new handles come only from `Channel::clone_sender`.
pub struct Sender {
    id: usize,
}

impl Sender {
    /// The identity of this producer handle inside its channel.
    pub closed spec fn index(&self) -> usize {
        self.id
    }
}

/// The unique consumer capability for one channel; never clonable.
pub struct Receiver {
    #[allow(dead_code)]
    token: bool,
}

/// How many of the issued producer handles are still live.
spec fn count_live(s: Seq<bool>) -> nat
    decreases s.len(),
{
    if s.len() == 0 {
        0
    } else {
        count_live(s.drop_last()) + if s.last() {
            1nat
        } else {
            0nat
        }
    }
}

proof fn lemma_count_le(s: Seq<bool>)
    ensures
        count_live(s) <= s.len(),
    decreases s.len(),
{
    if s.len() > 0 {
        lemma_count_le(s.drop_last());
    }
}

proof fn lemma_count_push(s: Seq<bool>, b: bool)
    ensures
        count_live(s.push(b)) == count_live(s) + if b {
            1nat
        } else {
            0nat
        },
{
    assert(s.push(b).drop_last() =~= s);
    assert(s.push(b).last() == b);
}

proof fn lemma_count_update_false(s: Seq<bool>, i: int)
    requires
        0 <= i < s.len(),
        s[i],
    ensures
        count_live(s) == count_live(s.update(i, false)) + 1,
    decreases s.len(),
{
    let t = s.update(i, false);
    if i == s.len() - 1 {
        assert(t.drop_last() =~= s.drop_last());
    } else {
        assert(t.drop_last() =~= s.drop_last().update(i, false));
        assert(t.last() == s.last());
        lemma_count_update_false(s.drop_last(), i);
    }
}

/// An MPSC FIFO queue together with the ghost history of everything that has
/// ever passed through it.
pub struct Channel {
    queue: Vec<Message>,
    alive: Vec<bool>,
    live: usize,
    receiver_alive: bool,
    sent: Ghost<Seq<Entry>>,
    delivered: Ghost<Seq<Entry>>,
}

impl Channel {
    /// The messages currently buffered, oldest first.
    pub closed spec fn queued(self) -> Seq<Entry> {
        self.queue@.map_values(|m: Message| (m.from, m.text@))
    }

    /// Every message ever accepted by `send`, in the order the sends happened.
    pub closed spec fn sent_log(self) -> Seq<Entry> {
        self.sent@
    }

    /// Every message ever handed out by `recv`, in the order of delivery.
    pub closed spec fn delivered_log(self) -> Seq<Entry> {
        self.delivered@
    }

    /// How many producer handles are currently live.
    pub closed spec fn live_senders(self) -> usize {
        self.live
    }

    /// How many producer handles have ever been issued.
    pub closed spec fn issued(self) -> nat {
        self.alive@.len()
    }

    /// Does this channel recognise `s` as one of its live producer handles?
    pub closed spec fn holds(self, s: Sender) -> bool {
        s.index() < self.alive@.len() && self.alive@[s.index() as int]
    }

    /// Is the consuming end still present?
    pub closed spec fn receiver_live(self) -> bool {
        self.receiver_alive
    }

    /// The internal invariant: the live count matches the handle table, and
    /// what was sent is exactly what was delivered followed by what is still
    /// queued.
    pub closed spec fn wf(self) -> bool {
        &&& self.live == count_live(self.alive@)
        &&& self.delivered@ + self.queued() == self.sent@
    }

    /// Constructs an empty channel with one producer handle and the unique
    /// consumer handle.
    pub fn create() -> (r: (Channel, Sender, Receiver))
        ensures
            r.0.wf(),
            r.0.queued() == Seq::<Entry>::empty(),
            r.0.sent_log() == Seq::<Entry>::empty(),
            r.0.delivered_log() == Seq::<Entry>::empty(),
            r.0.live_senders() == 1,
            r.0.issued() == 1,
            r.0.holds(r.1),
            r.1.index() == 0,
            r.0.receiver_live(),
    {
        let mut alive: Vec<bool> = Vec::new();
        alive.push(true);
        let c = Channel {
            queue: Vec::new(),
            alive,
            live: 1,
            receiver_alive: true,
            sent: Ghost(Seq::empty()),
            delivered: Ghost(Seq::empty()),
        };
        proof {
            lemma_count_push(Seq::empty(), true);
            assert(c.queued() =~= Seq::<Entry>::empty());
            assert(c.delivered@ + c.queued() =~= c.sent@);
        }
        (c, Sender { id: 0 }, Receiver { token: true })
    }

    /// Enqueues `text` at the tail. Never blocks; fails exactly when the
    /// receiving end has been dropped, in which case nothing changes.
    pub fn send(&mut self, from: &Sender, text: String) -> (r: Result<(), SendError>)
        requires
            old(self).wf(),
            old(self).holds(*from),
        ensures
            final(self).wf(),
            final(self).live_senders() == old(self).live_senders(),
            final(self).issued() == old(self).issued(),
            forall|s: Sender| final(self).holds(s) == old(self).holds(s),
            final(self).receiver_live() == old(self).receiver_live(),
            final(self).delivered_log() == old(self).delivered_log(),
            if old(self).receiver_live() {
                &&& r is Ok
                &&& final(self).sent_log() == old(self).sent_log().push((from.index(), text@))
                &&& final(self).queued() == old(self).queued().push((from.index(), text@))
            } else {
                &&& r == Err::<(), SendError>(SendError)
                &&& final(self).sent_log() == old(self).sent_log()
                &&& final(self).queued() == old(self).queued()
            },
    {
        if self.receiver_alive {
            let ghost entry = (from.id, text@);
            self.queue.push(Message { from: from.id, text });
            proof {
                self.sent@ = self.sent@.push(entry);
                assert(self.queued() =~= old(self).queued().push(entry));
                assert(self.delivered@ + self.queued() =~= (old(self).delivered@
                    + old(self).queued()).push(entry));
            }
            Ok(())
        } else {
            Err(SendError)
        }
    }

    /// Issues a fresh, independent producer handle for the same queue.
    pub fn clone_sender(&mut self, from: &Sender) -> (r: Sender)
        requires
            old(self).wf(),
            old(self).holds(*from),
        ensures
            final(self).wf(),
            r.index() == old(self).issued(),
            final(self).issued() == old(self).issued() + 1,
            final(self).holds(r),
            final(self).live_senders() == old(self).live_senders() + 1,
            forall|s: Sender|
                s.index() < old(self).issued() ==> final(self).holds(s) == old(self).holds(s),
            final(self).holds(*from),
            final(self).queued() == old(self).queued(),
            final(self).sent_log() == old(self).sent_log(),
            final(self).delivered_log() == old(self).delivered_log(),
            final(self).receiver_live() == old(self).receiver_live(),
    {
        let id = self.alive.len();
        self.alive.push(true);
        let n = self.alive.len();
        proof {
            lemma_count_le(old(self).alive@);
            lemma_count_push(old(self).alive@, true);
            assert(self.live < n);
        }
        self.live = self.live + 1;
        Sender { id }
    }

    /// Retires a producer handle. When the last one goes, the channel is
    /// disconnected and the consumer sees end of stream.
    pub fn drop_sender(&mut self, s: Sender)
        requires
            old(self).wf(),
            old(self).holds(s),
        ensures
            final(self).wf(),
            final(self).live_senders() == old(self).live_senders() - 1,
            final(self).issued() == old(self).issued(),
            !final(self).holds(s),
            forall|t: Sender| t.index() != s.index() ==> final(self).holds(t) == old(self).holds(t),
            final(self).queued() == old(self).queued(),
            final(self).sent_log() == old(self).sent_log(),
            final(self).delivered_log() == old(self).delivered_log(),
            final(self).receiver_live() == old(self).receiver_live(),
    {
        proof {
            lemma_count_update_false(self.alive@, s.index() as int);
        }
        self.alive[s.id] = false;
        self.live = self.live - 1;
    }

    /// Takes the oldest buffered message. The model forbids the one call that
    /// would block forever: an empty queue with producers still live. With
    /// the queue empty and no producer left, the result is `Disconnected`.
    pub fn recv(&mut self, r: &Receiver) -> (out: Result<String, Disconnected>)
        requires
            old(self).wf(),
            old(self).receiver_live(),
            old(self).queued().len() > 0 || old(self).live_senders() == 0,
        ensures
            final(self).wf(),
            final(self).receiver_live(),
            final(self).live_senders() == old(self).live_senders(),
            final(self).issued() == old(self).issued(),
            forall|s: Sender| final(self).holds(s) == old(self).holds(s),
            final(self).sent_log() == old(self).sent_log(),
            if old(self).queued().len() > 0 {
                &&& out matches Ok(t) && t@ == old(self).queued()[0].1
                &&& final(self).queued() == old(self).queued().drop_first()
                &&& final(self).delivered_log() == old(self).delivered_log().push(
                    old(self).queued()[0],
                )
            } else {
                &&& out == Err::<String, Disconnected>(Disconnected)
                &&& final(self).queued() == old(self).queued()
                &&& final(self).delivered_log() == old(self).delivered_log()
            },
    {
        if self.queue.len() > 0 {
            let m = self.queue.remove(0);
            let ghost entry = (m.from, m.text@);
            proof {
                assert(old(self).queued()[0] == entry);
                self.delivered@ = self.delivered@.push(entry);
                assert(self.queued() =~= old(self).queued().drop_first());
                assert(self.delivered@ + self.queued() =~= old(self).delivered@
                    + old(self).queued());
            }
            Ok(m.text)
        } else {
            Err(Disconnected)
        }
    }

    /// Retires the consuming end; every later `send` will fail.
    pub fn drop_receiver(&mut self, r: Receiver)
        requires
            old(self).wf(),
            old(self).receiver_live(),
        ensures
            final(self).wf(),
            !final(self).receiver_live(),
            final(self).live_senders() == old(self).live_senders(),
            final(self).issued() == old(self).issued(),
            forall|s: Sender| final(self).holds(s) == old(self).holds(s),
            final(self).queued() == old(self).queued(),
            final(self).sent_log() == old(self).sent_log(),
            final(self).delivered_log() == old(self).delivered_log(),
    {
        self.receiver_alive = false;
    }

    /// Consuming iteration over the receiving end: yields the remaining
    /// messages in arrival order and ends exactly when the channel reports
    /// `Disconnected`. Requires the channel to be disconnected already, since
    /// in the sequential model a live producer would make the iteration block.
    pub fn iterate(&mut self, r: Receiver) -> (out: Vec<String>)
        requires
            old(self).wf(),
            old(self).receiver_live(),
            old(self).live_senders() == 0,
        ensures
            final(self).wf(),
            !final(self).receiver_live(),
            final(self).live_senders() == 0,
            final(self).issued() == old(self).issued(),
            forall|s: Sender| final(self).holds(s) == old(self).holds(s),
            out@.map_values(|t: String| t@) == old(self).queued().map_values(|e: Entry| e.1),
            final(self).queued() == Seq::<Entry>::empty(),
            final(self).delivered_log() == old(self).delivered_log() + old(self).queued(),
            final(self).sent_log() == old(self).sent_log(),
    {
        let mut out: Vec<String> = Vec::new();
        let ghost total = old(self).queued();
        loop
            invariant
                self.wf(),
                self.receiver_live(),
                self.live_senders() == 0,
                self.issued() == old(self).issued(),
                self.alive@ == old(self).alive@,
                self.sent_log() == old(self).sent_log(),
                out@.len() <= total.len(),
                forall|i: int| 0 <= i < out@.len() ==> #[trigger] out@[i]@ == total[i].1,
                self.queued() == total.skip(out@.len() as int),
                self.delivered_log() == old(self).delivered_log() + total.take(out@.len() as int),
                total == old(self).queued(),
            ensures
                self.queued().len() == 0,
            decreases self.queued().len(),
        {
            if self.queue.len() == 0 {
                proof {
                    assert(self.queued() =~= Seq::<Entry>::empty());
                }
                break ;
            }
            let ghost n = out@.len() as int;
            let ghost dprev = self.delivered@;
            let ghost sprev = self.sent@;
            let m = self.queue.remove(0);
            let ghost entry = (m.from, m.text@);
            proof {
                self.delivered@ = self.delivered@.push(entry);
                assert(total.skip(n)[0] == total[n]);
                assert(entry == total[n]);
            }
            out.push(m.text);
            proof {
                assert forall|i: int| 0 <= i < self.queued().len() implies self.queued()[i]
                    == total.skip(n + 1)[i] by {
                    assert(self.queued()[i] == total.skip(n)[i + 1]);
                }
                assert(self.queued() =~= total.skip(n + 1));
                assert(total.take(n + 1) =~= total.take(n).push(total[n]));
                assert(self.delivered_log() =~= old(self).delivered_log() + total.take(n + 1));
                assert(self.delivered@ + self.queued() =~= dprev + total.skip(n));
                assert(self.delivered@ + self.queued() == sprev);
            }
        }
        proof {
            assert(self.queued().len() == 0);
            assert(out@.len() == total.len());
            assert(out@.map_values(|t: String| t@) =~= total.map_values(|e: Entry| e.1));
            assert(self.queued() =~= Seq::<Entry>::empty());
            assert(total.take(out@.len() as int) =~= total);
        }
        self.drop_receiver(r);
        out
    }

    /// The messages this producer handle has sent, in order.
    pub open spec fn sent_by(self, id: usize) -> Seq<Seq<char>> {
        project(self.sent_log(), id)
    }

    /// The messages from this producer handle that the consumer has observed,
    /// in order.
    pub open spec fn delivered_by(self, id: usize) -> Seq<Seq<char>> {
        project(self.delivered_log(), id)
    }
}

/// The texts in `log` that producer handle `id` accounts for, in log order.
pub open spec fn project(log: Seq<Entry>, id: usize) -> Seq<Seq<char>> {
    log.filter(|e: Entry| e.0 == id).map_values(|e: Entry| e.1)
}

/// The history entries a producer with identity `id` contributes by sending
/// each element of `texts` in order.
pub open spec fn tagged(id: usize, texts: Seq<Seq<char>>) -> Seq<Entry> {
    texts.map_values(|t: Seq<char>| (id, t))
}

proof fn lemma_map_values_add<A, B>(a: Seq<A>, b: Seq<A>, f: spec_fn(A) -> B)
    ensures
        (a + b).map_values(f) == a.map_values(f) + b.map_values(f),
{
    assert((a + b).map_values(f) =~= a.map_values(f) + b.map_values(f));
}

/// First-in first-out, per producer: at any well-formed state, what the
/// consumer has observed from producer `id` is exactly a prefix of what that
/// producer has sent, in the order it was sent.
pub proof fn lemma_per_sender_fifo(ch: Channel, id: usize)
    requires
        ch.wf(),
    ensures
        ch.delivered_by(id).len() <= ch.sent_by(id).len(),
        ch.delivered_by(id) == ch.sent_by(id).take(ch.delivered_by(id).len() as int),
{
    let pred = |e: Entry| e.0 == id;
    let f = |e: Entry| e.1;
    Seq::filter_distributes_over_add(ch.delivered_log(), ch.queued(), pred);
    lemma_map_values_add(ch.delivered_log().filter(pred), ch.queued().filter(pred), f);
    assert(ch.sent_by(id) == ch.delivered_by(id) + project(ch.queued(), id));
    assert(ch.delivered_by(id) =~= (ch.delivered_by(id) + project(ch.queued(), id)).take(
        ch.delivered_by(id).len() as int,
    ));
}

/// A handle a channel recognises is one that it issued.
pub proof fn lemma_holds_bound(ch: Channel, s: Sender)
    requires
        ch.holds(s),
    ensures
        (s.index() as nat) < ch.issued(),
{
}

/// Conservation: every message sent is either already delivered or still
/// queued; none is duplicated, none is lost.
pub proof fn lemma_conservation(ch: Channel)
    requires
        ch.wf(),
    ensures
        ch.delivered_log().len() + ch.queued().len() == ch.sent_log().len(),
{
}

/// Once the queue is drained, the delivery log equals the send log exactly:
/// the consumer observed every message, each exactly once.
pub proof fn lemma_drained_complete(ch: Channel)
    requires
        ch.wf(),
        ch.queued().len() == 0,
    ensures
        ch.delivered_log() == ch.sent_log(),
{
    assert(ch.delivered_log() + ch.queued() =~= ch.delivered_log());
}

} // verus!
