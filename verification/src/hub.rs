//! The hub: the single owner of subscriber registration and message fan-out.
//!
//! The hub keeps the registry of live subscribers, each holding a bounded
//! FIFO queue of framed messages. All mutations go through the hub, one at
//! a time, so every operation is specified as a pure transition on the
//! mathematical model [`HubModel`] and the executable code is proved to
//! realize exactly that transition.

use vstd::prelude::*;

use crate::frame::{connected_frame, connected_message, frame, framed, ping_frame, ping_message};

verus! {

/// Queue capacity used by [`Hub::create`], bounding the backlog a
/// subscriber may accumulate before deliveries to it are dropped.
pub const DEFAULT_QUEUE_CAPACITY: usize = 100;

/// One registered subscriber: an opaque identity, a bounded FIFO queue of
/// framed messages, and its liveness state.
///
/// `live` records whether the hub still holds the subscriber in its
/// registry; a sweep clears it when a ping fails. `consumer_gone` records
/// that the consumer side has disconnected; the hub notices only lazily,
/// at the next enqueue attempt.
pub struct Subscriber {
    id: u64,
    queue: Vec<String>,
    capacity: usize,
    consumer_gone: bool,
    live: bool,
}

/// The mathematical model of one subscriber.
#[verifier::ext_equal]
pub struct SubscriberModel {
    /// The identity the subscriber is registered under.
    pub id: nat,
    /// The queued frames, oldest first.
    pub msgs: Seq<Seq<char>>,
    /// The fixed queue bound; enqueues beyond it are dropped.
    pub capacity: nat,
    /// Whether the consumer side has disconnected.
    pub consumer_gone: bool,
    /// Whether the subscriber is still in the registry.
    pub live: bool,
}

impl View for Subscriber {
    type V = SubscriberModel;

    closed spec fn view(&self) -> SubscriberModel {
        SubscriberModel {
            id: self.id as nat,
            msgs: self.queue@.map_values(|m: String| m@),
            capacity: self.capacity as nat,
            consumer_gone: self.consumer_gone,
            live: self.live,
        }
    }
}

/// What a consumer sees when it asks its stream for the next message:
/// a frame, nothing yet (the stream would block), or end-of-stream.
#[derive(Debug, PartialEq, Eq)]
pub enum StreamNext {
    /// The oldest queued frame, now dequeued.
    Ready(String),
    /// The queue is empty but the subscriber is still registered.
    Pending,
    /// The subscriber was evicted and its queue is drained: the stream ends.
    End,
}

/// The hub: the registry of subscribers plus the generation counter that
/// makes identity allocation infallible.
pub struct Hub {
    subs: Vec<Subscriber>,
    next_id: u64,
    capacity: usize,
}

/// The mathematical model of the hub.
#[verifier::ext_equal]
pub struct HubModel {
    /// Every subscriber ever registered, in registration order. Evicted
    /// ones stay, marked not live, so their consumers can drain what was
    /// already queued; the registry is the live ones.
    pub subs: Seq<SubscriberModel>,
    /// The next identity to hand out; strictly above every issued one.
    pub next_id: nat,
    /// The queue capacity given to every new subscriber.
    pub capacity: nat,
}

impl View for Hub {
    type V = HubModel;

    closed spec fn view(&self) -> HubModel {
        HubModel {
            subs: self.subs@.map_values(|s: Subscriber| s@),
            next_id: self.next_id as nat,
            capacity: self.capacity as nat,
        }
    }
}

// ---------------------------------------------------------------------------
// The model: transitions
// ---------------------------------------------------------------------------

/// A subscriber can take one more frame: it is registered, its consumer is
/// still attached, and its queue has room.
pub open spec fn can_accept(s: SubscriberModel) -> bool {
    s.live && !s.consumer_gone && s.msgs.len() < s.capacity
}

/// Best-effort delivery of one frame: append it if the subscriber can take
/// it, otherwise drop it silently and leave the subscriber unchanged.
pub open spec fn deliver(s: SubscriberModel, m: Seq<char>) -> SubscriberModel {
    if can_accept(s) {
        SubscriberModel { msgs: s.msgs.push(m), ..s }
    } else {
        s
    }
}

/// One sweep step on one subscriber: a live one keeps its place exactly
/// when the ping fits in its queue; any failed ping — full queue or gone
/// consumer alike — evicts it unconditionally.
pub open spec fn sweep_one(s: SubscriberModel) -> SubscriberModel {
    if !s.live {
        s
    } else if can_accept(s) {
        SubscriberModel { msgs: s.msgs.push(ping_frame()), ..s }
    } else {
        SubscriberModel { live: false, ..s }
    }
}

/// One pull by the consumer: dequeue the oldest frame, if any.
pub open spec fn pull_one(s: SubscriberModel) -> SubscriberModel {
    if s.msgs.len() > 0 {
        SubscriberModel { msgs: s.msgs.drop_first(), ..s }
    } else {
        s
    }
}

/// A freshly registered subscriber: open, live, holding just the connect
/// sentinel.
pub open spec fn fresh_subscriber(id: nat, capacity: nat) -> SubscriberModel {
    SubscriberModel {
        id: id,
        msgs: seq![connected_frame()],
        capacity: capacity,
        consumer_gone: false,
        live: true,
    }
}

/// A hub with no subscribers yet.
pub open spec fn empty_hub(capacity: nat) -> HubModel {
    HubModel { subs: Seq::empty(), next_id: 0, capacity: capacity }
}

/// The `subscribe` transition: register a fresh subscriber under the next
/// identity and advance the generation counter.
pub open spec fn subscribe_tr(h: HubModel) -> HubModel {
    HubModel {
        subs: h.subs.push(fresh_subscriber(h.next_id, h.capacity)),
        next_id: h.next_id + 1,
        ..h
    }
}

/// The `publish` transition: offer the framed payload to every subscriber;
/// each one takes it exactly when it can, and nobody is removed.
pub open spec fn publish_tr(h: HubModel, payload: Seq<char>) -> HubModel {
    HubModel { subs: h.subs.map_values(|s: SubscriberModel| deliver(s, framed(payload))), ..h }
}

/// The `sweep` transition: offer a ping to every live subscriber and keep
/// exactly the ones that took it.
pub open spec fn sweep_tr(h: HubModel) -> HubModel {
    HubModel { subs: h.subs.map_values(|s: SubscriberModel| sweep_one(s)), ..h }
}

/// A disconnect as it falls on one subscriber: the one with the given
/// identity loses its consumer, everyone else is untouched.
pub open spec fn disconnect_one(s: SubscriberModel, id: nat) -> SubscriberModel {
    if s.id == id {
        SubscriberModel { consumer_gone: true, ..s }
    } else {
        s
    }
}

/// The consumer-disconnect transition: the subscriber with this identity
/// loses its consumer; the hub will notice at the next enqueue attempt.
pub open spec fn disconnect_tr(h: HubModel, id: nat) -> HubModel {
    HubModel { subs: h.subs.map_values(|s: SubscriberModel| disconnect_one(s, id)), ..h }
}

/// A pull as it falls on one subscriber: the one with the given identity
/// gives up its oldest queued frame, everyone else is untouched.
pub open spec fn pull_at(s: SubscriberModel, id: nat) -> SubscriberModel {
    if s.id == id {
        pull_one(s)
    } else {
        s
    }
}

/// The consumer-pull transition: the subscriber with this identity gives
/// up its oldest queued frame.
pub open spec fn pull_tr(h: HubModel, id: nat) -> HubModel {
    HubModel { subs: h.subs.map_values(|s: SubscriberModel| pull_at(s, id)), ..h }
}

// ---------------------------------------------------------------------------
// The model: registry and identities
// ---------------------------------------------------------------------------

/// How many subscribers are live, i.e. the size of the registry.
pub open spec fn live_count(subs: Seq<SubscriberModel>) -> nat
    decreases subs.len(),
{
    if subs.len() == 0 {
        0
    } else {
        live_count(subs.drop_last()) + (if subs.last().live {
            1nat
        } else {
            0nat
        })
    }
}

/// Whether some subscriber holds this identity.
pub open spec fn has_id(subs: Seq<SubscriberModel>, id: nat) -> bool {
    exists|i: int| 0 <= i < subs.len() && (#[trigger] subs[i]).id == id
}

/// The position of the subscriber with this identity (identities are
/// unique in a well-formed hub).
pub open spec fn index_of_id(subs: Seq<SubscriberModel>, id: nat) -> int {
    choose|i: int| 0 <= i < subs.len() && (#[trigger] subs[i]).id == id
}

/// The subscriber with this identity.
pub open spec fn sub_with_id(subs: Seq<SubscriberModel>, id: nat) -> SubscriberModel {
    subs[index_of_id(subs, id)]
}

impl HubModel {
    /// The hub's invariant: identities are unique and below the generation
    /// counter, every queue respects its bound, and every subscriber was
    /// given the hub's (positive) capacity.
    pub open spec fn wf(self) -> bool {
        &&& self.capacity >= 1
        &&& forall|i: int, j: int|
            0 <= i < j < self.subs.len() ==> (#[trigger] self.subs[i]).id != (
            #[trigger] self.subs[j]).id
        &&& forall|i: int| 0 <= i < self.subs.len() ==> (#[trigger] self.subs[i]).id < self.next_id
        &&& forall|i: int|
            0 <= i < self.subs.len() ==> (#[trigger] self.subs[i]).msgs.len() <= self.subs[i].capacity
        &&& forall|i: int|
            0 <= i < self.subs.len() ==> (#[trigger] self.subs[i]).capacity == self.capacity
    }
}

// ---------------------------------------------------------------------------
// The invariant is preserved by every transition
// ---------------------------------------------------------------------------

/// Registering a subscriber keeps the hub well-formed: the fresh identity
/// equals the generation counter, which sits above every issued identity.
pub proof fn lemma_subscribe_preserves_wf(h: HubModel)
    requires
        h.wf(),
    ensures
        subscribe_tr(h).wf(),
{
    let h2 = subscribe_tr(h);
    assert forall|i: int, j: int| 0 <= i < j < h2.subs.len() implies (#[trigger] h2.subs[i]).id != (
    #[trigger] h2.subs[j]).id by {
        if j == h.subs.len() {
            assert(h.subs[i].id < h.next_id);
        }
    }
}

/// Fan-out keeps the hub well-formed: a delivery touches only the queue,
/// and only when there is room for one more frame.
pub proof fn lemma_publish_preserves_wf(h: HubModel, payload: Seq<char>)
    requires
        h.wf(),
    ensures
        publish_tr(h, payload).wf(),
{
    let h2 = publish_tr(h, payload);
    assert forall|i: int| 0 <= i < h2.subs.len() implies (#[trigger] h2.subs[i]).msgs.len()
        <= h2.subs[i].capacity by {
        assert(h2.subs[i] == deliver(h.subs[i], framed(payload)));
    }
    assert forall|i: int, j: int| 0 <= i < j < h2.subs.len() implies (#[trigger] h2.subs[i]).id != (
    #[trigger] h2.subs[j]).id by {
        assert(h2.subs[i] == deliver(h.subs[i], framed(payload)));
        assert(h2.subs[j] == deliver(h.subs[j], framed(payload)));
    }
}

/// A sweep keeps the hub well-formed: it touches queues and liveness
/// flags, never identities or capacities.
pub proof fn lemma_sweep_preserves_wf(h: HubModel)
    requires
        h.wf(),
    ensures
        sweep_tr(h).wf(),
{
    let h2 = sweep_tr(h);
    assert forall|i: int| 0 <= i < h2.subs.len() implies (#[trigger] h2.subs[i]).msgs.len()
        <= h2.subs[i].capacity by {
        assert(h2.subs[i] == sweep_one(h.subs[i]));
    }
    assert forall|i: int, j: int| 0 <= i < j < h2.subs.len() implies (#[trigger] h2.subs[i]).id != (
    #[trigger] h2.subs[j]).id by {
        assert(h2.subs[i] == sweep_one(h.subs[i]));
        assert(h2.subs[j] == sweep_one(h.subs[j]));
    }
}

/// A consumer disconnect keeps the hub well-formed: it only sets a flag.
pub proof fn lemma_disconnect_preserves_wf(h: HubModel, id: nat)
    requires
        h.wf(),
    ensures
        disconnect_tr(h, id).wf(),
{
    let h2 = disconnect_tr(h, id);
    assert forall|i: int| 0 <= i < h2.subs.len() implies (#[trigger] h2.subs[i]).msgs.len()
        <= h2.subs[i].capacity by {
        assert(h2.subs[i] == disconnect_one(h.subs[i], id));
    }
    assert forall|i: int, j: int| 0 <= i < j < h2.subs.len() implies (#[trigger] h2.subs[i]).id != (
    #[trigger] h2.subs[j]).id by {
        assert(h2.subs[i] == disconnect_one(h.subs[i], id));
        assert(h2.subs[j] == disconnect_one(h.subs[j], id));
    }
}

/// A consumer pull keeps the hub well-formed: a queue only shrinks.
pub proof fn lemma_pull_preserves_wf(h: HubModel, id: nat)
    requires
        h.wf(),
    ensures
        pull_tr(h, id).wf(),
{
    let h2 = pull_tr(h, id);
    assert forall|i: int| 0 <= i < h2.subs.len() implies (#[trigger] h2.subs[i]).msgs.len()
        <= h2.subs[i].capacity by {
        assert(h2.subs[i] == pull_at(h.subs[i], id));
    }
    assert forall|i: int, j: int| 0 <= i < j < h2.subs.len() implies (#[trigger] h2.subs[i]).id != (
    #[trigger] h2.subs[j]).id by {
        assert(h2.subs[i] == pull_at(h.subs[i], id));
        assert(h2.subs[j] == pull_at(h.subs[j], id));
    }
}

/// In a hub with unique identities, the position holding a given identity
/// is the one `index_of_id` picks.
pub proof fn lemma_id_index(subs: Seq<SubscriberModel>, id: nat, i: int)
    requires
        forall|p: int, q: int|
            0 <= p < q < subs.len() ==> (#[trigger] subs[p]).id != (#[trigger] subs[q]).id,
        0 <= i < subs.len(),
        subs[i].id == id,
    ensures
        has_id(subs, id),
        index_of_id(subs, id) == i,
        sub_with_id(subs, id) == subs[i],
{
    assert(has_id(subs, id));
    let k = index_of_id(subs, id);
    assert(0 <= k < subs.len() && subs[k].id == id);
    if k < i {
        assert(subs[k].id != subs[i].id);
    } else if i < k {
        assert(subs[i].id != subs[k].id);
    }
}

// ---------------------------------------------------------------------------
// Executable delivery to one subscriber
// ---------------------------------------------------------------------------

/// Non-blocking enqueue of one frame: append it when the subscriber can
/// take it, drop it silently otherwise.
fn try_deliver(s: &mut Subscriber, msg: &String)
    ensures
        final(s)@ == deliver(old(s)@, msg@),
{
    if s.live && !s.consumer_gone && s.queue.len() < s.capacity {
        s.queue.push(msg.clone());
        proof {
            assert(s@.msgs =~= old(s)@.msgs.push(msg@));
            assert(s@ =~= deliver(old(s)@, msg@));
        }
    }
}

/// One sweep step: offer a ping to a live subscriber; keep it exactly
/// when the ping fits, evict it otherwise.
fn ping_sub(s: &mut Subscriber, ping: &String)
    requires
        ping@ == ping_frame(),
    ensures
        final(s)@ == sweep_one(old(s)@),
{
    if !s.live {
    } else if !s.consumer_gone && s.queue.len() < s.capacity {
        s.queue.push(ping.clone());
        proof {
            assert(s@.msgs =~= old(s)@.msgs.push(ping_frame()));
            assert(s@ =~= sweep_one(old(s)@));
        }
    } else {
        s.live = false;
        proof {
            assert(s@ =~= sweep_one(old(s)@));
        }
    }
}

/// One pull: dequeue the oldest frame if there is one; otherwise report
/// whether the stream is still open or has ended.
fn pull_sub(s: &mut Subscriber) -> (r: StreamNext)
    ensures
        final(s)@ == pull_one(old(s)@),
        (if old(s)@.msgs.len() > 0 {
            r matches StreamNext::Ready(m) && m@ == old(s)@.msgs[0]
        } else if old(s)@.live {
            r == StreamNext::Pending
        } else {
            r == StreamNext::End
        }),
{
    if s.queue.len() > 0 {
        let m = s.queue.remove(0);
        proof {
            assert(s.queue@ =~= old(s).queue@.drop_first());
            assert(s@.msgs =~= pull_one(old(s)@).msgs);
            assert(s@ =~= pull_one(old(s)@));
        }
        StreamNext::Ready(m)
    } else if s.live {
        StreamNext::Pending
    } else {
        StreamNext::End
    }
}

// ---------------------------------------------------------------------------
// The hub's operations
// ---------------------------------------------------------------------------

impl Hub {
    /// A hub with no subscribers, handing each future subscriber a queue
    /// of the given capacity.
    pub fn new(capacity: usize) -> (h: Hub)
        requires
            capacity >= 1,
        ensures
            h@ == empty_hub(capacity as nat),
            h@.wf(),
    {
        let h = Hub { subs: Vec::new(), next_id: 0, capacity };
        proof {
            assert(h@.subs =~= empty_hub(capacity as nat).subs);
            assert(h@ =~= empty_hub(capacity as nat));
        }
        h
    }

    /// A hub with the default queue capacity.
    pub fn create() -> (h: Hub)
        ensures
            h@ == empty_hub(DEFAULT_QUEUE_CAPACITY as nat),
            h@.wf(),
    {
        Hub::new(DEFAULT_QUEUE_CAPACITY)
    }

    /// Register a new subscriber: allocate a fresh identity, give it an
    /// empty queue holding just the connect sentinel, and return its
    /// identity. Registration itself cannot fail.
    pub fn subscribe(&mut self) -> (id: u64)
        requires
            old(self)@.wf(),
            old(self)@.next_id < u64::MAX,
        ensures
            final(self)@ == subscribe_tr(old(self)@),
            final(self)@.wf(),
            id as nat == old(self)@.next_id,
    {
        let id = self.next_id;
        self.next_id = self.next_id + 1;
        let mut queue: Vec<String> = Vec::new();
        queue.push(connected_message());
        let sub = Subscriber {
            id,
            queue,
            capacity: self.capacity,
            consumer_gone: false,
            live: true,
        };
        proof {
            assert(sub@.msgs =~= fresh_subscriber(id as nat, old(self)@.capacity).msgs);
            assert(sub@ =~= fresh_subscriber(id as nat, old(self)@.capacity));
        }
        self.subs.push(sub);
        proof {
            assert(self@.subs =~= subscribe_tr(old(self)@).subs);
            assert(self@ =~= subscribe_tr(old(self)@));
            lemma_subscribe_preserves_wf(old(self)@);
        }
        id
    }

    /// Fan a payload out: frame it once, then offer it to every
    /// subscriber in a snapshot of the registry. A subscriber whose queue
    /// is full or whose consumer is gone simply misses the message; the
    /// call never blocks, never errors, and removes nobody.
    #[verifier::loop_isolation(false)]
    pub fn publish(&mut self, payload: &str)
        requires
            old(self)@.wf(),
        ensures
            final(self)@ == publish_tr(old(self)@, payload@),
            final(self)@.wf(),
    {
        let msg = frame(payload);
        let n = self.subs.len();
        let mut i: usize = 0;
        while i < n
            invariant
                msg@ == framed(payload@),
                n == self.subs@.len(),
                i <= n,
                self.subs@.len() == old(self)@.subs.len(),
                self.next_id == old(self).next_id,
                self.capacity == old(self).capacity,
                forall|j: int|
                    0 <= j < i ==> (#[trigger] self.subs@[j])@ == deliver(
                        old(self)@.subs[j],
                        msg@,
                    ),
                forall|j: int| i <= j < n ==> (#[trigger] self.subs@[j])@ == old(self)@.subs[j],
            decreases n - i,
        {
            try_deliver(&mut self.subs[i], &msg);
            i = i + 1;
        }
        proof {
            assert(self@.subs =~= publish_tr(old(self)@, payload@).subs);
            assert(self@ =~= publish_tr(old(self)@, payload@));
            lemma_publish_preserves_wf(old(self)@, payload@);
        }
    }

    /// Detect and prune dead subscribers: offer a ping to every live one
    /// and rebuild the registry with exactly the ones that took it. A
    /// single failed ping — full queue or gone consumer alike — evicts.
    #[verifier::loop_isolation(false)]
    pub fn sweep(&mut self)
        requires
            old(self)@.wf(),
        ensures
            final(self)@ == sweep_tr(old(self)@),
            final(self)@.wf(),
    {
        let ping = ping_message();
        let n = self.subs.len();
        let mut i: usize = 0;
        while i < n
            invariant
                ping@ == ping_frame(),
                n == self.subs@.len(),
                i <= n,
                self.subs@.len() == old(self)@.subs.len(),
                self.next_id == old(self).next_id,
                self.capacity == old(self).capacity,
                forall|j: int|
                    0 <= j < i ==> (#[trigger] self.subs@[j])@ == sweep_one(old(self)@.subs[j]),
                forall|j: int| i <= j < n ==> (#[trigger] self.subs@[j])@ == old(self)@.subs[j],
            decreases n - i,
        {
            ping_sub(&mut self.subs[i], &ping);
            i = i + 1;
        }
        proof {
            assert(self@.subs =~= sweep_tr(old(self)@).subs);
            assert(self@ =~= sweep_tr(old(self)@));
            lemma_sweep_preserves_wf(old(self)@);
        }
    }

    /// Record that the consumer with this identity has disconnected. The
    /// hub does not remove the subscriber here: the next enqueue attempt
    /// against it fails, and the next sweep evicts it.
    #[verifier::loop_isolation(false)]
    pub fn disconnect(&mut self, id: u64)
        requires
            old(self)@.wf(),
        ensures
            final(self)@ == disconnect_tr(old(self)@, id as nat),
            final(self)@.wf(),
    {
        let n = self.subs.len();
        let mut i: usize = 0;
        while i < n
            invariant
                n == self.subs@.len(),
                i <= n,
                self.subs@.len() == old(self)@.subs.len(),
                self.next_id == old(self).next_id,
                self.capacity == old(self).capacity,
                forall|j: int|
                    0 <= j < i ==> (#[trigger] self.subs@[j])@ == disconnect_one(
                        old(self)@.subs[j],
                        id as nat,
                    ),
                forall|j: int| i <= j < n ==> (#[trigger] self.subs@[j])@ == old(self)@.subs[j],
            decreases n - i,
        {
            let s = &mut self.subs[i];
            if s.id == id {
                s.consumer_gone = true;
            }
            proof {
                assert(self.subs@[i as int]@ =~= disconnect_one(old(self)@.subs[i as int], id as nat));
            }
            i = i + 1;
        }
        proof {
            assert(self@.subs =~= disconnect_tr(old(self)@, id as nat).subs);
            assert(self@ =~= disconnect_tr(old(self)@, id as nat));
            lemma_disconnect_preserves_wf(old(self)@, id as nat);
        }
    }

    /// Pull the next message for the subscriber with this identity:
    /// its oldest queued frame, or `Pending` while it is empty but still
    /// registered, or `End` once it was evicted and has drained.
    #[verifier::loop_isolation(false)]
    pub fn next_message(&mut self, id: u64) -> (r: StreamNext)
        requires
            old(self)@.wf(),
            has_id(old(self)@.subs, id as nat),
        ensures
            final(self)@ == pull_tr(old(self)@, id as nat),
            final(self)@.wf(),
            ({
                let s = sub_with_id(old(self)@.subs, id as nat);
                if s.msgs.len() > 0 {
                    r matches StreamNext::Ready(m) && m@ == s.msgs[0]
                } else if s.live {
                    r == StreamNext::Pending
                } else {
                    r == StreamNext::End
                }
            }),
    {
        let n = self.subs.len();
        let mut i: usize = 0;
        while i < n
            invariant
                n == self.subs@.len(),
                i <= n,
                self.subs@ == old(self).subs@,
                self.next_id == old(self).next_id,
                self.capacity == old(self).capacity,
                forall|j: int| 0 <= j < i ==> (#[trigger] self.subs@[j])@.id != id as nat,
            decreases n - i,
        {
            if self.subs[i].id == id {
                let r = pull_sub(&mut self.subs[i]);
                proof {
                    lemma_id_index(old(self)@.subs, id as nat, i as int);
                    assert forall|j: int| 0 <= j < n && j != i implies (#[trigger] old(
                        self,
                    )@.subs[j]).id != id as nat by {
                        if j < i {
                            assert(old(self)@.subs[j].id != old(self)@.subs[i as int].id);
                        } else {
                            assert(old(self)@.subs[i as int].id != old(self)@.subs[j].id);
                        }
                    }
                    assert(self@.subs =~= pull_tr(old(self)@, id as nat).subs);
                    assert(self@ =~= pull_tr(old(self)@, id as nat));
                    lemma_pull_preserves_wf(old(self)@, id as nat);
                }
                return r;
            }
            i = i + 1;
        }
        proof {
            let w = choose|k: int|
                0 <= k < old(self)@.subs.len() && (#[trigger] old(self)@.subs[k]).id == id as nat;
            assert((self.subs@[w])@.id == id as nat);
            assert(false);
        }
        unreached()
    }

    /// Whether this identity was ever issued to a subscriber the hub
    /// still holds (live or draining).
    #[verifier::loop_isolation(false)]
    pub fn has_subscriber(&self, id: u64) -> (b: bool)
        ensures
            b == has_id(self@.subs, id as nat),
    {
        let n = self.subs.len();
        let mut i: usize = 0;
        while i < n
            invariant
                n == self.subs@.len(),
                i <= n,
                forall|j: int| 0 <= j < i ==> (#[trigger] self.subs@[j])@.id != id as nat,
            decreases n - i,
        {
            if self.subs[i].id == id {
                proof {
                    assert((self@.subs[i as int]).id == id as nat);
                }
                return true;
            }
            i = i + 1;
        }
        proof {
            if has_id(self@.subs, id as nat) {
                let w = choose|k: int|
                    0 <= k < self@.subs.len() && (#[trigger] self@.subs[k]).id == id as nat;
                assert((self.subs@[w])@.id == id as nat);
            }
        }
        false
    }

    /// The identity the next subscriber will receive.
    pub fn generation(&self) -> (g: u64)
        ensures
            g as nat == self@.next_id,
    {
        self.next_id
    }

    /// The queue capacity every new subscriber is given.
    pub fn queue_capacity(&self) -> (c: usize)
        ensures
            c as nat == self@.capacity,
    {
        self.capacity
    }

    /// The number of live registry entries.
    #[verifier::loop_isolation(false)]
    pub fn registry_len(&self) -> (n: usize)
        ensures
            n as nat == live_count(self@.subs),
    {
        let total = self.subs.len();
        let mut count: usize = 0;
        let mut i: usize = 0;
        while i < total
            invariant
                total == self.subs@.len(),
                i <= total,
                count <= i,
                count as nat == live_count(self@.subs.take(i as int)),
            decreases total - i,
        {
            proof {
                assert(self@.subs.take(i + 1).drop_last() =~= self@.subs.take(i as int));
                assert(self@.subs.take(i + 1).last() == self@.subs[i as int]);
            }
            if self.subs[i].live {
                count = count + 1;
            }
            i = i + 1;
        }
        proof {
            assert(self@.subs.take(total as int) =~= self@.subs);
        }
        count
    }
}

} // verus!
