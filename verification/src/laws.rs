//! The laws the hub obeys, stated over the model and proved once and for
//! all: registry growth under subscription, per-subscriber FIFO delivery,
//! bounded backpressure with silent drops, and sweep eviction.

use vstd::prelude::*;

use crate::frame::{connected_frame, framed, ping_frame};
use crate::hub::{
    can_accept, deliver, empty_hub, fresh_subscriber, lemma_subscribe_preserves_wf, live_count,
    publish_tr, subscribe_tr, sweep_one, sweep_tr, HubModel, SubscriberModel,
};

verus! {

// ---------------------------------------------------------------------------
// Folded transitions: several operations in a row
// ---------------------------------------------------------------------------

/// The hub after `n` subscriptions in a row.
pub open spec fn subscribe_n(h: HubModel, n: nat) -> HubModel
    decreases n,
{
    if n == 0 {
        h
    } else {
        subscribe_tr(subscribe_n(h, (n - 1) as nat))
    }
}

/// The hub after publishing each payload in turn, oldest first.
pub open spec fn publish_seq(h: HubModel, payloads: Seq<Seq<char>>) -> HubModel
    decreases payloads.len(),
{
    if payloads.len() == 0 {
        h
    } else {
        publish_seq(publish_tr(h, payloads[0]), payloads.drop_first())
    }
}

/// How many subscribers would take a ping right now: the live ones whose
/// consumer is attached and whose queue has room.
pub open spec fn ping_survivor_count(subs: Seq<SubscriberModel>) -> nat
    decreases subs.len(),
{
    if subs.len() == 0 {
        0
    } else {
        ping_survivor_count(subs.drop_last()) + (if can_accept(subs.last()) {
            1nat
        } else {
            0nat
        })
    }
}

// ---------------------------------------------------------------------------
// Counting helpers
// ---------------------------------------------------------------------------

proof fn lemma_live_count_push(subs: Seq<SubscriberModel>, s: SubscriberModel)
    ensures
        live_count(subs.push(s)) == live_count(subs) + (if s.live {
            1nat
        } else {
            0nat
        }),
{
    assert(subs.push(s).drop_last() =~= subs);
    assert(subs.push(s).last() == s);
}

proof fn lemma_live_count_pointwise(a: Seq<SubscriberModel>, b: Seq<SubscriberModel>)
    requires
        a.len() == b.len(),
        forall|i: int| 0 <= i < a.len() ==> (#[trigger] a[i]).live == b[i].live,
    ensures
        live_count(a) == live_count(b),
    decreases a.len(),
{
    if a.len() > 0 {
        lemma_live_count_pointwise(a.drop_last(), b.drop_last());
    }
}

proof fn lemma_live_count_vs_survivors(a: Seq<SubscriberModel>, b: Seq<SubscriberModel>)
    requires
        a.len() == b.len(),
        forall|i: int| 0 <= i < a.len() ==> (#[trigger] a[i]).live == can_accept(b[i]),
    ensures
        live_count(a) == ping_survivor_count(b),
    decreases a.len(),
{
    if a.len() > 0 {
        lemma_live_count_vs_survivors(a.drop_last(), b.drop_last());
    }
}

// ---------------------------------------------------------------------------
// Laws
// ---------------------------------------------------------------------------

/// One subscription adds exactly one live entry at the end of the
/// registry and touches no existing subscriber.
pub proof fn lemma_subscribe_adds_entry(h: HubModel)
    requires
        h.wf(),
    ensures
        subscribe_tr(h).wf(),
        subscribe_tr(h).subs.len() == h.subs.len() + 1,
        live_count(subscribe_tr(h).subs) == live_count(h.subs) + 1,
        subscribe_tr(h).subs.last() == fresh_subscriber(h.next_id, h.capacity),
        forall|i: int| 0 <= i < h.subs.len() ==> subscribe_tr(h).subs[i] == h.subs[i],
{
    lemma_subscribe_preserves_wf(h);
    lemma_live_count_push(h.subs, fresh_subscriber(h.next_id, h.capacity));
}

/// Law: starting from a fresh hub, any number of subscriptions in a row
/// leaves exactly that many live registry entries, and every subscriber's
/// queue starts with the connect sentinel (and holds nothing else until
/// something is published).
pub proof fn lemma_registry_growth(capacity: nat, n: nat)
    requires
        capacity >= 1,
    ensures
        ({
            let h = subscribe_n(empty_hub(capacity), n);
            &&& h.wf()
            &&& h.subs.len() == n
            &&& live_count(h.subs) == n
            &&& forall|i: int| 0 <= i < n ==> (#[trigger] h.subs[i]).msgs == seq![connected_frame()]
            &&& forall|i: int| 0 <= i < n ==> (#[trigger] h.subs[i]).live
        }),
    decreases n,
{
    if n > 0 {
        lemma_registry_growth(capacity, (n - 1) as nat);
        lemma_subscribe_adds_entry(subscribe_n(empty_hub(capacity), (n - 1) as nat));
    }
}

/// Law: a publish changes no subscriber's place in the registry: the
/// number of live entries stays exactly what it was.
pub proof fn lemma_publish_preserves_registry(h: HubModel, payload: Seq<char>)
    ensures
        publish_tr(h, payload).subs.len() == h.subs.len(),
        live_count(publish_tr(h, payload).subs) == live_count(h.subs),
{
    let h2 = publish_tr(h, payload);
    assert forall|i: int| 0 <= i < h2.subs.len() implies (#[trigger] h2.subs[i]).live
        == h.subs[i].live by {
        assert(h2.subs[i] == deliver(h.subs[i], framed(payload)));
    }
    lemma_live_count_pointwise(h2.subs, h.subs);
}

/// Law: a message delivered to a subscriber with room lands at the end of
/// its queue: everything delivered before stays ahead of it, in order.
pub proof fn lemma_publish_fifo(h: HubModel, payload: Seq<char>, i: int)
    requires
        0 <= i < h.subs.len(),
        can_accept(h.subs[i]),
    ensures
        ({
            let s2 = publish_tr(h, payload).subs[i];
            &&& s2.msgs == h.subs[i].msgs.push(framed(payload))
            &&& s2.msgs.len() == h.subs[i].msgs.len() + 1
            &&& s2.msgs.take(h.subs[i].msgs.len() as int) == h.subs[i].msgs
            &&& s2.msgs.last() == framed(payload)
        }),
{
    assert(publish_tr(h, payload).subs[i] == deliver(h.subs[i], framed(payload)));
    assert(h.subs[i].msgs.push(framed(payload)).take(h.subs[i].msgs.len() as int) =~= h.subs[
        i
    ].msgs);
}

/// Law: a publish that a subscriber cannot take — not live, consumer
/// gone, or queue full — leaves that subscriber exactly as it was: the
/// drop is silent, nothing is retried, and nothing else changes.
pub proof fn lemma_publish_drops_silently(h: HubModel, payload: Seq<char>, i: int)
    requires
        0 <= i < h.subs.len(),
        !can_accept(h.subs[i]),
    ensures
        publish_tr(h, payload).subs[i] == h.subs[i],
{
    assert(publish_tr(h, payload).subs[i] == deliver(h.subs[i], framed(payload)));
}

/// What a run of publishes leaves in one attached, live subscriber's
/// queue: the old contents, then the frames of as many of the payloads as
/// there was room for, in publish order.
pub proof fn lemma_publish_seq_on_sub(h: HubModel, payloads: Seq<Seq<char>>, i: int)
    requires
        0 <= i < h.subs.len(),
        h.subs[i].live,
        !h.subs[i].consumer_gone,
        h.subs[i].msgs.len() <= h.subs[i].capacity,
    ensures
        ({
            let s2 = publish_seq(h, payloads).subs[i];
            let room = h.subs[i].capacity - h.subs[i].msgs.len();
            &&& publish_seq(h, payloads).subs.len() == h.subs.len()
            &&& s2.id == h.subs[i].id
            &&& s2.capacity == h.subs[i].capacity
            &&& s2.live
            &&& !s2.consumer_gone
            &&& (payloads.len() <= room ==> s2.msgs == h.subs[i].msgs + payloads.map_values(
                |p: Seq<char>| framed(p),
            ))
            &&& (payloads.len() > room ==> s2.msgs == h.subs[i].msgs + payloads.take(
                room,
            ).map_values(|p: Seq<char>| framed(p)))
        }),
    decreases payloads.len(),
{
    let s = h.subs[i];
    let room = s.capacity - s.msgs.len();
    if payloads.len() == 0 {
        assert(s.msgs + payloads.map_values(|p: Seq<char>| framed(p)) =~= s.msgs);
    } else {
        let h1 = publish_tr(h, payloads[0]);
        let rest = payloads.drop_first();
        assert(h1.subs[i] == deliver(s, framed(payloads[0])));
        lemma_publish_seq_on_sub(h1, rest, i);
        let s2 = publish_seq(h, payloads).subs[i];
        if s.msgs.len() < s.capacity {
            let s1 = h1.subs[i];
            assert(s1.msgs == s.msgs.push(framed(payloads[0])));
            let room1 = s1.capacity - s1.msgs.len();
            assert(room1 == room - 1);
            if payloads.len() <= room {
                assert(rest.len() <= room1);
                assert(s2.msgs == s1.msgs + rest.map_values(|p: Seq<char>| framed(p)));
                assert(s.msgs + payloads.map_values(|p: Seq<char>| framed(p)) =~= s.msgs.push(
                    framed(payloads[0]),
                ) + rest.map_values(|p: Seq<char>| framed(p)));
            } else {
                assert(rest.len() > room1);
                assert(s2.msgs == s1.msgs + rest.take(room1).map_values(|p: Seq<char>| framed(p)));
                assert(s.msgs + payloads.take(room).map_values(|p: Seq<char>| framed(p))
                    =~= s.msgs.push(framed(payloads[0])) + rest.take(room1).map_values(
                    |p: Seq<char>| framed(p),
                ));
            }
        } else {
            assert(h1.subs[i] == s);
            assert(room == 0);
            assert(payloads.len() > room);
            if rest.len() == 0 {
                assert(s2.msgs == s.msgs + rest.map_values(|p: Seq<char>| framed(p)));
                assert(s.msgs + rest.map_values(|p: Seq<char>| framed(p)) =~= s.msgs);
                assert(s.msgs + payloads.take(0).map_values(|p: Seq<char>| framed(p)) =~= s.msgs);
            } else {
                assert(s2.msgs == s.msgs + rest.take(0).map_values(|p: Seq<char>| framed(p)));
                assert(s.msgs + rest.take(0).map_values(|p: Seq<char>| framed(p)) =~= s.msgs);
                assert(s.msgs + payloads.take(0).map_values(|p: Seq<char>| framed(p)) =~= s.msgs);
            }
        }
    }
}

/// Law: publishing one payload more than an undrained subscriber's
/// capacity delivers exactly the first `capacity` payloads, in order; the
/// last one is the single drop.
pub proof fn lemma_backpressure(h: HubModel, payloads: Seq<Seq<char>>, i: int)
    requires
        0 <= i < h.subs.len(),
        h.subs[i].live,
        !h.subs[i].consumer_gone,
        h.subs[i].msgs.len() == 0,
        payloads.len() == h.subs[i].capacity + 1,
    ensures
        publish_seq(h, payloads).subs[i].msgs == payloads.take(
            h.subs[i].capacity as int,
        ).map_values(|p: Seq<char>| framed(p)),
        publish_seq(h, payloads).subs[i].msgs.len() == h.subs[i].capacity,
{
    lemma_publish_seq_on_sub(h, payloads, i);
    let cap = h.subs[i].capacity as int;
    assert(h.subs[i].msgs + payloads.take(cap).map_values(|p: Seq<char>| framed(p)) =~= payloads.take(
        cap,
    ).map_values(|p: Seq<char>| framed(p)));
}

/// Law: one sweep leaves live exactly the subscribers whose ping was
/// taken — an attached consumer and a queue with room — and every
/// survivor's queue ends with that ping; everyone else is evicted, full
/// queue or gone consumer alike.
pub proof fn lemma_sweep_registry(h: HubModel)
    ensures
        sweep_tr(h).subs.len() == h.subs.len(),
        live_count(sweep_tr(h).subs) == ping_survivor_count(h.subs),
        forall|i: int|
            0 <= i < h.subs.len() ==> ((#[trigger] sweep_tr(h).subs[i]).live <==> can_accept(
                h.subs[i],
            )),
        forall|i: int|
            0 <= i < h.subs.len() && can_accept(h.subs[i]) ==> (#[trigger] sweep_tr(h).subs[i]).msgs
                == h.subs[i].msgs.push(ping_frame()),
        forall|i: int|
            0 <= i < h.subs.len() && !can_accept(h.subs[i]) ==> (#[trigger] sweep_tr(
                h,
            ).subs[i]).msgs == h.subs[i].msgs,
{
    let h2 = sweep_tr(h);
    assert forall|i: int| 0 <= i < h2.subs.len() implies (#[trigger] h2.subs[i]).live
        == can_accept(h.subs[i]) by {
        assert(h2.subs[i] == sweep_one(h.subs[i]));
    }
    assert forall|i: int|
        0 <= i < h.subs.len() && can_accept(h.subs[i]) implies (#[trigger] h2.subs[i]).msgs
        == h.subs[i].msgs.push(ping_frame()) by {
        assert(h2.subs[i] == sweep_one(h.subs[i]));
    }
    assert forall|i: int|
        0 <= i < h.subs.len() && !can_accept(h.subs[i]) implies (#[trigger] h2.subs[i]).msgs
        == h.subs[i].msgs by {
        assert(h2.subs[i] == sweep_one(h.subs[i]));
    }
    lemma_live_count_vs_survivors(h2.subs, h.subs);
}

/// Law: a subscription that completes before a publish begins receives
/// that publish — exactly once, right after its connect sentinel —
/// provided its capacity holds the sentinel and one message; and the
/// registry size stays consistent: one more than before the subscription,
/// unchanged by the publish.
pub proof fn lemma_subscribe_then_publish(h: HubModel, payload: Seq<char>)
    requires
        h.wf(),
        h.capacity >= 2,
    ensures
        ({
            let h1 = subscribe_tr(h);
            let h2 = publish_tr(h1, payload);
            let k = h.subs.len() as int;
            &&& h2.subs[k].msgs == seq![connected_frame(), framed(payload)]
            &&& h2.subs[k].live
            &&& live_count(h1.subs) == live_count(h.subs) + 1
            &&& live_count(h2.subs) == live_count(h1.subs)
        }),
{
    let h1 = subscribe_tr(h);
    let h2 = publish_tr(h1, payload);
    let k = h.subs.len() as int;
    lemma_subscribe_adds_entry(h);
    lemma_publish_preserves_registry(h1, payload);
    assert(h1.subs[k] == fresh_subscriber(h.next_id, h.capacity));
    assert(h2.subs[k] == deliver(h1.subs[k], framed(payload)));
    assert(can_accept(h1.subs[k]));
    assert(seq![connected_frame()].push(framed(payload)) =~= seq![
        connected_frame(),
        framed(payload),
    ]);
}

} // verus!
