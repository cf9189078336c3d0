use sse_hub::hub::{Hub, StreamNext};

fn pull_ready(hub: &mut Hub, id: u64) -> String {
    match hub.next_message(id) {
        StreamNext::Ready(m) => m,
        other => panic!("expected a ready message, got {:?}", other),
    }
}

#[test]
fn subscribe_grows_registry_and_sends_sentinel() {
    let mut hub = Hub::new(8);
    assert_eq!(hub.registry_len(), 0);
    let mut ids = Vec::new();
    for n in 1..=5u64 {
        let id = hub.subscribe();
        ids.push(id);
        assert_eq!(hub.registry_len(), n as usize);
    }
    for id in ids {
        assert_eq!(pull_ready(&mut hub, id), "data: connected\n\n");
    }
}

#[test]
fn identities_are_distinct() {
    let mut hub = Hub::create();
    let a = hub.subscribe();
    let b = hub.subscribe();
    let c = hub.subscribe();
    assert_ne!(a, b);
    assert_ne!(b, c);
    assert_ne!(a, c);
    assert!(hub.has_subscriber(a));
    assert!(!hub.has_subscriber(c + 1));
    assert_eq!(hub.generation(), 3);
}

#[test]
fn publish_delivers_in_order() {
    let mut hub = Hub::new(10);
    let id = hub.subscribe();
    hub.publish("one");
    hub.publish("two");
    hub.publish("three");
    assert_eq!(pull_ready(&mut hub, id), "data: connected\n\n");
    assert_eq!(pull_ready(&mut hub, id), "data: one\n\n");
    assert_eq!(pull_ready(&mut hub, id), "data: two\n\n");
    assert_eq!(pull_ready(&mut hub, id), "data: three\n\n");
    assert_eq!(hub.next_message(id), StreamNext::Pending);
}

#[test]
fn full_queue_drops_only_the_overflow() {
    let capacity = 3;
    let mut hub = Hub::new(capacity);
    let id = hub.subscribe();
    assert_eq!(pull_ready(&mut hub, id), "data: connected\n\n");
    // the queue is now empty; capacity + 1 publishes with no consumption
    hub.publish("m1");
    hub.publish("m2");
    hub.publish("m3");
    hub.publish("m4");
    // the first `capacity` messages remain retrievable, in order
    assert_eq!(pull_ready(&mut hub, id), "data: m1\n\n");
    assert_eq!(pull_ready(&mut hub, id), "data: m2\n\n");
    assert_eq!(pull_ready(&mut hub, id), "data: m3\n\n");
    // the overflowing publish was the single drop
    assert_eq!(hub.next_message(id), StreamNext::Pending);
    // and the publisher was never blocked or told: the subscriber is still live
    assert_eq!(hub.registry_len(), 1);
}

#[test]
fn sweep_keeps_exactly_the_ping_survivors() {
    let mut hub = Hub::new(2);
    let a = hub.subscribe();
    let b = hub.subscribe();
    let c = hub.subscribe();
    // a drains its sentinel and can take the ping
    assert_eq!(pull_ready(&mut hub, a), "data: connected\n\n");
    // b's consumer goes away
    hub.disconnect(b);
    // c fills up to capacity: sentinel plus one message
    hub.publish("burst");
    assert_eq!(hub.registry_len(), 3);
    hub.sweep();
    // of the three, only a took the ping
    assert_eq!(hub.registry_len(), 1);
    // and the survivor's next message is that ping
    assert_eq!(pull_ready(&mut hub, a), "data: burst\n\n");
    assert_eq!(pull_ready(&mut hub, a), "data: ping\n\n");
    assert_eq!(hub.next_message(a), StreamNext::Pending);
}

#[test]
fn subscriber_registered_before_publish_receives_it() {
    let mut hub = Hub::new(4);
    let early = hub.subscribe();
    hub.publish("news");
    let late = hub.subscribe();
    // the early subscriber got the publish, exactly once
    assert_eq!(pull_ready(&mut hub, early), "data: connected\n\n");
    assert_eq!(pull_ready(&mut hub, early), "data: news\n\n");
    assert_eq!(hub.next_message(early), StreamNext::Pending);
    // the late one did not
    assert_eq!(pull_ready(&mut hub, late), "data: connected\n\n");
    assert_eq!(hub.next_message(late), StreamNext::Pending);
    // the registry stayed consistent throughout
    assert_eq!(hub.registry_len(), 2);
}

#[test]
fn end_to_end_stream() {
    let mut hub = Hub::create();
    let id = hub.subscribe();
    assert_eq!(pull_ready(&mut hub, id), "data: connected\n\n");
    hub.publish("hello");
    assert_eq!(pull_ready(&mut hub, id), "data: hello\n\n");
    let before = hub.registry_len();
    hub.disconnect(id);
    hub.sweep();
    assert_eq!(hub.registry_len(), before - 1);
}

#[test]
fn evicted_subscriber_drains_then_ends() {
    let mut hub = Hub::new(1);
    let id = hub.subscribe();
    // the sentinel already fills the queue, so the ping cannot fit
    hub.sweep();
    assert_eq!(hub.registry_len(), 0);
    // what was queued before the eviction is still drained, then the stream ends
    assert_eq!(pull_ready(&mut hub, id), "data: connected\n\n");
    assert_eq!(hub.next_message(id), StreamNext::End);
    assert_eq!(hub.next_message(id), StreamNext::End);
}

#[test]
fn publish_never_removes_a_disconnected_subscriber() {
    let mut hub = Hub::new(4);
    let id = hub.subscribe();
    hub.disconnect(id);
    // deliveries to it are silently dropped, but only a sweep evicts
    hub.publish("lost");
    assert_eq!(hub.registry_len(), 1);
    hub.sweep();
    assert_eq!(hub.registry_len(), 0);
}

#[test]
fn queue_capacity_is_reported() {
    let hub = Hub::new(7);
    assert_eq!(hub.queue_capacity(), 7);
    let hub = Hub::create();
    assert_eq!(hub.queue_capacity(), 100);
}
