use line_relay::bus::Bus;
use line_relay::handler::{egress_step, ingress_step, IngressAction, MAX_LINE_BYTES};
use line_relay::listener::{listener_step, ListenerAction, ListenerEvent};
use line_relay::message::Message;

fn line(text: &str, origin: u64) -> Message {
    Message::new(text.as_bytes().to_vec(), origin)
}

fn recv_text(bus: &mut Bus, id: usize, me: u64) -> Option<Vec<u8>> {
    match bus.recv(id) {
        None => None,
        Some(m) => egress_step(m, me),
    }
}

#[test]
fn message_accessors() {
    let m = line("hello\n", 42);
    assert_eq!(m.origin(), 42);
    assert_eq!(m.text().as_slice(), b"hello\n");
    let d = m.duplicate();
    assert_eq!(d.origin(), 42);
    assert_eq!(d.into_text(), b"hello\n".to_vec());
    assert_eq!(m.into_text(), b"hello\n".to_vec());
}

#[test]
fn ingress_publishes_complete_line_verbatim() {
    let a = ingress_step(6, b"hello\n".to_vec(), 9);
    match a {
        IngressAction::Publish(m) => {
            assert_eq!(m.origin(), 9);
            assert_eq!(m.into_text(), b"hello\n".to_vec());
        }
        _ => panic!("expected a publish"),
    }
}

#[test]
fn ingress_end_of_stream_disconnects() {
    let a = ingress_step(0, Vec::new(), 9);
    assert!(matches!(a, IngressAction::Disconnect));
}

#[test]
fn ingress_overlong_line_is_fatal() {
    let big = vec![b'x'; MAX_LINE_BYTES + 1];
    let a = ingress_step(big.len(), big, 9);
    assert!(matches!(a, IngressAction::LineTooLong));
}

#[test]
fn egress_forwards_foreign_line_verbatim() {
    let m = line("hi\n", 3);
    assert_eq!(egress_step(m, 4), Some(b"hi\n".to_vec()));
}

#[test]
fn egress_suppresses_own_echo() {
    let m = line("hi\n", 3);
    assert_eq!(egress_step(m, 3), None);
}

#[test]
fn listener_spawns_on_accept_and_stops_on_error() {
    match listener_step(ListenerEvent::Accepted(17)) {
        ListenerAction::SpawnHandler(id) => assert_eq!(id, 17),
        ListenerAction::Shutdown => panic!("accept must spawn a handler"),
    }
    assert!(matches!(
        listener_step(ListenerEvent::AcceptFailed),
        ListenerAction::Shutdown
    ));
}

#[test]
fn two_clients_relay_verbatim_and_no_self_echo() {
    // Client A (identity 1) and client B (identity 2), both connected.
    let mut bus = Bus::new(10);
    let sub_a = bus.subscribe();
    let sub_b = bus.subscribe();

    bus.publish(&line("hello\n", 1));

    // B receives exactly A's bytes.
    assert_eq!(recv_text(&mut bus, sub_b, 2), Some(b"hello\n".to_vec()));
    // A's own copy is queued but discarded at delivery.
    assert_eq!(recv_text(&mut bus, sub_a, 1), None);
    // Nothing further for either.
    assert!(bus.recv(sub_a).is_none());
    assert!(bus.recv(sub_b).is_none());
}

#[test]
fn fanout_reaches_all_other_clients_in_send_order() {
    // Four clients; client 0 sends two lines.
    let mut bus = Bus::new(10);
    let subs: Vec<usize> = (0..4).map(|_| bus.subscribe()).collect();

    bus.publish(&line("first\n", 0));
    bus.publish(&line("second\n", 0));

    for me in 1..4u64 {
        let id = subs[me as usize];
        assert_eq!(recv_text(&mut bus, id, me), Some(b"first\n".to_vec()));
        assert_eq!(recv_text(&mut bus, id, me), Some(b"second\n".to_vec()));
        assert!(bus.recv(id).is_none());
    }
    // The sender gets nothing back.
    assert_eq!(recv_text(&mut bus, subs[0], 0), None);
    assert_eq!(recv_text(&mut bus, subs[0], 0), None);
}

#[test]
fn disconnect_does_not_disturb_the_others() {
    let mut bus = Bus::new(10);
    let sub_a = bus.subscribe();
    let sub_b = bus.subscribe();
    let sub_c = bus.subscribe();

    bus.publish(&line("one\n", 1));
    // B disconnects with a message still queued.
    bus.unsubscribe(sub_b);
    assert!(!bus.is_live(sub_b));
    assert_eq!(bus.queue_len(sub_b), 0);

    // Relay among the remaining clients goes on unchanged.
    bus.publish(&line("two\n", 3));
    assert_eq!(recv_text(&mut bus, sub_a, 1), None); // own line
    assert_eq!(recv_text(&mut bus, sub_a, 1), Some(b"two\n".to_vec()));
    assert_eq!(recv_text(&mut bus, sub_c, 3), Some(b"one\n".to_vec()));
    assert_eq!(recv_text(&mut bus, sub_c, 3), None); // own line
    // The dead subscription never sees anything again.
    assert!(bus.recv(sub_b).is_none());
}

#[test]
fn slow_consumer_drops_oldest_never_reorders() {
    // Capacity 3: a consumer that never drains misses the oldest lines.
    let mut bus = Bus::new(3);
    let slow = bus.subscribe();
    let fast = bus.subscribe();

    for i in 0..5u8 {
        bus.publish(&line(&format!("m{}\n", i), 99));
        // The fast consumer keeps up.
        assert_eq!(
            recv_text(&mut bus, fast, 2),
            Some(format!("m{}\n", i).into_bytes())
        );
    }

    // The slow consumer holds only the 3 most recent, in publish order:
    // m0 and m1 were dropped, nothing is reordered or duplicated.
    assert_eq!(bus.queue_len(slow), 3);
    assert_eq!(recv_text(&mut bus, slow, 1), Some(b"m2\n".to_vec()));
    assert_eq!(recv_text(&mut bus, slow, 1), Some(b"m3\n".to_vec()));
    assert_eq!(recv_text(&mut bus, slow, 1), Some(b"m4\n".to_vec()));
    assert!(bus.recv(slow).is_none());
}

#[test]
fn capacity_one_keeps_only_newest() {
    let mut bus = Bus::new(1);
    let sub = bus.subscribe();
    bus.publish(&line("old\n", 5));
    bus.publish(&line("new\n", 5));
    assert_eq!(bus.queue_len(sub), 1);
    assert_eq!(recv_text(&mut bus, sub, 6), Some(b"new\n".to_vec()));
    assert!(bus.recv(sub).is_none());
}

#[test]
fn subscription_sees_no_history() {
    let mut bus = Bus::new(10);
    let early = bus.subscribe();
    bus.publish(&line("before\n", 1));
    let late = bus.subscribe();
    assert_eq!(bus.queue_len(late), 0);
    bus.publish(&line("after\n", 1));
    assert_eq!(recv_text(&mut bus, late, 2), Some(b"after\n".to_vec()));
    assert!(bus.recv(late).is_none());
    assert_eq!(recv_text(&mut bus, early, 3), Some(b"before\n".to_vec()));
    assert_eq!(recv_text(&mut bus, early, 3), Some(b"after\n".to_vec()));
}

#[test]
fn publish_with_no_subscribers_succeeds() {
    let mut bus = Bus::new(10);
    bus.publish(&line("into the void\n", 1));
    assert_eq!(bus.num_subs(), 0);
    // The listener still accepts a new connection afterwards and its
    // subscription starts cleanly.
    let sub = bus.subscribe();
    assert_eq!(bus.queue_len(sub), 0);
}

#[test]
fn hello_scenario_exactly_once() {
    // Client A connects and sends "hello\n"; client B is connected before
    // the send. B receives exactly "hello\n" once; A receives nothing.
    let mut bus = Bus::new(10);
    let sub_a = bus.subscribe();
    let sub_b = bus.subscribe();

    let read = b"hello\n".to_vec();
    let action = ingress_step(read.len(), read, 1);
    match action {
        IngressAction::Publish(m) => bus.publish(&m),
        _ => panic!("a complete line must be published"),
    }

    assert_eq!(recv_text(&mut bus, sub_b, 2), Some(b"hello\n".to_vec()));
    assert!(bus.recv(sub_b).is_none(), "no duplicate delivery");
    assert_eq!(recv_text(&mut bus, sub_a, 1), None);
    assert!(bus.recv(sub_a).is_none());
}

#[test]
fn simultaneous_first_messages_cross_exactly_once() {
    // Boundary condition: two clients connect nearly simultaneously and each
    // sends one line right away; both were subscribed at connection setup,
    // before either send, so each sees the other's single message once.
    let mut bus = Bus::new(10);
    let sub_a = bus.subscribe();
    let sub_b = bus.subscribe();

    bus.publish(&line("from a\n", 1));
    bus.publish(&line("from b\n", 2));

    assert_eq!(recv_text(&mut bus, sub_a, 1), None); // own line
    assert_eq!(recv_text(&mut bus, sub_a, 1), Some(b"from b\n".to_vec()));
    assert!(bus.recv(sub_a).is_none());

    assert_eq!(recv_text(&mut bus, sub_b, 2), Some(b"from a\n".to_vec()));
    assert_eq!(recv_text(&mut bus, sub_b, 2), None); // own line
    assert!(bus.recv(sub_b).is_none());
}
