use tokio::sync::broadcast::error::TryRecvError;
use ws_server::bus::PublishOutcome;
use ws_server::envelope::WsEvent;
use ws_server::state::AppState;

fn event(name: &str, data: &str) -> WsEvent {
    WsEvent { event: name.to_string(), data: serde_json::from_str(data).unwrap() }
}

fn client_id_in(welcome: &str) -> String {
    let parsed: serde_json::Value = serde_json::from_str(welcome).unwrap();
    parsed["data"]["clientId"].as_str().unwrap().to_string()
}

#[test]
fn a_new_relay_has_no_clients() {
    let state = AppState::new();
    let stats = state.stats();
    assert_eq!(stats.connected_clients, 0);
    assert!(stats.client_ids.is_empty());
}

#[test]
fn publish_with_zero_subscribers_reports_success_and_zero_receivers() {
    let state = AppState::new();
    let outcome = state.publish(&event("booking_created", "{\"id\":1}"));
    assert_eq!(outcome, PublishOutcome::Dropped);
    assert!(outcome.success());
    assert_eq!(outcome.receivers(), Some(0));
}

#[test]
fn connect_assigns_a_version_4_identifier() {
    let mut state = AppState::new();
    let connection = state.connect();
    assert_eq!((connection.id >> 76) & 0xf, 4);
    assert_eq!((connection.id >> 62) & 0x3, 2);
    let shown = client_id_in(&connection.welcome);
    assert_eq!(shown.len(), 36);
    assert_eq!(shown.as_bytes()[14], b'4');
    assert_eq!(shown.replace('-', ""), format!("{:032x}", connection.id));
}

#[test]
fn connect_registers_the_client() {
    let mut state = AppState::new();
    let connection = state.connect();
    let stats = state.stats();
    assert_eq!(stats.connected_clients, 1);
    assert_eq!(stats.client_ids, vec![client_id_in(&connection.welcome)]);
}

#[test]
fn identifiers_of_many_sessions_are_pairwise_distinct() {
    let mut state = AppState::new();
    let connections: Vec<_> = (0..200).map(|_| state.connect()).collect();
    let mut ids: Vec<u128> = connections.iter().map(|c| c.id).collect();
    ids.sort();
    ids.dedup();
    assert_eq!(ids.len(), 200);
    let stats = state.stats();
    assert_eq!(stats.connected_clients, 200);
    let mut shown = stats.client_ids.clone();
    shown.sort();
    shown.dedup();
    assert_eq!(shown.len(), 200);
}

#[test]
fn stats_count_follows_connects_and_disconnects() {
    let mut state = AppState::new();
    let a = state.connect();
    let b = state.connect();
    let c = state.connect();
    assert_eq!(state.stats().connected_clients, 3);
    state.disconnect(b.id);
    assert_eq!(state.stats().connected_clients, 2);
    state.disconnect(b.id);
    assert_eq!(state.stats().connected_clients, 2);
    state.disconnect(a.id);
    state.disconnect(c.id);
    let stats = state.stats();
    assert_eq!(stats.connected_clients, 0);
    assert!(stats.client_ids.is_empty());
}

#[test]
fn stats_lists_the_identifiers_that_the_clients_were_told() {
    let mut state = AppState::new();
    let a = state.connect();
    let b = state.connect();
    let mut expected = vec![client_id_in(&a.welcome), client_id_in(&b.welcome)];
    expected.sort();
    let stats = state.stats();
    let mut listed = stats.client_ids.clone();
    listed.sort();
    assert_eq!(listed, expected);
    assert_eq!(stats.connected_clients, listed.len());
}

#[test]
fn one_client_receives_exactly_what_was_published() {
    let mut state = AppState::new();
    let mut a = state.connect();
    assert!(!client_id_in(&a.welcome).is_empty());

    let outcome = state.publish(&event("booking_created", "{\"id\":1}"));
    assert_eq!(outcome, PublishOutcome::Delivered { receivers: 1 });
    assert!(outcome.success());
    assert_eq!(outcome.receivers(), Some(1));
    assert_eq!(
        a.subscription.try_recv(),
        Ok("{\"event\":\"booking_created\",\"data\":{\"id\":1}}".to_string())
    );
    assert_eq!(a.subscription.try_recv(), Err(TryRecvError::Empty));

    let id = a.id;
    drop(a);
    state.disconnect(id);
    let outcome = state.publish(&event("booking_created", "{\"id\":1}"));
    assert!(outcome.success());
    assert_eq!(outcome.receivers(), Some(0));
    assert_eq!(state.stats().connected_clients, 0);
}

#[test]
fn two_clients_receive_the_identical_payload() {
    let mut state = AppState::new();
    let mut a = state.connect();
    let mut b = state.connect();
    let outcome = state.publish(&event("service_updated", "{\"id\":5,\"name\":\"cut\"}"));
    assert_eq!(outcome.receivers(), Some(2));
    let to_a = a.subscription.try_recv().unwrap();
    let to_b = b.subscription.try_recv().unwrap();
    assert_eq!(to_a, to_b);
    assert_eq!(to_a, "{\"event\":\"service_updated\",\"data\":{\"id\":5,\"name\":\"cut\"}}");
}

#[test]
fn closing_one_client_mid_stream_does_not_drop_the_others_delivery() {
    let mut state = AppState::new();
    let a = state.connect();
    let mut b = state.connect();
    state.publish(&event("booking_created", "1"));
    // A goes away without having read anything
    let id = a.id;
    drop(a);
    state.disconnect(id);
    let outcome = state.publish(&event("booking_deleted", "2"));
    assert_eq!(outcome, PublishOutcome::Delivered { receivers: 1 });
    assert_eq!(
        b.subscription.try_recv(),
        Ok("{\"event\":\"booking_created\",\"data\":1}".to_string())
    );
    assert_eq!(
        b.subscription.try_recv(),
        Ok("{\"event\":\"booking_deleted\",\"data\":2}".to_string())
    );
    assert_eq!(b.subscription.try_recv(), Err(TryRecvError::Empty));
    assert_eq!(state.stats().connected_clients, 1);
}

#[test]
fn a_client_does_not_receive_what_was_published_before_it_connected() {
    let mut state = AppState::new();
    let mut a = state.connect();
    state.publish(&event("category_created", "null"));
    let mut b = state.connect();
    state.publish(&event("category_deleted", "null"));
    assert_eq!(
        a.subscription.try_recv(),
        Ok("{\"event\":\"category_created\",\"data\":null}".to_string())
    );
    assert_eq!(
        b.subscription.try_recv(),
        Ok("{\"event\":\"category_deleted\",\"data\":null}".to_string())
    );
}

#[test]
fn disconnect_of_an_unknown_identifier_changes_nothing() {
    let mut state = AppState::new();
    let a = state.connect();
    state.disconnect(a.id ^ 1);
    assert_eq!(state.stats().connected_clients, 1);
}

#[test]
fn the_bus_of_a_new_relay_keeps_256_messages_for_a_slow_client() {
    let mut state = AppState::new();
    let mut slow = state.connect();
    for n in 0..(ws_server::bus::BUS_CAPACITY + 10) {
        let outcome = state.publish(&event("booking_updated", &n.to_string()));
        assert_eq!(outcome, PublishOutcome::Delivered { receivers: 1 });
    }
    // the ten oldest are gone, the 256 after them are kept
    assert_eq!(slow.subscription.try_recv(), Err(TryRecvError::Lagged(10)));
    for n in 10..(ws_server::bus::BUS_CAPACITY + 10) {
        assert_eq!(
            slow.subscription.try_recv(),
            Ok(format!("{{\"event\":\"booking_updated\",\"data\":{n}}}"))
        );
    }
    assert_eq!(slow.subscription.try_recv(), Err(TryRecvError::Empty));
}

#[test]
fn a_client_that_reads_in_time_loses_nothing_at_full_capacity() {
    let mut state = AppState::new();
    let mut reader = state.connect();
    for n in 0..ws_server::bus::BUS_CAPACITY {
        state.publish(&event("service_created", &n.to_string()));
    }
    for n in 0..ws_server::bus::BUS_CAPACITY {
        assert_eq!(
            reader.subscription.try_recv(),
            Ok(format!("{{\"event\":\"service_created\",\"data\":{n}}}"))
        );
    }
}

#[test]
fn connect_never_takes_an_identifier_that_is_in_use() {
    let mut state = AppState::new();
    let mut seen = std::collections::HashSet::new();
    for round in 0..50 {
        let before = state.stats().connected_clients;
        let connection = state.connect();
        assert!(seen.insert(connection.id));
        assert_eq!(state.stats().connected_clients, before + 1);
        if round % 3 == 0 {
            state.disconnect(connection.id);
            seen.remove(&connection.id);
        }
    }
    assert_eq!(state.stats().connected_clients, seen.len());
}
