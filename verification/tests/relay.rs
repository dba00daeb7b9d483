use std::sync::mpsc::{channel, Receiver};
use syncterm::engine::{answer, serve, ShellServer};
use syncterm::registry::Registry;

struct Upper;

impl ShellServer<String, String> for Upper {
    fn process_input(&self, input: String) -> String {
        input.to_uppercase()
    }
}

struct PingPong;

impl ShellServer<String, String> for PingPong {
    fn process_input(&self, input: String) -> String {
        input.replace("PING", "PONG")
    }
}

fn drain(receiver: &Receiver<String>) -> Vec<String> {
    let mut seen = Vec::new();
    while let Ok(response) = receiver.try_recv() {
        seen.push(response);
    }
    seen
}

#[test]
fn broadcast_reaches_every_registered_connection() {
    let (tx_a, rx_a) = channel::<String>();
    let (tx_b, rx_b) = channel::<String>();
    let mut registry: Registry<String> = Registry::new();
    assert_eq!(registry.register(tx_a), Some(0));
    assert_eq!(registry.register(tx_b), Some(1));
    let relayed = serve(&Upper, &mut registry, "ping".to_string());
    assert_eq!(relayed.response, "PING");
    assert_eq!(relayed.accepted, vec![true, true]);
    assert_eq!(rx_a.try_recv().unwrap(), "PING");
    assert_eq!(rx_b.try_recv().unwrap(), "PING");
    assert_eq!(registry.ids(), vec![0, 1]);
}

#[test]
fn a_new_registry_is_empty() {
    let registry: Registry<String> = Registry::new();
    assert!(registry.is_empty());
    assert_eq!(registry.len(), 0);
    assert_eq!(registry.ids(), Vec::<u64>::new());
    assert!(!registry.contains(0));
}

#[test]
fn identifiers_count_the_connections_accepted_before() {
    let mut registry: Registry<u8> = Registry::new();
    let mut receivers = Vec::new();
    for expected in 0..5u64 {
        let (tx, rx) = channel::<u8>();
        receivers.push(rx);
        assert_eq!(registry.register(tx), Some(expected));
    }
    assert_eq!(registry.len(), 5);
    assert_eq!(registry.ids(), vec![0, 1, 2, 3, 4]);
    assert!(registry.contains(4));
    assert!(!registry.contains(5));
}

#[test]
fn a_broadcast_to_nobody_relays_to_nobody() {
    let mut registry: Registry<String> = Registry::new();
    let relayed = serve(&Upper, &mut registry, "anyone".to_string());
    assert_eq!(relayed.response, "ANYONE");
    assert_eq!(relayed.accepted, Vec::<bool>::new());
    assert!(registry.is_empty());
}

#[test]
fn both_clients_observe_the_response_before_the_next_message() {
    let (tx_a, rx_a) = channel::<String>();
    let (tx_b, rx_b) = channel::<String>();
    let mut registry: Registry<String> = Registry::new();
    registry.register(tx_a);
    registry.register(tx_b);
    let first = serve(&PingPong, &mut registry, "PING".to_string());
    assert_eq!(first.response, "PONG");
    assert_eq!(drain(&rx_a), vec!["PONG".to_string()]);
    assert_eq!(drain(&rx_b), vec!["PONG".to_string()]);
    let second = serve(&PingPong, &mut registry, "PING again".to_string());
    assert_eq!(second.response, "PONG again");
    assert_eq!(drain(&rx_a), vec!["PONG again".to_string()]);
    assert_eq!(drain(&rx_b), vec!["PONG again".to_string()]);
}

#[test]
fn after_a_disconnect_only_the_other_client_observes() {
    let (tx_a, rx_a) = channel::<String>();
    let (tx_b, rx_b) = channel::<String>();
    let mut registry: Registry<String> = Registry::new();
    registry.register(tx_a);
    registry.register(tx_b);
    serve(&PingPong, &mut registry, "PING".to_string());
    assert_eq!(drain(&rx_b), vec!["PONG".to_string()]);
    drop(rx_b);
    let relayed = serve(&PingPong, &mut registry, "PING2".to_string());
    assert_eq!(relayed.response, "PONG2");
    assert_eq!(relayed.accepted, vec![true, false]);
    assert_eq!(drain(&rx_a), vec!["PONG".to_string(), "PONG2".to_string()]);
    assert_eq!(registry.ids(), vec![0]);
    let again = serve(&PingPong, &mut registry, "PING3".to_string());
    assert_eq!(again.accepted, vec![true]);
    assert_eq!(drain(&rx_a), vec!["PONG3".to_string()]);
}

#[test]
fn a_stalled_client_delays_nobody() {
    let (tx_slow, rx_slow) = channel::<String>();
    let (tx_fast, rx_fast) = channel::<String>();
    let mut registry: Registry<String> = Registry::new();
    registry.register(tx_slow);
    registry.register(tx_fast);
    for input in ["a", "b", "c"] {
        let relayed = serve(&Upper, &mut registry, input.to_string());
        assert_eq!(relayed.accepted, vec![true, true]);
        assert_eq!(drain(&rx_fast), vec![input.to_uppercase()]);
    }
    assert_eq!(registry.ids(), vec![0, 1]);
    assert_eq!(drain(&rx_slow), vec!["A".to_string(), "B".to_string(), "C".to_string()]);
}

#[test]
fn every_connection_observes_the_same_order() {
    let mut registry: Registry<String> = Registry::new();
    let mut receivers = Vec::new();
    for _ in 0..4 {
        let (tx, rx) = channel::<String>();
        registry.register(tx);
        receivers.push(rx);
    }
    let inputs = ["one", "two", "three", "four", "five"];
    let mut relayed = Vec::new();
    for input in inputs {
        relayed.push(serve(&Upper, &mut registry, input.to_string()).response);
    }
    assert_eq!(relayed, vec!["ONE", "TWO", "THREE", "FOUR", "FIVE"]);
    for rx in &receivers {
        assert_eq!(drain(rx), relayed);
    }
}

#[test]
fn a_late_connection_is_not_sent_earlier_responses() {
    let (tx_a, rx_a) = channel::<String>();
    let mut registry: Registry<String> = Registry::new();
    registry.register(tx_a);
    serve(&Upper, &mut registry, "one".to_string());
    serve(&Upper, &mut registry, "two".to_string());
    let (tx_b, rx_b) = channel::<String>();
    assert_eq!(registry.register(tx_b), Some(1));
    serve(&Upper, &mut registry, "three".to_string());
    assert_eq!(drain(&rx_a), vec!["ONE".to_string(), "TWO".to_string(), "THREE".to_string()]);
    assert_eq!(drain(&rx_b), vec!["THREE".to_string()]);
}

#[test]
fn a_pruned_identifier_is_never_issued_again() {
    let (tx_a, rx_a) = channel::<u8>();
    let (tx_b, rx_b) = channel::<u8>();
    let mut registry: Registry<u8> = Registry::new();
    registry.register(tx_a);
    registry.register(tx_b);
    drop(rx_a);
    assert_eq!(registry.broadcast(&1), vec![false, true]);
    assert_eq!(registry.ids(), vec![1]);
    let (tx_c, rx_c) = channel::<u8>();
    assert_eq!(registry.register(tx_c), Some(2));
    assert_eq!(registry.ids(), vec![1, 2]);
    assert_eq!(registry.broadcast(&2), vec![true, true]);
    assert_eq!(rx_b.try_recv(), Ok(1));
    assert_eq!(rx_b.try_recv(), Ok(2));
    assert_eq!(rx_c.try_recv(), Ok(2));
    assert!(rx_c.try_recv().is_err());
}

#[test]
fn pruning_keeps_the_order_of_the_survivors() {
    let mut registry: Registry<u8> = Registry::new();
    let mut receivers = Vec::new();
    for _ in 0..6 {
        let (tx, rx) = channel::<u8>();
        registry.register(tx);
        receivers.push(Some(rx));
    }
    receivers[0] = None;
    receivers[3] = None;
    receivers[5] = None;
    assert_eq!(registry.broadcast(&9), vec![false, true, true, false, true, false]);
    assert_eq!(registry.ids(), vec![1, 2, 4]);
    assert_eq!(registry.len(), 3);
    for rx in receivers.iter().flatten() {
        assert_eq!(rx.try_recv(), Ok(9));
    }
    assert_eq!(registry.broadcast(&10), vec![true, true, true]);
}

#[test]
fn settle_removes_what_did_not_accept() {
    let mut registry: Registry<u8> = Registry::new();
    let mut receivers = Vec::new();
    for _ in 0..3 {
        let (tx, rx) = channel::<u8>();
        registry.register(tx);
        receivers.push(rx);
    }
    registry.settle(&7, &vec![true, false, true]);
    assert_eq!(registry.ids(), vec![0, 2]);
    assert_eq!(registry.broadcast(&8), vec![true, true]);
    assert_eq!(receivers[0].try_recv(), Ok(8));
    assert!(receivers[1].try_recv().is_err());
    assert_eq!(receivers[2].try_recv(), Ok(8));
}

#[test]
fn settle_counts_a_missing_outcome_as_refused() {
    let mut registry: Registry<u8> = Registry::new();
    let mut receivers = Vec::new();
    for _ in 0..3 {
        let (tx, rx) = channel::<u8>();
        registry.register(tx);
        receivers.push(rx);
    }
    registry.settle(&7, &vec![true]);
    assert_eq!(registry.ids(), vec![0]);
    registry.settle(&7, &vec![]);
    assert!(registry.is_empty());
}

#[test]
fn a_turn_in_two_halves_is_a_turn() {
    let (tx_a, rx_a) = channel::<String>();
    let (tx_b, rx_b) = channel::<String>();
    let mut registry: Registry<String> = Registry::new();
    registry.register(tx_a);
    registry.register(tx_b);
    drop(rx_a);
    let answered = answer(&Upper, "late".to_string());
    assert_eq!(registry.ids(), vec![0, 1]);
    let relayed = answered.relay(&mut registry);
    assert_eq!(relayed.response, "LATE");
    assert_eq!(relayed.accepted, vec![false, true]);
    assert_eq!(registry.ids(), vec![1]);
    assert_eq!(drain(&rx_b), vec!["LATE".to_string()]);
}
