use chat_core::command::{listen_target, stop_listen_targets, FrontendEvent};
use chat_core::inbound::{failed_managers, handle_builtin, inbound_step, InboundEvent};
use chat_core::registry::ListenerRegistry;

fn listen_payload(ev: &Option<FrontendEvent>) -> (u64, Vec<Vec<u8>>) {
    match ev {
        Some(FrontendEvent::Listen { listener, addresses }) => (*listener, addresses.clone()),
        _ => panic!("expected a listen announcement"),
    }
}

#[test]
fn start_listen_then_close_scenario() {
    let wildcard = listen_target(None).ok().unwrap();
    assert_eq!(wildcard, vec![4, 0, 0, 0, 0, 6, 0, 0]);
    let mut reg = ListenerRegistry::new();
    let a = vec![4, 127, 0, 0, 1, 6, 15, 161];
    let out = handle_builtin(&mut reg, InboundEvent::NewListenAddr { listener: 7, address: a.clone() });
    assert_eq!(listen_payload(&out.notification), (7, vec![a.clone()]));
    assert_eq!(reg.get(7), Some(vec![a.clone()]));
    let out = handle_builtin(&mut reg, InboundEvent::ListenerClosed { listener: 7, addresses: vec![a] });
    assert_eq!(listen_payload(&out.notification), (7, vec![]));
    assert_eq!(reg.get(7), None);
    assert!(reg.ids().is_empty());
}

#[test]
fn requested_listen_address_is_kept() {
    let a = vec![4, 10, 0, 0, 2, 6, 0, 80];
    assert_eq!(listen_target(Some(a.clone())).ok(), Some(a));
}

#[test]
fn lifecycle_of_three_addresses() {
    let mut reg = ListenerRegistry::new();
    let addrs = vec![vec![1u8], vec![2u8], vec![3u8]];
    let mut notes = Vec::new();
    for a in &addrs {
        let out = handle_builtin(&mut reg, InboundEvent::NewListenAddr { listener: 3, address: a.clone() });
        notes.push(listen_payload(&out.notification));
    }
    assert_eq!(notes[2], (3, addrs.clone()));
    let out = handle_builtin(&mut reg, InboundEvent::ListenerClosed { listener: 3, addresses: addrs.clone() });
    notes.push(listen_payload(&out.notification));
    assert_eq!(notes.len(), 4);
    assert!(notes.iter().all(|n| n.0 == 3));
    assert!(notes[3].1.is_empty());
    assert_eq!(reg.get(3), None);
}

#[test]
fn repeated_address_is_recorded_once() {
    let mut reg = ListenerRegistry::new();
    reg.add_address(1, vec![9]);
    let all = reg.add_address(1, vec![9]);
    assert_eq!(all, vec![vec![9]]);
}

#[test]
fn partial_close_keeps_listener() {
    let mut reg = ListenerRegistry::new();
    reg.add_address(1, vec![1]);
    reg.add_address(1, vec![2]);
    let rest = reg.close(1, &vec![vec![1]]);
    assert_eq!(rest, Some(vec![vec![2]]));
    assert_eq!(reg.get(1), Some(vec![vec![2]]));
}

#[test]
fn closing_unknown_listener_announces_nothing() {
    let mut reg = ListenerRegistry::new();
    let out = handle_builtin(&mut reg, InboundEvent::ListenerClosed { listener: 5, addresses: vec![vec![1]] });
    assert!(out.notification.is_none());
    assert_eq!(reg.get(5), None);
}

#[test]
fn unanswered_request_is_left_unserved() {
    let mut reg = ListenerRegistry::new();
    let out = handle_builtin(&mut reg, InboundEvent::InboundRequest { unanswered: true });
    assert!(out.unserved_request);
    assert!(out.notification.is_none());
    let out = handle_builtin(&mut reg, InboundEvent::InboundRequest { unanswered: false });
    assert!(!out.unserved_request);
    let out = handle_builtin(&mut reg, InboundEvent::Other);
    assert!(!out.unserved_request && out.notification.is_none());
}

#[test]
fn failing_manager_does_not_stop_bookkeeping() {
    let mut reg = ListenerRegistry::new();
    let out = inbound_step(&mut reg, InboundEvent::NewListenAddr { listener: 2, address: vec![5] }, &vec![false, true]);
    assert_eq!(out.failed, vec![0]);
    assert_eq!(reg.get(2), Some(vec![vec![5]]));
    assert_eq!(listen_payload(&out.builtin.notification), (2, vec![vec![5]]));
}

#[test]
fn failed_managers_lists_positions() {
    assert_eq!(failed_managers(&vec![true, false, true, false, false]), vec![1, 3, 4]);
    assert!(failed_managers(&vec![]).is_empty());
}

#[test]
fn stop_listen_targets_every_listener() {
    let mut reg = ListenerRegistry::new();
    reg.add_address(4, vec![1]);
    reg.add_address(8, vec![2]);
    let mut ids = stop_listen_targets(&reg);
    ids.sort();
    assert_eq!(ids, vec![4, 8]);
}
