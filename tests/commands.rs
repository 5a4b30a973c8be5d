use chat_core::command::{
    check_group, dial_target, finish_new_group, finish_publish, finish_subscribe, finish_unsubscribe,
    groups, network_reply, new_group_id, prepare_new_group, prepare_publish, CommandError, FrontendEvent,
};
use chat_core::state::ChatState;
use libp2p::multiaddr::Protocol;
use libp2p::{Multiaddr, PeerId};

fn me() -> Vec<u8> {
    vec![0, 4, 1, 2, 3, 4]
}

fn create(state: &mut ChatState, info: &[u8]) -> u64 {
    let g = new_group_id(state).ok().unwrap();
    let (r, ev) = finish_new_group(state, g, info.to_vec(), &me(), b"me".to_vec(), Ok(()));
    assert_eq!(r.ok(), Some(g));
    match ev {
        Some(FrontendEvent::GroupUpdate { group, info: i }) => {
            assert_eq!(group, g);
            assert_eq!(i, info.to_vec());
        }
        _ => panic!("expected a group update"),
    }
    g
}

#[test]
fn dial_target_reads_trailing_peer() {
    let peer = PeerId::from_bytes(&me()).unwrap();
    let addr: Multiaddr = "/ip4/127.0.0.1/tcp/4001".parse().unwrap();
    let addr = addr.with(Protocol::P2p(peer));
    assert_eq!(dial_target(&addr.to_vec()).ok(), Some(me()));
}

#[test]
fn dial_target_rejects_address_without_peer() {
    let addr: Multiaddr = "/ip4/127.0.0.1/tcp/4001".parse().unwrap();
    assert!(matches!(dial_target(&addr.to_vec()), Err(CommandError::InvalidAddress)));
    assert!(matches!(dial_target(&vec![255, 255, 255]), Err(CommandError::InvalidAddress)));
}

#[test]
fn network_reply_keeps_the_failure() {
    assert!(network_reply(Ok(())).is_ok());
    match network_reply(Err("no route".to_string())) {
        Err(CommandError::Network(m)) => assert_eq!(m, "no route"),
        _ => panic!("expected a network error"),
    }
}

#[test]
fn missing_group_is_rejected_everywhere() {
    let mut state = ChatState::new();
    assert!(matches!(check_group(&state, 3), Err(CommandError::GroupNotFound)));
    let (r, ev) = finish_subscribe(&mut state, 3, &me(), Ok(()));
    assert!(matches!(r, Err(CommandError::GroupNotFound)) && ev.is_none());
    assert!(matches!(finish_unsubscribe(&mut state, 3, &me(), Ok(())), Err(CommandError::GroupNotFound)));
    assert!(matches!(prepare_publish(&state, 3, vec![1], &me(), 10), Err(CommandError::GroupNotFound)));
    let msg = chat_core::state::GroupMessage::new(vec![1], me(), 10);
    assert!(matches!(finish_publish(&mut state, 3, msg, Ok(())), Err(CommandError::GroupNotFound)));
    assert!(groups(&state).is_empty());
    assert!(!state.has_user(&me()));
}

#[test]
fn new_groups_get_fresh_ids_and_are_listed() {
    let mut state = ChatState::new();
    let a = create(&mut state, b"alpha");
    let b = create(&mut state, b"beta");
    assert_ne!(a, b);
    let list = groups(&state);
    assert_eq!(list.len(), 2);
    assert!(list.iter().any(|s| s.id == a && s.info == b"alpha".to_vec()));
    assert!(list.iter().any(|s| s.id == b && s.info == b"beta".to_vec()));
    assert!(state.is_member(a, &me()));
    assert!(state.has_user(&me()));
}

#[test]
fn failed_group_subscription_records_nothing() {
    let mut state = ChatState::new();
    let g = prepare_new_group(&state, 42).ok().unwrap();
    assert_eq!(g, 42);
    let (r, ev) = finish_new_group(&mut state, g, b"x".to_vec(), &me(), b"me".to_vec(), Err("down".to_string()));
    assert!(matches!(r, Err(CommandError::Network(_))) && ev.is_none());
    assert!(!state.has_group(g));
    assert!(!state.has_user(&me()));
    assert_eq!(prepare_new_group(&state, 42).ok(), Some(42));
}

#[test]
fn prepare_new_group_refuses_an_id_in_use() {
    let mut state = ChatState::new();
    let g = create(&mut state, b"a");
    assert!(matches!(prepare_new_group(&state, g), Err(CommandError::GroupIdTaken)));
    assert_eq!(prepare_new_group(&state, g.wrapping_add(1)).ok(), Some(g.wrapping_add(1)));
}

#[test]
fn drawn_group_ids_are_not_in_use() {
    let mut state = ChatState::new();
    let mut ids = Vec::new();
    for _ in 0..20 {
        let g = create(&mut state, b"g");
        assert!(!ids.contains(&g));
        ids.push(g);
    }
    assert_eq!(groups(&state).len(), 20);
}

#[test]
fn group_id_reuse_is_refused() {
    let mut state = ChatState::new();
    let g = create(&mut state, b"a");
    let (r, _) = finish_new_group(&mut state, g, b"b".to_vec(), &me(), b"me".to_vec(), Ok(()));
    assert!(matches!(r, Err(CommandError::GroupIdTaken)));
}

#[test]
fn resubscribe_after_unsubscribe() {
    let mut state = ChatState::new();
    let g = create(&mut state, b"room");
    assert!(finish_unsubscribe(&mut state, g, &me(), Ok(())).is_ok());
    assert!(!state.is_member(g, &me()));
    let (r, ev) = finish_subscribe(&mut state, g, &me(), Ok(()));
    assert!(r.is_ok());
    assert!(matches!(ev, Some(FrontendEvent::GroupUpdate { group, .. }) if group == g));
    assert!(state.is_member(g, &me()));
}

#[test]
fn failed_unsubscribe_keeps_membership() {
    let mut state = ChatState::new();
    let g = create(&mut state, b"room");
    assert!(matches!(finish_unsubscribe(&mut state, g, &me(), Err("x".to_string())), Err(CommandError::Network(_))));
    assert!(state.is_member(g, &me()));
}

#[test]
fn publish_stamps_and_appends() {
    let mut state = ChatState::new();
    let g = create(&mut state, b"room");
    let msg = prepare_publish(&state, g, b"hi".to_vec(), &me(), 1234).ok().unwrap();
    assert_eq!(msg.author, me());
    assert_eq!(msg.created, 1234);
    assert_eq!(msg.content, b"hi".to_vec());
    let out = finish_publish(&mut state, g, msg, Ok(())).ok().unwrap();
    assert_eq!(out.content, b"hi".to_vec());
    assert_eq!(state.message_count(g), Some(1));
}

#[test]
fn failed_publish_leaves_history() {
    let mut state = ChatState::new();
    let g = create(&mut state, b"room");
    let msg = prepare_publish(&state, g, b"hi".to_vec(), &me(), 1).ok().unwrap();
    let r = finish_publish(&mut state, g, msg, Err("unreachable".to_string()));
    assert!(matches!(r, Err(CommandError::Network(ref m)) if m == "unreachable"));
    assert_eq!(state.message_count(g), Some(0));
}
