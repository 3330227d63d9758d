use arc::proto::id::{Role, SessionId};
use arc::proto::relay::{ClientMsg, RelayErrorKind, ServerMsg};
use arc::relay::connection::{
    after_send, bind_address, farewell, handshake, pump, reject, serve, Incoming, Opening, Pumped,
    Queued, Sent,
};
use arc::relay::hub::Hub;

fn sid(n: u8) -> SessionId {
    SessionId::from_bytes([n; 16])
}

#[test]
fn join_reports_peer_presence() {
    let mut hub = Hub::new();
    let first_id = hub.new_connection_id();
    let first = hub.join(sid(1), Role::Controller, first_id);
    assert!(!first.peer_present);
    assert!(first.evicted.is_none());

    let second_id = hub.new_connection_id();
    let second = hub.join(sid(1), Role::Runner, second_id);
    assert!(second.peer_present);
    assert_eq!(second.peer, Some(first_id));
    assert!(second.evicted.is_none());
}

#[test]
fn duplicate_role_evicts_incumbent() {
    let mut hub = Hub::new();
    let id1 = hub.new_connection_id();
    hub.join(sid(2), Role::Runner, id1);

    let id2 = hub.new_connection_id();
    let joined = hub.join(sid(2), Role::Runner, id2);
    assert_eq!(joined.evicted, Some(id1), "incumbent must be evicted");

    assert!(hub.leave(&sid(2), Role::Runner, id1).is_none());
    assert_eq!(hub.session_count(), 1);
    assert!(hub.leave(&sid(2), Role::Runner, id2).is_none());
    assert_eq!(hub.session_count(), 0);
}

#[test]
fn leave_notifies_peer_and_reaps_empty_session() {
    let mut hub = Hub::new();
    let cid = hub.new_connection_id();
    let rid = hub.new_connection_id();
    hub.join(sid(3), Role::Controller, cid);
    hub.join(sid(3), Role::Runner, rid);

    assert_eq!(hub.leave(&sid(3), Role::Runner, rid), Some(cid));
    assert_eq!(hub.session_count(), 1);
    assert!(hub.leave(&sid(3), Role::Controller, cid).is_none());
    assert_eq!(hub.session_count(), 0);
}

#[test]
fn sessions_do_not_see_each_other() {
    let mut hub = Hub::new();
    let a = hub.new_connection_id();
    let b = hub.new_connection_id();
    assert_ne!(a, b);
    hub.join(sid(4), Role::Controller, a);
    hub.join(sid(5), Role::Runner, b);
    assert_eq!(hub.peer_of(&sid(4), Role::Controller), None);
    assert_eq!(hub.session_count(), 2);
}

#[test]
fn refusal_carries_its_category() {
    match reject(RelayErrorKind::Replaced, "replaced by a new connection") {
        ServerMsg::Error { kind, message } => {
            assert_eq!(kind, RelayErrorKind::Replaced);
            assert_eq!(message, "replaced by a new connection");
        }
        _ => panic!("not an error"),
    }
}

#[test]
fn newcomer_is_greeted_and_peer_told() {
    let mut hub = Hub::new();
    let a = hub.new_connection_id();
    let b = hub.new_connection_id();
    hub.join(sid(6), Role::Controller, a);
    let greeting = serve(hub.join(sid(6), Role::Runner, b));
    assert!(greeting.evict.is_none());
    assert!(matches!(greeting.welcome, ServerMsg::Welcome { peer_present: true }));
    assert!(matches!(greeting.notify, Some((to, ServerMsg::PeerJoined)) if to == a));
}

#[test]
fn data_without_peer_is_dropped() {
    let data = Incoming::Message(Some(ClientMsg::Relay { data: vec![1, 2] }));
    match pump(data, Some(7)) {
        Pumped::Forward { to, message } => {
            assert_eq!(to, 7);
            assert!(matches!(message, ServerMsg::Relay { data } if data == vec![1, 2]));
        }
        _ => panic!("not forwarded"),
    }
    let data = Incoming::Message(Some(ClientMsg::Relay { data: vec![1] }));
    assert!(!matches!(pump(data, None), Pumped::Forward { .. }));
    assert!(matches!(pump(Incoming::Closed, Some(7)), Pumped::Close(_)));
}

#[test]
fn stalled_peer_is_cut_off() {
    for payload in [false, true] {
        assert_eq!(after_send(Queued::Taken, payload), Sent::GoOn);
        assert_eq!(after_send(Queued::Full, payload), Sent::EndReceiver);
    }
    assert_eq!(after_send(Queued::Gone, true), Sent::EndSender);
    assert_eq!(after_send(Queued::Gone, false), Sent::GoOn);
}

#[test]
fn departure_is_told_only_to_a_peer() {
    assert!(matches!(farewell(Some(3)), Some((3, ServerMsg::PeerLeft))));
    assert!(farewell(None).is_none());
}

#[test]
fn first_message_must_introduce() {
    assert!(matches!(handshake(Incoming::Control), Opening::Wait));
    assert!(matches!(handshake(Incoming::Closed), Opening::Refuse(None)));
}

#[test]
fn default_address_of_the_relay() {
    assert_eq!(bind_address(Some("1.2.3.4:9".to_string())), "1.2.3.4:9");
    assert!(bind_address(None).contains(':'));
}
