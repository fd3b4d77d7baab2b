use chrome_bridge::message::MyMessage;
use chrome_bridge::net::{NetworkManager, Route, SendStep};

fn msg(typ: &str, func: &[&str], id: &str) -> MyMessage {
    MyMessage {
        Typ: typ.to_string(),
        FuncName: func.iter().map(|s| s.to_string()).collect(),
        Params: vec!["1".to_string(), "2".to_string()],
        Id: id.to_string(),
        Data: "null".to_string(),
    }
}

fn manager() -> NetworkManager {
    NetworkManager::new(vec!["click".to_string(), "close".to_string()])
}

#[test]
fn new_manager() {
    let nm = manager();
    assert!(!nm.is_connected());
    assert_eq!(nm.names(), vec!["click".to_string(), "close".to_string()]);
    assert_eq!(nm.session(), Some("test".to_string()));
}

#[test]
fn send_without_page_returns_message() {
    let mut nm = manager();
    match nm.send(msg("eval", &[], "42")) {
        SendStep::Unconnected(m) => assert_eq!(m.Id, "42"),
        SendStep::Transmit(_) => panic!("nothing is connected"),
    }
    assert!(!nm.is_waiting(&"42".to_string()));
}

#[test]
fn send_and_settle_round_trip() {
    let mut nm = manager();
    nm.attach();
    assert!(nm.is_connected());
    let s = nm.session().unwrap();
    assert_eq!(s.len(), 36);
    match nm.send(msg("eval", &[], "42")) {
        SendStep::Transmit(m) => assert_eq!(m.Typ, "eval"),
        SendStep::Unconnected(_) => panic!("a page is connected"),
    }
    assert!(nm.is_waiting(&"42".to_string()));
    let reply = msg("", &[], "42");
    assert!(nm.can_route(&reply));
    match nm.route(reply) {
        Route::Wake(m) => assert_eq!(m.Id, "42"),
        _ => panic!("the reply goes to the sender"),
    }
    nm.settle(&"42".to_string());
    assert!(!nm.is_waiting(&"42".to_string()));
}

#[test]
fn calls_are_routed_to_bound_functions() {
    let nm = manager();
    let call = msg("call", &["xz", "click"], "7");
    assert!(nm.can_route(&call));
    match nm.route(call) {
        Route::Invoke { name, params, id } => {
            assert_eq!(name, "click");
            assert_eq!(params, vec!["1".to_string(), "2".to_string()]);
            assert_eq!(id, "7");
        }
        _ => panic!("expected a call"),
    }
    let other = msg("nav", &[], "8");
    assert!(nm.can_route(&other));
    assert!(matches!(nm.route(other), Route::Ignore));
}

#[test]
fn unroutable_calls() {
    let nm = manager();
    assert!(!nm.can_route(&msg("call", &["xz", "missing"], "1")));
    assert!(!nm.can_route(&msg("call", &["xz"], "1")));
}

#[test]
fn answers_only_values() {
    assert!(NetworkManager::answer("1".to_string(), None).is_none());
    assert!(NetworkManager::answer("1".to_string(), Some("null".to_string())).is_none());
    let m = NetworkManager::answer("1".to_string(), Some("3".to_string())).unwrap();
    assert_eq!(m.Id, "1");
    assert_eq!(m.Data, "3");
    assert_eq!(m.Typ, "");
    assert!(m.FuncName.is_empty());
}

#[test]
fn bind_messages_for_every_name() {
    let nm = manager();
    let ms = nm.bind2();
    assert_eq!(ms.len(), 2);
    for (m, name) in ms.iter().zip(["click", "close"]) {
        assert_eq!(m.Typ, "bind");
        assert_eq!(m.FuncName, vec!["xz".to_string(), name.to_string()]);
        assert!(m.Params.is_empty());
        assert_eq!(m.Data, "null");
        assert_eq!(m.Id.len(), 36);
        assert_eq!(m.Id.as_bytes()[8], b'-');
        assert_eq!(m.Id.as_bytes()[14], b'4');
    }
    assert_ne!(ms[0].Id, ms[1].Id);
}

#[test]
fn default_message() {
    let m = MyMessage::default();
    assert_eq!(m.Typ, "");
    assert!(m.FuncName.is_empty() && m.Params.is_empty());
    assert_eq!(m.Id, "");
    assert_eq!(m.Data, "null");
}
