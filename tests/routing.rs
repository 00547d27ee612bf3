use busd::rules::parse_rule;
use busd::bus::{error_reply, method_return, service_unknown_bytes, BusState, Route};
use busd::matching::MatchRule;
use busd::message::{Header, MessageType};
use busd::names::NameFlags;
use busd::pending::PendingReplies;

fn header(msg_type: MessageType, sender: &[u8], destination: Option<&[u8]>) -> Header {
    Header {
        msg_type,
        serial: 7,
        sender: Some(sender.to_vec()),
        destination: destination.map(|d| d.to_vec()),
        path: Some(b"/org/example".to_vec()),
        interface: Some(b"org.example.Iface".to_vec()),
        member: Some(b"Changed".to_vec()),
        error_name: None,
        reply_serial: None,
        args: Vec::new(),
    }
}

fn rule() -> MatchRule {
    MatchRule {
        msg_type: None,
        sender: None,
        interface: None,
        member: None,
        path: None,
        destination: None,
        args: Vec::new(),
    }
}

#[test]
fn pending_reply_resolves_only_its_entry() {
    let mut p = PendingReplies::new();
    p.expect(7, 1);
    p.expect(8, 1);
    p.expect(7, 2);
    assert!(p.resolve(7, 1));
    assert_eq!(p.len(), 2);
    assert!(!p.resolve(7, 1));
    assert!(p.resolve(7, 2));
    assert_eq!(p.fail_all(), vec![8]);
    assert_eq!(p.len(), 0);
}

#[test]
fn call_to_missing_name_gets_service_unknown() {
    let mut bus = BusState::new();
    let (_, a) = bus.hello().unwrap();
    let h = header(MessageType::MethodCall, &a, Some(b"com.example.Missing"));
    assert!(matches!(bus.route(&h), Route::ServiceUnknown));
    let e = error_reply(&h, 3, service_unknown_bytes());
    assert_eq!(e.msg_type, MessageType::Error);
    assert_eq!(e.error_name, Some(b"org.freedesktop.DBus.Error.ServiceUnknown".to_vec()));
    assert_eq!(e.destination, Some(a));
    assert_eq!(e.reply_serial, Some(7));
    let sig = header(MessageType::Signal, b":1.0", Some(b"com.example.Missing"));
    assert!(matches!(bus.route(&sig), Route::Drop));
}

#[test]
fn routes_to_bus_owner_and_unique_name() {
    let mut bus = BusState::new();
    let (a, a_name) = bus.hello().unwrap();
    let (b, b_name) = bus.hello().unwrap();
    let none = NameFlags { allow_replacement: false, replace_existing: false, do_not_queue: false };
    bus.request_name(b, &b"com.example.Foo".to_vec(), none);
    let h = header(MessageType::MethodCall, &a_name, Some(b"org.freedesktop.DBus"));
    assert!(matches!(bus.route(&h), Route::ToBus));
    let h = header(MessageType::MethodCall, &a_name, Some(b"com.example.Foo"));
    assert!(matches!(bus.route(&h), Route::Unicast(c) if c == b));
    let h = header(MessageType::MethodCall, &b_name, Some(&a_name));
    assert!(matches!(bus.route(&h), Route::Unicast(c) if c == a));
    let h = header(MessageType::MethodCall, &b_name, Some(b":1.9"));
    assert!(matches!(bus.route(&h), Route::ServiceUnknown));
    let r = method_return(&h, 4);
    assert_eq!(r.msg_type, MessageType::MethodReturn);
    assert_eq!(r.sender, Some(b"org.freedesktop.DBus".to_vec()));
    assert_eq!(r.destination, Some(b_name));
}

#[test]
fn broadcast_goes_to_matching_rules_only() {
    let mut bus = BusState::new();
    let (a, a_name) = bus.hello().unwrap();
    let (b, _) = bus.hello().unwrap();
    let (c, _) = bus.hello().unwrap();
    let mut ra = rule();
    ra.member = Some(b"Changed".to_vec());
    ra.msg_type = Some(MessageType::Signal);
    bus.add_match(a, ra).unwrap();
    let mut rb = rule();
    rb.member = Some(b"Other".to_vec());
    bus.add_match(b, rb).unwrap();
    let mut rc = rule();
    rc.interface = Some(b"org.example.Iface".to_vec());
    rc.sender = Some(b":1.5".to_vec());
    let id = bus.add_match(c, rc).unwrap();
    let sig = header(MessageType::Signal, &a_name, None);
    match bus.route(&sig) {
        Route::Broadcast(v) => assert_eq!(v, vec![a]),
        other => panic!("unexpected route {:?}", other),
    }
    assert!(bus.remove_match(c, id));
    assert!(!bus.remove_match(c, id));
    bus.disconnect(a);
    match bus.route(&sig) {
        Route::Broadcast(v) => assert!(v.is_empty()),
        other => panic!("unexpected route {:?}", other),
    }
}

#[test]
fn rule_field_set_on_rule_but_missing_on_message_fails() {
    let mut r = rule();
    r.path = Some(b"/org/example".to_vec());
    let mut h = header(MessageType::Signal, b":1.0", None);
    assert!(r.matches(&h));
    h.path = None;
    assert!(!r.matches(&h));
    assert!(rule().matches(&h));
}

#[test]
fn list_names_and_queue() {
    let mut bus = BusState::new();
    let (a, _) = bus.hello().unwrap();
    let (b, _) = bus.hello().unwrap();
    let none = NameFlags { allow_replacement: false, replace_existing: false, do_not_queue: false };
    bus.request_name(a, &b"com.example.Foo".to_vec(), none);
    bus.request_name(b, &b"com.example.Foo".to_vec(), none);
    assert_eq!(
        bus.list_names(),
        vec![b"org.freedesktop.DBus".to_vec(), b":1.0".to_vec(), b":1.1".to_vec(), b"com.example.Foo".to_vec()]
    );
    assert_eq!(bus.list_queued_owners(&b"com.example.Foo".to_vec()), vec![a, b]);
    assert_eq!(bus.get_name_owner(&b":1.1".to_vec()), Some(b":1.1".to_vec()));
    assert_eq!(bus.get_name_owner(&b":1.7".to_vec()), None);
    assert_eq!(bus.get_name_owner(&b"org.freedesktop.DBus".to_vec()), Some(b"org.freedesktop.DBus".to_vec()));
}

#[test]
fn rule_text_and_remove_by_rule() {
    let r = parse_rule(&b"type='signal',interface='org.example.Iface',member='Changed'".to_vec()).unwrap();
    assert_eq!(r.msg_type, Some(MessageType::Signal));
    assert_eq!(r.interface, Some(b"org.example.Iface".to_vec()));
    assert_eq!(r.member, Some(b"Changed".to_vec()));
    assert_eq!(r.sender, None);
    assert!(parse_rule(&b"".to_vec()).is_some());
    assert!(parse_rule(&b"type='bogus'".to_vec()).is_none());
    assert!(parse_rule(&b"arg='x'".to_vec()).is_none());
    assert!(parse_rule(&b"member='x".to_vec()).is_none());
    assert!(parse_rule(&b"member=x".to_vec()).is_none());
    let mut bus = BusState::new();
    let (a, a_name) = bus.hello().unwrap();
    bus.add_match(a, r).unwrap();
    let sig = header(MessageType::Signal, &a_name, None);
    assert!(matches!(bus.route(&sig), Route::Broadcast(v) if v == vec![a]));
    let same = parse_rule(&b"member='Changed',type='signal',interface='org.example.Iface'".to_vec()).unwrap();
    assert!(bus.remove_rule(a, &same));
    assert!(!bus.remove_rule(a, &same));
    assert!(matches!(bus.route(&sig), Route::Broadcast(v) if v.is_empty()));
}

#[test]
fn calls_to_departed_callee_fail() {
    let mut p = PendingReplies::new();
    p.expect(3, 1);
    p.expect(4, 2);
    p.expect(5, 1);
    assert_eq!(p.drop_callee(1), vec![3, 5]);
    assert_eq!(p.len(), 1);
    assert!(p.resolve(4, 2));
}

#[test]
fn arg_filters_match_leading_string_arguments() {
    let r = parse_rule(&b"type='signal',arg0='com.example.Foo',arg2=''".to_vec()).unwrap();
    assert_eq!(r.args.len(), 2);
    assert_eq!((r.args[0].index, r.args[0].value.clone()), (0, b"com.example.Foo".to_vec()));
    assert_eq!((r.args[1].index, r.args[1].value.clone()), (2, Vec::new()));
    let mut h = header(MessageType::Signal, b":1.0", None);
    h.args = vec![b"com.example.Foo".to_vec(), b":1.0".to_vec(), Vec::new()];
    assert!(r.matches(&h));
    h.args[0] = b"com.example.Bar".to_vec();
    assert!(!r.matches(&h));
    h.args = vec![b"com.example.Foo".to_vec()];
    assert!(!r.matches(&h));
    assert!(parse_rule(&b"arg64='x'".to_vec()).is_none());
    assert!(parse_rule(&b"arg07='x'".to_vec()).is_none());
    assert_eq!(parse_rule(&b"arg63='x'".to_vec()).unwrap().args[0].index, 63);
}
