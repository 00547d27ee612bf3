use busd::bus::BusState;
use busd::calls::{parse_bus_call, BusCall};
use busd::codec::Endian;
use busd::message::{Header, MessageType};
use busd::names::NameFlags;
use busd::bus::Route;
use busd::outbound::{admits, marshal, marshalable, protocol_error_reply, waiter_failures, Body, BusError};
use busd::pending::PendingReplies;

fn call(member: &str, sender: &[u8], serial: u32) -> Header {
    Header {
        msg_type: MessageType::MethodCall,
        serial,
        sender: Some(sender.to_vec()),
        destination: Some(b"org.freedesktop.DBus".to_vec()),
        path: Some(b"/org/freedesktop/DBus".to_vec()),
        interface: Some(b"org.freedesktop.DBus".to_vec()),
        member: Some(member.as_bytes().to_vec()),
        error_name: None,
        reply_serial: None,
        args: Vec::new(),
    }
}

fn err_name(e: &str) -> Option<Vec<u8>> {
    Some(format!("org.freedesktop.DBus.Error.{}", e).into_bytes())
}

#[test]
fn hello_scenario_through_bus_calls() {
    let mut bus = BusState::new();
    let (a, reply, _) = bus.call_bus(None, &call("Hello", b"", 1), Some(BusCall::Hello));
    let reply = reply.unwrap();
    assert_eq!(a, Some(0));
    assert!(matches!(&reply.body, Body::Str(n) if n == b":1.0"));
    assert_eq!(reply.header.destination, Some(b":1.0".to_vec()));
    assert_eq!(reply.header.reply_serial, Some(1));
    let none = NameFlags { allow_replacement: false, replace_existing: false, do_not_queue: false };
    let foo = b"com.example.Foo".to_vec();
    let (_, reply, changes) = bus.call_bus(a, &call("RequestName", b":1.0", 2), Some(BusCall::RequestName(foo.clone(), none)));
    assert!(matches!(reply.unwrap().body, Body::U32(1)));
    assert_eq!(changes.len(), 1);
    let (b, _, _) = bus.call_bus(None, &call("Hello", b"", 1), Some(BusCall::Hello));
    let rule = b"member='NameOwnerChanged'".to_vec();
    let (_, reply, _) = bus.call_bus(b, &call("AddMatch", b":1.1", 2), Some(BusCall::AddMatch(rule)));
    assert!(matches!(reply.unwrap().body, Body::Empty));
    let (_, reply, _) = bus.call_bus(b, &call("RequestName", b":1.1", 3), Some(BusCall::RequestName(foo.clone(), none)));
    assert!(matches!(reply.unwrap().body, Body::U32(2)));
    let changes = bus.disconnect(a.unwrap());
    assert_eq!(changes.len(), 1);
    let out = bus.owner_change_signals(&changes[0]);
    assert_eq!(out.len(), 3);
    assert_eq!(out[0].to, 1);
    assert!(out[0].droppable);
    assert_eq!(out[0].header.member, Some(b"NameOwnerChanged".to_vec()));
    assert!(matches!(&out[0].body, Body::Strs(v) if *v == vec![foo.clone(), b":1.0".to_vec(), b":1.1".to_vec()]));
    assert_eq!(out[1].to, 0);
    assert_eq!(out[1].header.member, Some(b"NameLost".to_vec()));
    assert_eq!(out[2].to, 1);
    assert!(!out[2].droppable);
    assert_eq!(out[2].header.member, Some(b"NameAcquired".to_vec()));
    assert_eq!(out[2].header.destination, Some(b":1.1".to_vec()));
    assert!(matches!(&out[2].body, Body::Str(n) if *n == foo));
}

#[test]
fn bus_call_errors() {
    let mut bus = BusState::new();
    let (none, reply, _) = bus.call_bus(None, &call("ListNames", b"", 1), Some(BusCall::ListNames));
    assert!(none.is_none() && reply.is_none());
    let (a, _, _) = bus.call_bus(None, &call("Hello", b"", 1), Some(BusCall::Hello));
    let cases = vec![
        (Some(BusCall::Hello), "Failed"),
        (None, "UnknownMethod"),
        (Some(BusCall::GetNameOwner(b"com.example.None".to_vec())), "NameHasNoOwner"),
        (Some(BusCall::ListQueuedOwners(b"com.example.None".to_vec())), "NameHasNoOwner"),
        (Some(BusCall::AddMatch(b"bogus".to_vec())), "MatchRuleInvalid"),
        (Some(BusCall::RemoveMatch(b"member='x'".to_vec())), "MatchRuleNotFound"),
    ];
    for (c, name) in cases {
        let (_, reply, _) = bus.call_bus(a, &call("X", b":1.0", 9), c);
        let reply = reply.unwrap();
        assert_eq!(reply.header.msg_type, MessageType::Error);
        assert_eq!(reply.header.error_name, err_name(name));
        assert_eq!(reply.header.reply_serial, Some(9));
    }
    let (_, reply, _) = bus.call_bus(a, &call("ListNames", b":1.0", 4), Some(BusCall::ListNames));
    assert!(matches!(reply.unwrap().body, Body::Names(v) if v == vec![b"org.freedesktop.DBus".to_vec(), b":1.0".to_vec()]));
    let (_, reply, _) = bus.call_bus(a, &call("NameHasOwner", b":1.0", 5), Some(BusCall::NameHasOwner(b":1.0".to_vec())));
    assert!(matches!(reply.unwrap().body, Body::Bool(true)));
    let body = busd::body::write_str_args(&vec![b"x".to_vec()], Endian::Little);
    assert!(parse_bus_call(&b"AddMatch".to_vec(), &body, Endian::Little).is_some());
}

#[test]
fn calls_and_replies_through_pending_tables() {
    let mut a_table = PendingReplies::new();
    let c = call("Ping", b":1.0", 7);
    a_table.note_sent(&c, 0, 1);
    let mut quiet = call("Ping", b":1.0", 8);
    quiet.destination = Some(b":1.1".to_vec());
    a_table.note_sent(&quiet, 1, 1);
    assert_eq!(a_table.len(), 1);
    let mut reply = call("", b":1.1", 3);
    reply.msg_type = MessageType::MethodReturn;
    reply.reply_serial = Some(7);
    assert!(a_table.accept_reply(&reply, 1));
    assert!(!a_table.accept_reply(&reply, 1));
    reply.msg_type = MessageType::Signal;
    assert!(a_table.accept_reply(&reply, 1));
}

#[test]
fn marshal_bodies_and_failures() {
    let (sig, bytes) = marshal(&Body::U32(2), Endian::Little);
    assert_eq!((sig, bytes), (b"u".to_vec(), vec![2, 0, 0, 0]));
    let (sig, bytes) = marshal(&Body::Strs(vec![b"a".to_vec(), Vec::new()]), Endian::Little);
    assert_eq!((sig, bytes), (b"ss".to_vec(), vec![1, 0, 0, 0, b'a', 0, 0, 0, 0, 0, 0, 0, 0]));
    let (sig, _) = marshal(&Body::Bool(true), Endian::Big);
    assert_eq!(sig, b"b".to_vec());
    let f = waiter_failures(4, &vec![10, 11]);
    assert_eq!(f.len(), 2);
    assert_eq!(f[1].header.reply_serial, Some(11));
    assert_eq!(f[0].header.error_name, err_name("Disconnected"));
    assert_eq!(f[0].header.destination, Some(b":1.4".to_vec()));
    let _ = BusError::Failed;
}

#[test]
fn only_bus_traffic_before_hello() {
    assert!(admits(None, &Route::ToBus));
    assert!(!admits(None, &Route::Drop));
    assert!(admits(Some(3), &Route::Unicast(1)));
}

#[test]
fn name_owner_changed_reaches_argument_filters() {
    let mut bus = BusState::new();
    let (a, _, _) = bus.call_bus(None, &call("Hello", b"", 1), Some(BusCall::Hello));
    let (w, _, _) = bus.call_bus(None, &call("Hello", b"", 1), Some(BusCall::Hello));
    let (x, _, _) = bus.call_bus(None, &call("Hello", b"", 1), Some(BusCall::Hello));
    let watch = b"member='NameOwnerChanged',arg0='com.example.Foo'".to_vec();
    let other = b"member='NameOwnerChanged',arg0='com.example.Bar'".to_vec();
    bus.call_bus(w, &call("AddMatch", b":1.1", 2), Some(BusCall::AddMatch(watch)));
    bus.call_bus(x, &call("AddMatch", b":1.2", 2), Some(BusCall::AddMatch(other)));
    let none = NameFlags { allow_replacement: false, replace_existing: false, do_not_queue: false };
    let (_, _, changes) =
        bus.call_bus(a, &call("RequestName", b":1.0", 3), Some(BusCall::RequestName(b"com.example.Foo".to_vec(), none)));
    let out = bus.owner_change_signals(&changes[0]);
    assert_eq!(out.len(), 2);
    assert_eq!(out[0].to, 1);
    assert_eq!(out[0].header.args, vec![b"com.example.Foo".to_vec(), Vec::new(), b":1.0".to_vec()]);
    assert_eq!(out[1].header.member, Some(b"NameAcquired".to_vec()));
    assert_eq!(out[1].header.args, vec![b"com.example.Foo".to_vec()]);
}

#[test]
fn marshal_checker() {
    assert!(marshalable(&Body::Names(vec![b"a".to_vec()]), Endian::Little));
    assert!(marshalable(&Body::U32(1), Endian::Big));
}

#[test]
fn bus_wide_call_table() {
    let mut bus = BusState::new();
    let (a, _, _) = bus.call_bus(None, &call("Hello", b"", 1), Some(BusCall::Hello));
    let (b, _, _) = bus.call_bus(None, &call("Hello", b"", 1), Some(BusCall::Hello));
    let (a, b) = (a.unwrap(), b.unwrap());
    let mut c = call("Ping", b":1.0", 7);
    c.destination = Some(b":1.1".to_vec());
    assert!(bus.unicast(a, b, &c, 0));
    let mut quiet = call("Ping", b":1.0", 8);
    quiet.destination = Some(b":1.1".to_vec());
    assert!(bus.unicast(a, b, &quiet, 1));
    let mut reply = call("", b":1.1", 3);
    reply.msg_type = MessageType::MethodReturn;
    reply.reply_serial = Some(8);
    assert!(!bus.unicast(b, a, &reply, 0));
    reply.reply_serial = Some(7);
    assert!(bus.unicast(b, a, &reply, 0));
    assert!(!bus.unicast(b, a, &reply, 0));
    assert!(bus.unicast(a, b, &c, 0));
    let failed = bus.fail_calls_to(b);
    assert_eq!(failed.len(), 1);
    assert_eq!(failed[0].to, a);
    assert_eq!(failed[0].header.reply_serial, Some(7));
    assert_eq!(failed[0].header.error_name, err_name("Disconnected"));
    assert!(bus.fail_calls_to(b).is_empty());
}

#[test]
fn malformed_call_gets_invalid_args() {
    let fx = busd::codec::FixedHeader {
        endian: Endian::Little,
        msg_type: MessageType::MethodCall,
        flags: 0,
        body_len: 0,
        serial: 12,
        fields_len: 0,
    };
    let out = protocol_error_reply(2, &fx).unwrap();
    assert_eq!(out.header.error_name, err_name("InvalidArgs"));
    assert_eq!(out.header.reply_serial, Some(12));
    let sig = busd::codec::FixedHeader { msg_type: MessageType::Signal, ..fx };
    assert!(protocol_error_reply(2, &sig).is_none());
}
