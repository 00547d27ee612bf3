use busd::address::parse_address;
use busd::auth::{parse_command, AuthCommand};
use busd::signature::check_signature;
use busd::body::{read_str_arg, read_u32_arg, write_str_args, write_str_array, write_u32_arg};
use busd::calls::{encodable, encode_message, parse_bus_call, read_header, BusCall};
use busd::codec::{split_frame, CodecError, Endian};
use busd::fields::{decode_fields, encode_fields, Fields};
use busd::message::{Header, MessageType};
use busd::startup::{config_path, listen_address, listen_element};

fn empty_fields() -> Fields {
    Fields {
        path: None,
        interface: None,
        member: None,
        error_name: None,
        reply_serial: None,
        destination: None,
        sender: None,
        signature: None,
        unix_fds: None,
    }
}

#[test]
fn fields_round_trip_both_orders() {
    for e in [Endian::Little, Endian::Big] {
        let mut f = empty_fields();
        f.path = Some(b"/a".to_vec());
        f.member = Some(b"Hello".to_vec());
        f.reply_serial = Some(9);
        f.destination = Some(b"org.freedesktop.DBus".to_vec());
        f.signature = Some(b"su".to_vec());
        let b = encode_fields(&f, e);
        let d = decode_fields(&b, e).unwrap();
        assert_eq!(d.path, f.path);
        assert_eq!(d.member, f.member);
        assert_eq!(d.reply_serial, Some(9));
        assert_eq!(d.destination, f.destination);
        assert_eq!(d.signature, f.signature);
        assert_eq!(d.interface, None);
    }
}

#[test]
fn path_field_exact_bytes() {
    let mut f = empty_fields();
    f.path = Some(b"/a".to_vec());
    assert_eq!(encode_fields(&f, Endian::Little), vec![1, 1, b'o', 0, 2, 0, 0, 0, b'/', b'a', 0]);
}

#[test]
fn fields_errors() {
    assert_eq!(decode_fields(&vec![10, 1, b's', 0, 0, 0, 0, 0, 0], Endian::Little).unwrap_err(), CodecError::BadField);
    assert_eq!(decode_fields(&vec![1, 1, b's', 0, 0, 0, 0, 0, 0], Endian::Little).unwrap_err(), CodecError::BadField);
    assert_eq!(decode_fields(&vec![1, 1, b'o', 0, 9, 0, 0, 0, 0], Endian::Little).unwrap_err(), CodecError::NeedMoreData);
    assert_eq!(decode_fields(&vec![1, 1, b'o', 0, 1, 0, 0, 0, b'/', 1], Endian::Little).unwrap_err(), CodecError::BadField);
}

#[test]
fn message_round_trip_sets_sender() {
    let h = Header {
        msg_type: MessageType::MethodCall,
        serial: 5,
        sender: Some(b":1.9".to_vec()),
        destination: Some(b"org.freedesktop.DBus".to_vec()),
        path: Some(b"/org/freedesktop/DBus".to_vec()),
        interface: Some(b"org.freedesktop.DBus".to_vec()),
        member: Some(b"RequestName".to_vec()),
        error_name: None,
        reply_serial: None,
        args: Vec::new(),
    };
    let mut body = write_str_args(&vec![b"com.example.Foo".to_vec()], Endian::Little);
    body.extend(write_u32_arg(4, Endian::Little));
    assert!(encodable(&h, &b"su".to_vec(), &body, Endian::Little));
    assert!(!encodable(&h, &vec![b's'; 256], &body, Endian::Little));
    let b = encode_message(&h, &b"su".to_vec(), &body, Endian::Little, 1);
    let frame = split_frame(&b, 1 << 20).unwrap();
    let (got, fields) = read_header(&frame, &b":1.3".to_vec()).unwrap();
    assert_eq!(got.sender, Some(b":1.3".to_vec()));
    assert_eq!(got.member, h.member);
    assert_eq!(got.serial, 5);
    assert_eq!(frame.header.flags, 1);
    assert_eq!(got.args, vec![b"com.example.Foo".to_vec()]);
    assert_eq!(fields.signature, Some(b"su".to_vec()));
    match parse_bus_call(got.member.as_ref().unwrap(), &frame.body, Endian::Little) {
        Some(BusCall::RequestName(name, flags)) => {
            assert_eq!(name, b"com.example.Foo".to_vec());
            assert!(flags.do_not_queue && !flags.allow_replacement && !flags.replace_existing);
        }
        other => panic!("unexpected call {:?}", other),
    }
    assert!(parse_bus_call(&b"Frobnicate".to_vec(), &frame.body, Endian::Little).is_none());
    assert!(matches!(parse_bus_call(&b"Hello".to_vec(), &vec![], Endian::Little), Some(BusCall::Hello)));
    assert!(parse_bus_call(&b"ReleaseName".to_vec(), &vec![], Endian::Little).is_none());
}

#[test]
fn body_arguments() {
    let b = write_str_args(&vec![b"ab".to_vec(), b"c".to_vec()], Endian::Little);
    assert_eq!(b, vec![2, 0, 0, 0, b'a', b'b', 0, 0, 1, 0, 0, 0, b'c', 0]);
    let (a, next) = read_str_arg(&b, Endian::Little, 0).unwrap();
    assert_eq!((a, next), (b"ab".to_vec(), 7));
    let (c, _) = read_str_arg(&b, Endian::Little, next).unwrap();
    assert_eq!(c, b"c".to_vec());
    assert_eq!(read_u32_arg(&write_u32_arg(0x01020304, Endian::Big), Endian::Big, 0), Some((0x01020304, 4)));
    assert_eq!(write_str_array(&vec![b"ab".to_vec()], Endian::Little), vec![7, 0, 0, 0, 2, 0, 0, 0, b'a', b'b', 0]);
}

#[test]
fn auth_lines() {
    match parse_command(&b"AUTH EXTERNAL 31303030".to_vec()) {
        AuthCommand::Auth { mechanism, response } => {
            assert_eq!(mechanism, Some(b"EXTERNAL".to_vec()));
            assert_eq!(response, Some(b"31303030".to_vec()));
        }
        other => panic!("unexpected command {:?}", other),
    }
    assert!(matches!(parse_command(&b"AUTH".to_vec()), AuthCommand::Auth { mechanism: None, response: None }));
    assert!(matches!(parse_command(&b"BEGIN".to_vec()), AuthCommand::Begin));
    assert!(matches!(parse_command(&b"BEGIN now".to_vec()), AuthCommand::Unknown));
    assert!(matches!(parse_command(&b"NEGOTIATE_UNIX_FD".to_vec()), AuthCommand::NegotiateUnixFd));
    assert!(matches!(parse_command(&b"DATA".to_vec()), AuthCommand::Data(d) if d.is_empty()));
    assert!(matches!(parse_command(&b"HELLO".to_vec()), AuthCommand::Unknown));
}

#[test]
fn startup_choices() {
    assert_eq!(config_path(true, Some(b"/x".to_vec())), b"/usr/share/dbus-1/system.conf".to_vec());
    assert_eq!(config_path(false, Some(b"/x".to_vec())), b"/x".to_vec());
    assert_eq!(config_path(false, None), b"/usr/share/dbus-1/session.conf".to_vec());
    assert_eq!(listen_address(Some(b"a".to_vec()), Some(b"b".to_vec())), Some(b"a".to_vec()));
    assert_eq!(listen_address(None, Some(b"b".to_vec())), Some(b"b".to_vec()));
    let doc = b"<busconfig><listen>unix:path=/tmp/s</listen><listen>x</listen></busconfig>".to_vec();
    assert_eq!(listen_element(&doc), Some(b"unix:path=/tmp/s".to_vec()));
    assert_eq!(listen_element(&b"<busconfig><listen>open".to_vec()), None);
    assert_eq!(listen_element(&b"<busconfig/>".to_vec()), None);
}

#[test]
fn signatures_checked_without_recursion() {
    for ok in ["", "s", "a{sv}", "(ii)", "aai", "a(sa{sas})", "ybnqiuxtdsoghv"] {
        assert_eq!(check_signature(&ok.as_bytes().to_vec()), Ok(()), "{}", ok);
    }
    for bad in ["()", "{sv}", "a", "z", ")", "(i", "a{sv", "(i}"] {
        assert_eq!(check_signature(&bad.as_bytes().to_vec()), Err(CodecError::BadSignature), "{}", bad);
    }
    let deep = format!("{}i{}", "(".repeat(33), ")".repeat(33));
    assert_eq!(check_signature(&deep.into_bytes()), Err(CodecError::TooDeep));
    let fine = format!("{}i{}", "(".repeat(32), ")".repeat(32));
    assert_eq!(check_signature(&fine.into_bytes()), Ok(()));
    assert_eq!(check_signature(&"a".repeat(33).into_bytes()), Err(CodecError::TooDeep));
}

#[test]
fn addresses() {
    let a = parse_address(&b"unix:path=/run/bus".to_vec()).unwrap();
    assert_eq!(a.transport, b"unix".to_vec());
    assert_eq!((a.pairs[0].key.clone(), a.pairs[0].value.clone()), (b"path".to_vec(), b"/run/bus".to_vec()));
    let t = parse_address(&b"tcp:host=localhost,port=4000".to_vec()).unwrap();
    assert_eq!(t.pairs.len(), 2);
    assert_eq!(t.pairs[1].value, b"4000".to_vec());
    assert!(parse_address(&b"unix".to_vec()).is_none());
    assert!(parse_address(&b":path=x".to_vec()).is_none());
    assert!(parse_address(&b"unix:=x".to_vec()).is_none());
    assert!(parse_address(&b"unix:path".to_vec()).is_none());
    assert_eq!(parse_address(&b"vsock:".to_vec()).unwrap().pairs.len(), 0);
}
