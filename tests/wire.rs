use busd::auth::{external_response_bytes, AuthCommand, AuthPolicy, AuthReply, AuthSession, AuthState};
use busd::codec::{decode_fixed, encode_fixed, encode_frame, split_frame, CodecError, Endian, FixedHeader};
use busd::lifecycle::{advance, ConnEvent, Phase};
use busd::message::MessageType;

fn fixed(endian: Endian, fields_len: u32, body_len: u32) -> FixedHeader {
    FixedHeader { endian, msg_type: MessageType::MethodCall, flags: 0, body_len, serial: 0x01020304, fields_len }
}

#[test]
fn fixed_header_bytes_and_round_trip() {
    let h = fixed(Endian::Little, 5, 2);
    let b = encode_fixed(&h);
    assert_eq!(b, vec![b'l', 1, 0, 1, 2, 0, 0, 0, 4, 3, 2, 1, 5, 0, 0, 0]);
    assert_eq!(decode_fixed(&b), Ok(h));
    let h = fixed(Endian::Big, 5, 2);
    let b = encode_fixed(&h);
    assert_eq!(b, vec![b'B', 1, 0, 1, 0, 0, 0, 2, 1, 2, 3, 4, 0, 0, 0, 5]);
    assert_eq!(decode_fixed(&b), Ok(h));
}

#[test]
fn frame_round_trip_with_padding() {
    let h = fixed(Endian::Little, 3, 2);
    let b = encode_frame(&h, &vec![9, 9, 9], &vec![7, 8]);
    assert_eq!(b.len(), 26);
    assert_eq!(&b[16..24], &[9, 9, 9, 0, 0, 0, 0, 0]);
    let f = split_frame(&b, 1024).unwrap();
    assert_eq!(f.header, h);
    assert_eq!(f.fields, vec![9, 9, 9]);
    assert_eq!(f.body, vec![7, 8]);
}

#[test]
fn frame_errors() {
    let h = fixed(Endian::Little, 3, 2);
    let b = encode_frame(&h, &vec![9, 9, 9], &vec![7, 8]);
    assert_eq!(split_frame(&b, 25).unwrap_err(), CodecError::TooLarge);
    assert_eq!(split_frame(&b[..25].to_vec(), 1024).unwrap_err(), CodecError::NeedMoreData);
    assert_eq!(split_frame(&b[..10].to_vec(), 1024).unwrap_err(), CodecError::NeedMoreData);
    let mut bad = b.clone();
    bad[0] = b'x';
    assert_eq!(split_frame(&bad, 1024).unwrap_err(), CodecError::BadEndian);
    let mut bad = b.clone();
    bad[1] = 9;
    assert_eq!(split_frame(&bad, 1024).unwrap_err(), CodecError::BadType);
    let mut bad = b.clone();
    bad[3] = 2;
    assert_eq!(split_frame(&bad, 1024).unwrap_err(), CodecError::BadVersion);
    let huge = encode_fixed(&fixed(Endian::Little, 0, u32::MAX));
    assert_eq!(split_frame(&huge, 1 << 20).unwrap_err(), CodecError::TooLarge);
}

fn policy(peer_uid: Option<u32>) -> AuthPolicy {
    AuthPolicy { peer_uid, bus_uid: 1000, allow_anonymous: false }
}

#[test]
fn external_with_response_then_begin() {
    assert_eq!(external_response_bytes(1000), b"31303030".to_vec());
    let mut s = AuthSession::new(policy(Some(1000)));
    let c = AuthCommand::Auth { mechanism: Some(b"EXTERNAL".to_vec()), response: Some(b"31303030".to_vec()) };
    assert_eq!(s.handle(&c), AuthReply::Accepted);
    assert_eq!(s.handle(&AuthCommand::NegotiateUnixFd), AuthReply::AgreeUnixFd);
    assert_eq!(s.handle(&AuthCommand::Begin), AuthReply::Begin);
    assert_eq!(s.state, AuthState::Authenticated);
}

#[test]
fn external_with_data_step() {
    let mut s = AuthSession::new(policy(Some(1000)));
    let c = AuthCommand::Auth { mechanism: Some(b"EXTERNAL".to_vec()), response: None };
    assert_eq!(s.handle(&c), AuthReply::Data);
    assert_eq!(s.handle(&AuthCommand::Data(Vec::new())), AuthReply::Accepted);
    assert_eq!(s.state, AuthState::AwaitingBegin);
}

#[test]
fn rejections_close_after_limit() {
    let mut s = AuthSession::new(policy(Some(42)));
    let c = AuthCommand::Auth { mechanism: Some(b"EXTERNAL".to_vec()), response: Some(b"3432".to_vec()) };
    assert_eq!(s.handle(&c), AuthReply::Rejected);
    let anon = AuthCommand::Auth { mechanism: Some(b"ANONYMOUS".to_vec()), response: None };
    assert_eq!(s.handle(&anon), AuthReply::Rejected);
    assert_eq!(s.handle(&AuthCommand::Begin), AuthReply::Error);
    assert_eq!(s.handle(&c), AuthReply::RejectedClose);
    assert_eq!(s.state, AuthState::Rejected);
}

#[test]
fn anonymous_when_allowed() {
    let mut s = AuthSession::new(AuthPolicy { peer_uid: None, bus_uid: 0, allow_anonymous: true });
    let anon = AuthCommand::Auth { mechanism: Some(b"ANONYMOUS".to_vec()), response: None };
    assert_eq!(s.handle(&anon), AuthReply::Accepted);
}

#[test]
fn lifecycle_moves_forward_only() {
    let mut p = Phase::Connecting;
    for e in [ConnEvent::BytesArrived, ConnEvent::AuthSucceeded, ConnEvent::Registered] {
        p = advance(p, e);
    }
    assert_eq!(p, Phase::Active);
    p = advance(p, ConnEvent::Eof);
    assert_eq!(p, Phase::Disconnecting);
    assert_eq!(advance(p, ConnEvent::Registered), Phase::Disconnecting);
    assert_eq!(advance(p, ConnEvent::Drained), Phase::Closed);
    assert_eq!(advance(Phase::Authenticating, ConnEvent::AuthFailed), Phase::Disconnecting);
    assert_eq!(advance(Phase::Connecting, ConnEvent::Registered), Phase::Connecting);
}
