use busd::bus::BusState;
use busd::names::{NameFlags, NameRegistry, ReleaseReply, RequestReply};
use busd::unique::unique_name;

fn flags(allow_replacement: bool, replace_existing: bool, do_not_queue: bool) -> NameFlags {
    NameFlags { allow_replacement, replace_existing, do_not_queue }
}

fn none() -> NameFlags {
    flags(false, false, false)
}

fn foo() -> Vec<u8> {
    b"com.example.Foo".to_vec()
}

#[test]
fn hello_request_and_hand_over_on_disconnect() {
    let mut bus = BusState::new();
    let (a, a_name) = bus.hello().unwrap();
    assert_eq!(a_name, b":1.0".to_vec());
    let (r, change) = bus.request_name(a, &foo(), none());
    assert_eq!(r, RequestReply::PrimaryOwner);
    let change = change.unwrap();
    assert_eq!(change.old_owner, None);
    assert_eq!(change.new_owner, Some(a));
    let (b, b_name) = bus.hello().unwrap();
    assert_eq!(b_name, b":1.1".to_vec());
    let (r, change) = bus.request_name(b, &foo(), none());
    assert_eq!(r, RequestReply::InQueue);
    assert!(change.is_none());
    let changes = bus.disconnect(a);
    assert_eq!(changes.len(), 1);
    assert_eq!(changes[0].name, foo());
    assert_eq!(unique_name(changes[0].old_owner.unwrap()), b":1.0".to_vec());
    assert_eq!(unique_name(changes[0].new_owner.unwrap()), b":1.1".to_vec());
    assert_eq!(bus.get_name_owner(&foo()), Some(b":1.1".to_vec()));
}

#[test]
fn unique_names_increase_and_are_not_reused() {
    let mut bus = BusState::new();
    let (a, _) = bus.hello().unwrap();
    let (b, _) = bus.hello().unwrap();
    bus.disconnect(a);
    bus.disconnect(b);
    let (c, c_name) = bus.hello().unwrap();
    assert!(a < b && b < c);
    assert_eq!(c_name, b":1.2".to_vec());
    assert_eq!(unique_name(12), b":1.12".to_vec());
}

#[test]
fn request_unowned_then_already_owner() {
    let mut reg = NameRegistry::new();
    assert_eq!(reg.request_name(&foo(), 1, none()).0, RequestReply::PrimaryOwner);
    assert_eq!(reg.request_name(&foo(), 1, none()).0, RequestReply::AlreadyOwner);
    assert_eq!(reg.get_name_owner(&foo()), Some(1));
}

#[test]
fn request_do_not_queue_gives_exists() {
    let mut reg = NameRegistry::new();
    reg.request_name(&foo(), 1, none());
    let (r, change) = reg.request_name(&foo(), 2, flags(false, false, true));
    assert_eq!(r, RequestReply::Exists);
    assert!(change.is_none());
    assert_eq!(reg.list_queued_owners(&foo()), vec![1]);
}

#[test]
fn replace_existing_needs_allow_replacement() {
    let mut reg = NameRegistry::new();
    reg.request_name(&foo(), 1, none());
    let (r, _) = reg.request_name(&foo(), 2, flags(false, true, false));
    assert_eq!(r, RequestReply::InQueue);
    assert_eq!(reg.get_name_owner(&foo()), Some(1));
}

#[test]
fn replacement_demotes_owner_to_queue_tail() {
    let mut reg = NameRegistry::new();
    reg.request_name(&foo(), 1, flags(true, false, false));
    reg.request_name(&foo(), 3, none());
    let (r, change) = reg.request_name(&foo(), 2, flags(false, true, false));
    assert_eq!(r, RequestReply::PrimaryOwner);
    let change = change.unwrap();
    assert_eq!((change.old_owner, change.new_owner), (Some(1), Some(2)));
    assert_eq!(reg.list_queued_owners(&foo()), vec![2, 3, 1]);
}

#[test]
fn replacement_drops_owner_that_would_not_queue() {
    let mut reg = NameRegistry::new();
    reg.request_name(&foo(), 1, flags(true, false, true));
    let (r, _) = reg.request_name(&foo(), 2, flags(false, true, false));
    assert_eq!(r, RequestReply::PrimaryOwner);
    assert_eq!(reg.list_queued_owners(&foo()), vec![2]);
}

#[test]
fn release_replies() {
    let mut reg = NameRegistry::new();
    assert_eq!(reg.release_name(&foo(), 1).0, ReleaseReply::NonExistent);
    reg.request_name(&foo(), 1, none());
    reg.request_name(&foo(), 2, none());
    reg.request_name(&foo(), 3, none());
    assert_eq!(reg.release_name(&foo(), 4).0, ReleaseReply::NotOwner);
    assert_eq!(reg.release_name(&foo(), 2).0, ReleaseReply::Released);
    assert_eq!(reg.list_queued_owners(&foo()), vec![1, 3]);
    let (r, change) = reg.release_name(&foo(), 1);
    assert_eq!(r, ReleaseReply::Released);
    let change = change.unwrap();
    assert_eq!((change.old_owner, change.new_owner), (Some(1), Some(3)));
    let (r, change) = reg.release_name(&foo(), 3);
    assert_eq!(r, ReleaseReply::Released);
    assert_eq!(change.unwrap().new_owner, None);
    assert_eq!(reg.get_name_owner(&foo()), None);
    assert!(!reg.name_has_owner(&foo()));
    assert_eq!(reg.release_name(&foo(), 3).0, ReleaseReply::NonExistent);
}

#[test]
fn disconnect_releases_every_name() {
    let mut reg = NameRegistry::new();
    let bar = b"com.example.Bar".to_vec();
    reg.request_name(&foo(), 1, none());
    reg.request_name(&bar, 2, none());
    reg.request_name(&bar, 1, none());
    let changes = reg.release_all(1);
    assert_eq!(changes.len(), 1);
    assert_eq!(changes[0].new_owner, None);
    assert_eq!(reg.get_name_owner(&foo()), None);
    assert_eq!(reg.list_queued_owners(&bar), vec![2]);
    assert_eq!(reg.list_names(), vec![bar]);
}
