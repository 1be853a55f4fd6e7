//! Naming, listing and probing devices

use nkscan::device::{
    after_looking, is_sg_node, probe, worth_a_reset, Attach, Device, Reappearance, SelectError,
    Selector,
};
use nkscan::error::Error;
use nkscan::protocol::caps::identity::Identity;
use nkscan::protocol::model::Model;
use nkscan::transport::{self, Completion, Status};

fn inquiry() -> Vec<u8> {
    let mut b = vec![b' '; 36];
    b[0] = 6;
    b[8..13].copy_from_slice(b"Nikon");
    b[16..26].copy_from_slice(b"LS-5000 ED");
    b
}

fn usb(bus: &str, ports: &[u8]) -> Attach {
    Attach::Usb {
        bus: bus.into(),
        ports: ports.to_vec(),
    }
}

fn device(attach: Attach) -> Device {
    Device {
        attach,
        identity: None,
        model: None,
    }
}

fn done(status: Status, transferred: usize) -> Completion {
    Completion {
        status,
        sense: None,
        transferred,
    }
}

#[test]
fn places_are_shown_as_they_are_typed() {
    assert_eq!(usb("1", &[3, 2, 10]).to_string(), "usb:1-3.2.10");
    assert_eq!(usb("bus", &[]).to_string(), "usb:bus-");
    assert_eq!(Attach::Sg("/dev/sg3".into()).to_string(), "/dev/sg3");
    assert_eq!(Attach::Scanner(r"\\.\Scanner0".into()).to_string(), r"\\.\Scanner0");
}

#[test]
fn a_device_is_named_as_far_as_it_is_known() {
    let mut d = device(usb("2", &[1]));
    assert_eq!(d.name(), "(in use)");
    assert_eq!(d.to_string(), "(in use)             usb:2-1");
    d.model = Some(Model::Ls9000);
    assert_eq!(d.name(), "LS-9000 ED (in use)");
    d.identity = Some(Identity::parse(&inquiry()).unwrap());
    assert_eq!(d.name(), "Nikon LS-5000 ED");
    assert_eq!(d.to_string(), format!("{:<20} {}", d.name(), "usb:2-1"));
    d.identity.as_mut().unwrap().product = "a name wider than its column".into();
    assert_eq!(d.to_string(), "Nikon a name wider than its column usb:2-1");
}

/// What is listed is what picks the device
#[test]
fn every_listed_place_picks_its_device() {
    let devices = vec![
        device(usb("1", &[3, 2])),
        device(usb("1", &[3])),
        device(Attach::Sg("/dev/sg0".into())),
    ];
    for d in &devices {
        let typed = format!("  {}\n", d.attach.to_string().to_uppercase());
        let picked = Selector::from_str(&typed).resolve(&devices).unwrap();
        assert!(picked.attach.is_same(&d.attach));
    }
    assert_eq!(Selector::from_str(" \t"), Selector::Only);
    assert_eq!(Selector::from_str("x"), Selector::Location("x".into()));
}

#[test]
fn several_matches_are_listed() {
    let devices = vec![device(usb("1", &[3])), device(usb("2", &[4]))];
    let e = Selector::Only.resolve(&devices).unwrap_err();
    assert_eq!(e.message(), "more than one scanner matched: usb:1-3, usb:2-4");
    assert_eq!(e, SelectError::Ambiguous(vec!["usb:1-3".into(), "usb:2-4".into()]));
    assert_eq!(SelectError::NotFound.message(), "no scanner matched");
    let twins = vec![device(usb("a", &[1])), device(usb("A", &[1]))];
    assert!(Selector::from_str("usb:a-1").resolve(&twins).is_err());
}

#[test]
fn places_are_the_same_by_what_they_hold() {
    assert!(usb("1", &[2, 3]).is_same(&usb("1", &[2, 3])));
    assert!(!usb("1", &[2, 3]).is_same(&usb("1", &[2])));
    assert!(!usb("1", &[2]).is_same(&usb("2", &[2])));
    assert!(!Attach::Sg("a".into()).is_same(&Attach::Scanner("a".into())));
    assert!(Attach::Sg("a".into()).is_same(&Attach::Sg("a".into())));
}

#[test]
fn only_a_scanner_that_answered_is_probed() {
    let reply = inquiry();
    let id = probe(&done(Status::Good, 36), &reply).unwrap();
    assert_eq!((id.vendor.as_str(), id.product.as_str()), ("Nikon", "LS-5000 ED"));
    assert!(probe(&done(Status::Good, 100), &reply).is_some());
    assert!(probe(&done(Status::Good, 35), &reply).is_none());
    assert!(probe(&done(Status::Busy, 36), &reply).is_none());
    let mut disk = reply;
    disk[0] = 0;
    assert!(probe(&done(Status::Good, 36), &disk).is_none());
}

#[test]
fn generic_nodes_are_sg_and_a_number() {
    for (name, is) in [
        ("sg0", true),
        ("sg12", true),
        ("sg", false),
        ("sga", false),
        ("sg1a", false),
        ("sda", false),
        ("xsg1", false),
        ("sg\u{665}", false),
        ("", false),
    ] {
        assert_eq!(is_sg_node(name), is, "{name}");
    }
}

#[test]
fn a_timeout_is_worth_one_reset() {
    assert!(worth_a_reset(&Error::Transport(transport::Error::Timeout(1))));
    assert!(!worth_a_reset(&Error::Transport(transport::Error::Io)));
    assert!(!worth_a_reset(&Error::NotFound));
    assert_eq!(after_looking(true, true), Reappearance::Reopen);
    assert_eq!(after_looking(true, false), Reappearance::Reopen);
    assert_eq!(after_looking(false, false), Reappearance::LookAgain);
    assert_eq!(after_looking(false, true), Reappearance::GiveUp);
}

#[test]
fn a_copy_of_a_device_is_that_device() {
    let mut d = device(usb("1", &[3, 2]));
    assert_eq!(d.clone(), d);
    d.identity = Some(Identity::parse(&inquiry()).unwrap());
    d.model = Some(Model::Ls5000);
    assert_eq!(d.clone(), d);
    for s in [Selector::Only, Selector::from_str("usb:1-3.2")] {
        assert_eq!(s.clone(), s);
    }
}

/// Without a selector the first scanner there is will do
#[test]
fn nothing_given_can_mean_the_first() {
    let devices = vec![device(usb("1", &[3])), device(usb("2", &[4]))];
    let first = Selector::Only.or_first(&devices).unwrap();
    assert!(first.attach.is_same(&devices[0].attach));
    assert_eq!(Selector::Only.or_first(&[]), Err(SelectError::NotFound));
    let second = Selector::from_str("USB:2-4");
    let picked = second.or_first(&devices).unwrap();
    assert!(picked.attach.is_same(&devices[1].attach));
    assert_eq!(
        Selector::from_str("usb:9-9").or_first(&devices),
        Err(SelectError::NotFound)
    );
}
