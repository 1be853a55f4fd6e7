//! What a script asks for and is handed back

use nkscan::batch::first_prompt;
use nkscan::error::Error;
use nkscan::exposure::{Exposures, Lock};
use nkscan::protocol::caps::address::Address;
use nkscan::protocol::caps::identity::Identity;
use nkscan::protocol::caps::other::Features;
use nkscan::protocol::caps::set_window::SetWindowFunction;
use nkscan::protocol::caps::{Capabilities, Page};
use nkscan::protocol::data::Rect;
use nkscan::protocol::sense::{Contention, Failure, Fault, Intervention};
use nkscan::protocol::window::Channel;
use nkscan::script::{
    focus_from, frames, goes_on, name_planes, raised, rect, Exception, Focus, FocusArgument, Phase,
};
use nkscan::transport;

#[test]
fn errors_are_raised_as_what_to_do_about_them() {
    let unsupported = Error::Unsupported {
        op: "boundary",
        reason: "256 frames".into(),
    };
    let (kind, said) = raised(&unsupported);
    assert_eq!((kind, said.as_str()), (Exception::Unsupported, "boundary: 256 frames"));
    for (error, kind) in [
        (Error::Transport(transport::Error::Timeout(3)), Exception::Transport),
        (Error::Busy(Contention::Busy), Exception::Busy),
        (Error::Media(Intervention::NoMedium), Exception::Media),
        (Error::NotFound, Exception::NotFound),
        (Error::Cancelled, Exception::Cancelled),
        (
            Error::Device(Box::new(Fault::Reported(Failure::Unrecognized, None))),
            Exception::Scanner,
        ),
    ] {
        let (raised_as, said) = raised(&error);
        assert_eq!(raised_as, kind);
        assert_eq!(said, error.message());
        let retry = matches!(error, Error::Transport(_) | Error::Busy(_));
        assert_eq!(raised_as.base() == Some(Exception::Transient), retry);
    }
    assert_eq!(Exception::Scanner.base(), None);
    assert_eq!(Exception::Transient.base(), Some(Exception::Scanner));
}

#[test]
fn focus_is_a_word_a_position_or_a_point() {
    let ask = |argument: FocusArgument<(f32, f32)>| focus_from(argument);
    assert_eq!(ask(FocusArgument::Absent), Ok(Focus::Auto(None)));
    assert_eq!(ask(FocusArgument::Word("AUTO".into())), Ok(Focus::Auto(None)));
    assert_eq!(ask(FocusArgument::Word("Hold".into())), Ok(Focus::Hold));
    assert_eq!(ask(FocusArgument::Position(7)), Ok(Focus::At(7)));
    assert_eq!(
        ask(FocusArgument::Point((0.25, 0.5))),
        Ok(Focus::Auto(Some((0.25, 0.5))))
    );
    let refusal = "focus is \"auto\", \"hold\", a position, or an (x, y) point, not ";
    assert_eq!(
        ask(FocusArgument::Word("holds".into())),
        Err(format!("{refusal}holds"))
    );
    assert_eq!(
        ask(FocusArgument::Other("[1, 2, 3]".into())),
        Err(format!("{refusal}[1, 2, 3]"))
    );
}

#[test]
fn frames_are_top_left_bottom_right() {
    let asked = Rect {
        top: 1,
        left: 2,
        bottom: 3,
        right: 4,
    };
    assert_eq!(rect((1, 2, 3, 4)), asked);
    assert_eq!(frames(&[asked, Rect::default()]), vec![(1, 2, 3, 4), (0, 0, 0, 0)]);
}

#[test]
fn only_a_plain_no_stops_a_pass() {
    assert!(goes_on(None));
    assert!(goes_on(Some(true)));
    assert!(!goes_on(Some(false)));
    assert_eq!(Phase::Discover.told(), ("discover", 0));
    assert_eq!(Phase::Meter(3).told(), ("meter", 3));
    assert_eq!(Phase::Scan.told(), ("scan", 0));
}

#[test]
fn exposures_go_by_channel_and_come_back_by_name() {
    let by_name = [
        ("RED".to_string(), 10),
        ("infrared".to_string(), 40),
        ("red".to_string(), 11),
        ("something".to_string(), 5),
    ];
    let e = Exposures::from_names(&by_name);
    assert_eq!(e.get(Channel::Red), Some(11));
    assert_eq!(e.get(Channel::Infrared), Some(40));
    assert_eq!(e.get(Channel::Default), Some(5));
    assert_eq!(e.get(Channel::Green), None);
    let names = e.names();
    assert_eq!(
        names,
        vec![
            ("red".to_string(), 11),
            ("infrared".to_string(), 40),
            ("default".to_string(), 5)
        ]
    );
    let again = Exposures::from_names(&names);
    for channel in [
        Channel::Red,
        Channel::Green,
        Channel::Blue,
        Channel::Infrared,
        Channel::Default,
    ] {
        assert_eq!(again.get(channel), e.get(channel));
    }
    // A channel without a name of its own is named after its code
    let mut other = Exposures::none();
    other.set(Channel::Other(7), 1);
    assert_eq!(other.names(), vec![("other(7)".to_string(), 1)]);
    assert_eq!(other.copy().get(Channel::Other(7)), Some(1));
}

#[test]
fn the_first_exposure_is_kept_where_it_is_locked() {
    let metered = |value: u32| Exposures::from_names(&[("green".to_string(), value)]);
    for locked in [true, false] {
        let mut lock = Lock::new(locked);
        assert!(lock.next().is_none());
        for value in [3, 1, 2] {
            lock.exposed(&metered(value));
            let kept = lock.next().and_then(|e| e.get(Channel::Green));
            assert_eq!(kept, if locked { Some(3) } else { None });
        }
    }
}

#[test]
fn planes_are_named_by_their_channels() {
    let planes = vec![vec![1], vec![2], vec![3]];
    assert_eq!(
        name_planes(&[3, 1], planes.clone()),
        vec![("blue".to_string(), vec![1]), ("red".to_string(), vec![2])]
    );
    assert_eq!(name_planes(&[3, 1, 2, 4], planes).len(), 3);
    assert!(name_planes(&[], Vec::new()).is_empty());
}

#[test]
fn the_operator_is_asked_for_what_the_unit_takes() {
    let caps = |product: &str, adapter: u8| {
        let mut i = vec![b' '; 36];
        i[16..16 + product.len()].copy_from_slice(product.as_bytes());
        let mut a = vec![0u8; 91];
        a[1] = 0xC1;
        a[14] = adapter;
        let mut d = vec![0u8; 28];
        d[1] = 0xD1;
        let mut e = vec![0u8; 39];
        e[1] = 0xE1;
        Capabilities {
            identity: Identity::parse(&i).unwrap(),
            address: Address::try_from(&Page::new(0xC1, a).unwrap()).unwrap(),
            features: Features::try_from(&Page::new(0xE1, e).unwrap()).unwrap(),
            set_window: SetWindowFunction::try_from(&Page::new(0xD1, d).unwrap()).unwrap(),
            ccd: None,
            frames: None,
        }
    };
    assert_eq!(first_prompt(&caps("LS-9000 ED", 1)), "load a film holder");
    assert_eq!(first_prompt(&caps("LS-5000 ED", 1)), "load a film strip");
    assert_eq!(first_prompt(&caps("LS-5000 ED", 0)), "load a film holder");
}
