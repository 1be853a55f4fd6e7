//! Which scanner a caller means

use nkscan::device::{Attach, Device, SelectError, Selector};
use nkscan::protocol::caps::identity::{Identity, SCANNER};
use nkscan::protocol::model::Model;

fn usb(bus: &str, ports: &[u8], product: &str) -> Device {
    Device {
        attach: Attach::Usb {
            bus: bus.into(),
            ports: ports.to_vec(),
        },
        identity: Some(Identity {
            qualifier: 0,
            device_type: SCANNER,
            removable: true,
            ansi_version: 2,
            vendor: "Nikon".into(),
            product: product.into(),
            revision: "1.00".into(),
        }),
        model: Model::from_product(product),
    }
}

/// Two of the same model plus one of another, which is the case the
/// topological location exists for: `iSerialNumber` is 0 on every USB unit
fn attached() -> Vec<Device> {
    vec![
        usb("1", &[3, 2], "LS-5000 ED"),
        usb("1", &[4], "LS-5000 ED"),
        usb("2", &[1], "LS-9000 ED"),
    ]
}

/// What `list` prints has to be what a selector accepts, or there is a
/// translation step for a user to get wrong
#[test]
fn identical_models_are_told_apart_by_port() {
    let devices = attached();
    assert_eq!(devices[0].attach.to_string(), "usb:1-3.2");

    let picked = Selector::from_str("usb:1-4").resolve(&devices);
    assert_eq!(picked.unwrap().attach, devices[1].attach);
}

/// Never guess: no match and several matches are both errors
#[test]
fn no_selector_needs_exactly_one_scanner() {
    assert!(Selector::Only.resolve(&attached()[..1]).is_ok());
    assert!(matches!(
        Selector::Only.resolve(&attached()),
        Err(SelectError::Ambiguous(_))
    ));
    assert!(matches!(
        Selector::Only.resolve(&[]),
        Err(SelectError::NotFound)
    ));
    assert!(matches!(
        Selector::from_str("usb:9-9").resolve(&attached()),
        Err(SelectError::NotFound)
    ));
}
