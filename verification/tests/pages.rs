//! Reading values off a page

use nkscan::protocol::caps::{Error, Page};

/// Reading past what arrived is an error, not a panic. The one place
/// this is checked, since every page goes through these accessors
#[test]
fn a_short_page_errors_rather_than_panicking() {
    let page = Page::new(0xC1, vec![0x06, 0xC1, 0x00, 0x04]).unwrap();
    assert!(matches!(
        page.be32(4),
        Err(Error::Truncated {
            need: 8,
            got: 4,
            ..
        })
    ));
}

/// Asking for one page and getting another
#[test]
fn a_mismatched_page_code_is_refused() {
    assert!(matches!(
        Page::new(0xC1, vec![0x06, 0xD1, 0x00, 0x04]),
        Err(Error::BadField { byte: 1, .. })
    ));
}
