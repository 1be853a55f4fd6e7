//! Mode parameters
//!
//! Both units implement exactly one page, Measurement Units, with exactly one
//! variable field in it. Everything else is fixed.

use crate::bytes::{be16, be16_bytes, join16};
use vstd::prelude::*;

verus! {

/// The only page either unit implements
pub const MEASUREMENT_UNITS: u8 = 0x03;

/// The mode parameter header. Byte 3 is the block descriptor length, which is 0 or 8
const HEADER: usize = 4;

/// The divisor a MODE SENSE reply carries
///
/// The page follows the header and the block descriptors, and its code is the
/// low six bits of its first byte.
pub open spec fn reported_divisor(reply: Seq<u8>) -> Option<u16> {
    let page = 4 + reply[3];
    if reply.len() >= 4 && reply.len() >= page + 6 && reply[page] & 0x3F == MEASUREMENT_UNITS {
        Some(be16(reply[page + 4], reply[page + 5]))
    } else {
        None
    }
}

/// The parameter list that sets the divisor and nothing else
pub open spec fn divisor_list(divisor: u16) -> Seq<u8> {
    seq![0, 0, 0, 0, MEASUREMENT_UNITS, 6, 0, 0] + be16_bytes(divisor) + seq![0, 0]
}

/// The units of one step of window dimension
///
/// SET WINDOW positions are inches multiplied by this, so at the unit's maximum
/// resolution a step is one pixel and at 1200 it is not. Only those two values
/// are accepted.
pub fn divisor(reply: &[u8]) -> (r: Option<u16>)
    ensures
        r == reported_divisor(reply@),
{
    if reply.len() < HEADER {
        return None;
    }
    let page: usize = HEADER + reply[3] as usize;
    if reply.len() <= page {
        return None;
    }
    // Bit 7 is PS and bit 6 reserved, so the code is the low six bits
    if reply[page] & 0x3F != MEASUREMENT_UNITS {
        return None;
    }
    if reply.len() - page < 6 {
        return None;
    }
    Some(join16(reply[page + 4], reply[page + 5]))
}

/// A parameter list that sets the divisor and nothing else
///
/// The block descriptor is omitted, which is explicitly permitted, so this is
/// one of the four accepted lengths
pub fn set_divisor(divisor: u16) -> (r: [u8; 12])
    ensures
        r@ == divisor_list(divisor),
{
    let r: [u8; 12] = [
        // Header. Every field is reserved on the way out, including the length
        // byte MODE SENSE fills in
        0, 0, 0, 0,
        // Page code with PS unset, then the fixed parameter length
        MEASUREMENT_UNITS, 6,
        // Basic measurement unit: 0 is inches, the only one either unit has
        0, 0, (divisor / 256) as u8, (divisor % 256) as u8,
        // Reserved
        0, 0,
    ];
    proof {
        assert(r@ =~= divisor_list(divisor));
    }
    r
}

/// What a parameter list sets is what reading it back as a reply reports
pub proof fn law_divisor_round_trip(d: u16)
    ensures
        reported_divisor(divisor_list(d)) == Some(d),
{
    let list = divisor_list(d);
    assert(list[3] == 0);
    assert(list[4] == MEASUREMENT_UNITS);
    assert(0x03u8 & 0x3F == 0x03u8) by (bit_vector);
    assert(list[8] == (d / 256) as u8 && list[9] == (d % 256) as u8);
}

/// A reply is read as what follows its header and as many bytes as byte 3 counts:
/// a page 3, flags aside, whose fifth and sixth bytes spell the divisor
pub proof fn law_where_the_divisor_is(reply: Seq<u8>)
    requires
        reply.len() >= 4,
    ensures
        ({
            let page = reply[3] + 4;
            match reported_divisor(reply) {
                Some(d) => page + 6 <= reply.len() && reply[page] & 0x3F == 3 && d == 256
                    * reply[page + 4] + reply[page + 5],
                None => page + 6 > reply.len() || reply[page] & 0x3F != 3,
            }
        }),
{
}

/// A short reply reports nothing
pub proof fn law_a_short_reply_reports_nothing(reply: Seq<u8>)
    requires
        reply.len() < 10,
    ensures
        reported_divisor(reply) is None,
{
}

/// The list is twelve bytes: page 3 of six bytes in inches behind an empty header,
/// with the divisor in its middle
pub proof fn law_what_sets_the_divisor(divisor: u16)
    ensures
        ({
            let list = divisor_list(divisor);
            &&& list.len() == 12
            &&& list[4] == 3 && list[5] == 6
            &&& 256 * list[8] + list[9] == divisor
            &&& forall|i: int|
                0 <= i < 4 || i == 6 || i == 7 || i == 10 || i == 11 ==> (#[trigger] list[i]) == 0
        }),
{
}

} // verus!
