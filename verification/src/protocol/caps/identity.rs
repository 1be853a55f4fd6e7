//! Standard INQUIRY data
//!
//! Note: this is not a VPD page

use super::Error;
use crate::protocol::model::Model;
use crate::text::{lossy, lossy_text, trim_text, trimmed};
use vstd::prelude::*;

verus! {

/// Peripheral device type 6, which is what a scanner reports
pub const SCANNER: u8 = 0x06;

/// The 36 mandatory bytes both units return
#[derive(Debug, PartialEq, Eq)]
pub struct Identity {
    /// Byte 0 bits 5-7. Nonzero means the unit is not supported on this LUN
    pub qualifier: u8,
    /// Byte 0 bits 0-4. [`SCANNER`] for the ones we drive
    pub device_type: u8,
    /// Byte 1 bit 7, set when the medium is removable
    pub removable: bool,
    /// Byte 2 bits 0-2. Both units report 2, meaning SCSI-2
    pub ansi_version: u8,
    /// Bytes 8-15
    pub vendor: String,
    /// Bytes 16-31
    pub product: String,
    /// Bytes 32-35
    pub revision: String,
}

impl Identity {
    /// Whether two answers say the same
    pub open spec fn same(&self, other: &Identity) -> bool {
        &&& self.qualifier == other.qualifier
        &&& self.device_type == other.device_type
        &&& self.removable == other.removable
        &&& self.ansi_version == other.ansi_version
        &&& self.vendor@ == other.vendor@
        &&& self.product@ == other.product@
        &&& self.revision@ == other.revision@
    }
}

impl Clone for Identity {
    fn clone(&self) -> (r: Identity)
        ensures
            r.same(self),
    {
        Identity {
            qualifier: self.qualifier,
            device_type: self.device_type,
            removable: self.removable,
            ansi_version: self.ansi_version,
            vendor: self.vendor.clone(),
            product: self.product.clone(),
            revision: self.revision.clone(),
        }
    }
}

/// Whether a run of bytes is ASCII
pub open spec fn all_ascii(bytes: Seq<u8>) -> bool {
    forall|i: int| 0 <= i < bytes.len() ==> #[trigger] bytes[i] < 0x80
}

/// What ASCII bytes spell
pub open spec fn ascii_text(bytes: Seq<u8>) -> Seq<char> {
    Seq::new(bytes.len(), |i: int| bytes[i] as char)
}

/// An identification field, which is space-padded
pub open spec fn field_text(bytes: Seq<u8>) -> Seq<char> {
    trimmed(lossy_text(bytes))
}

impl Identity {
    /// The recommended allocation length, and all either unit returns
    pub const LENGTH: usize = 36;

    /// What the reply says
    pub open spec fn says(&self, b: Seq<u8>) -> bool {
        &&& self.qualifier == b[0] / 32
        &&& self.device_type == b[0] % 32
        &&& self.removable == (b[1] >= 0x80)
        &&& self.ansi_version == b[2] % 8
        &&& self.vendor@ == field_text(b.subrange(8, 16))
        &&& self.product@ == field_text(b.subrange(16, 32))
        &&& self.revision@ == field_text(b.subrange(32, 36))
    }

    /// What a reply that keeps to ASCII says: its characters, without the
    /// padding
    pub open spec fn spells(&self, b: Seq<u8>) -> bool {
        &&& all_ascii(b.subrange(8, 16)) ==> self.vendor@ == trimmed(ascii_text(b.subrange(8, 16)))
        &&& all_ascii(b.subrange(16, 32)) ==> self.product@ == trimmed(
            ascii_text(b.subrange(16, 32)),
        )
        &&& all_ascii(b.subrange(32, 36)) ==> self.revision@ == trimmed(
            ascii_text(b.subrange(32, 36)),
        )
    }

    /// Read a reply
    pub fn parse(bytes: &[u8]) -> (r: Result<Identity, Error>)
        ensures
            match r {
                Ok(id) => bytes@.len() >= 36 && id.says(bytes@) && id.spells(bytes@),
                // Standard INQUIRY data has no page code of its own
                Err(e) => bytes@.len() < 36 && e.is_short(0, 36, bytes@.len() as int),
            },
    {
        if bytes.len() < Identity::LENGTH {
            return Err(Error::Truncated { page: 0, need: Identity::LENGTH, got: bytes.len() });
        }
        Ok(
            Identity {
                qualifier: bytes[0] / 32,
                device_type: bytes[0] % 32,
                removable: bytes[1] >= 0x80,
                ansi_version: bytes[2] % 8,
                vendor: ascii(&bytes[8..16]),
                product: ascii(&bytes[16..32]),
                revision: ascii(&bytes[32..36]),
            },
        )
    }

    /// Whether this is a scanner on this LUN
    pub open spec fn scans(&self) -> bool {
        self.qualifier == 0 && self.device_type == SCANNER
    }

    /// Whether this is a scanner we should be talking to at all
    pub fn is_scanner(&self) -> (r: bool)
        ensures
            r == self.scans(),
    {
        self.qualifier == 0 && self.device_type == SCANNER
    }

    /// Which scanner this is, where it is one with a name
    pub fn model(&self) -> (r: Option<Model>)
        ensures
            r == Model::of_product(self.product@),
    {
        Model::from_product(self.product.as_str())
    }

    /// Whether this is a unit that takes medium format film
    pub open spec fn medium_format(&self) -> bool {
        Model::of_product(self.product@) matches Some(m) && m.takes_medium_format()
    }

    /// Whether this is a unit that takes medium format film
    pub fn is_mf_scanner(&self) -> (r: bool)
        ensures
            r == self.medium_format(),
    {
        match self.model() {
            Some(model) => model.is_medium_format(),
            None => false,
        }
    }
}

/// The identification fields are space-padded ASCII
fn ascii(bytes: &[u8]) -> (r: String)
    ensures
        r@ == field_text(bytes@),
        all_ascii(bytes@) ==> r@ == trimmed(ascii_text(bytes@)),
{
    let text = lossy(bytes);
    trim_text(text.as_str())
}

/// Where the numbers of a reply are, and where its texts
pub proof fn law_where_an_identity_is(id: Identity, b: Seq<u8>)
    requires
        b.len() >= 36,
        id.says(b),
    ensures
        b[0] == 0x20 * id.qualifier + id.device_type && id.device_type < 0x20,
        id.removable <==> b[1] >= 0x80,
        id.ansi_version < 8 && (b[2] - id.ansi_version) % 8 == 0,
        id.vendor@ == trimmed(lossy_text(b.subrange(8, 16))),
        id.product@ == trimmed(lossy_text(b.subrange(16, 32))),
        id.revision@ == trimmed(lossy_text(b.subrange(32, 36))),
        id.scans() <==> b[0] == 0x06,
{
}

/// ASCII bytes spell the characters of their own numbers
pub proof fn law_ascii_spells_itself(bytes: Seq<u8>, i: int)
    requires
        0 <= i < bytes.len(),
        all_ascii(bytes),
    ensures
        ascii_text(bytes).len() == bytes.len(),
        ascii_text(bytes)[i] as u32 == bytes[i],
        bytes[i] <= 0x7F,
{
}

} // verus!
