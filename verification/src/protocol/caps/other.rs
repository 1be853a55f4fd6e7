//! The "other information" page, 0xE1

use super::{Error, Page};
use crate::protocol::data::{law_op_code_round_trip, Op};
use crate::text::{hex2, push_hex2};
use vstd::prelude::*;

verus! {

#[derive(Debug, Clone, Copy)]
pub struct Features {
    /// Declared page length. Byte 3
    pub page_length: u8,
    /// What the host (this software) needs to do rather than the scanner. Byte 4,5
    pub cooperation: HostCooperation,
    /// What types are available for READ/SEND. Bytes 6 - 10
    pub data_types: DataTypes,
    /// Bit depths for the various things. Bytes 11-19
    pub depths: Depths,
    /// EXECUTE operation support. Bytes 20 - 35
    pub execute: ExecuteOps,
    /// Other additional information. Byte 36
    pub additional: u8,
    /// RAM buffer area. Byte 37
    pub volatile_buffer: u8,
    /// NV buffer area. Byte 38
    pub nonvolatile_buffer: u8,
}

/// Bytes 4 and 5, assembled as `byte4 | byte5 << 8`. A bit set means *the
/// initiator* does that work, not the scanner
///
/// Five of these pair with the [`Coop`](crate::protocol::sense::Coop)
/// handshakes: a bit set here is an `09h-80h` ASCQ that will arrive. Bit 7 of
/// each byte is the extend bit, which is structural and truncated away
#[derive(Debug, Clone, Copy, PartialEq, Eq, Structural)]
pub struct HostCooperation {
    pub bits: u16,
}

impl HostCooperation {
    pub const THUMBNAIL: u16 = 0x0001;

    pub const AVERAGING: u16 = 0x0002;

    pub const REGISTRATION: u16 = 0x0004;

    pub const DARK_VOLTAGE: u16 = 0x0008;

    pub const SHADING_CALIBRATION: u16 = 0x0010;

    pub const AUTOFOCUS: u16 = 0x0020;

    pub const SHADING_CORRECTION: u16 = 0x0040;

    pub const MULTI_LINE: u16 = 0x0100;

    pub const PITCH_MAIN_SCAN: u16 = 0x0200;

    pub const TRUNCATED: u16 = 0x0400;

    pub const CCD_DATA: u16 = 0x0800;

    /// Every flag there is a name for
    pub const NAMED: u16 = 0x0F7F;

    /// The flags of `bits` that have a name
    pub fn from_bits_truncate(bits: u16) -> (r: HostCooperation)
        ensures
            r == HostCooperation::known(bits),
    {
        HostCooperation { bits: bits & HostCooperation::NAMED }
    }

    /// The flags of `bits` that have a name
    pub open spec fn known(bits: u16) -> HostCooperation {
        HostCooperation { bits: bits & HostCooperation::NAMED }
    }

    /// The flags as one number
    pub fn bits(&self) -> (r: u16)
        ensures
            r == self.bits,
    {
        self.bits
    }

    /// Whether every flag of `mask` is set
    pub open spec fn has(self, mask: u16) -> bool {
        self.bits & mask == mask
    }

    /// Whether every flag of `mask` is set
    pub fn contains(&self, mask: u16) -> (r: bool)
        ensures
            r == self.has(mask),
    {
        self.bits & mask == mask
    }
}

/// Bytes 6-10, assembled as `byte6 | byte7 << 8 | .. | byte10 << 32`
///
/// Which data types READ and SEND will carry
#[derive(Debug, Clone, Copy, PartialEq, Eq, Structural)]
pub struct DataTypes {
    pub bits: u64,
}

impl DataTypes {
    pub const HALFTONE_READ: u64 = 0x0000000001;

    pub const HALFTONE_WRITE: u64 = 0x0000000002;

    pub const GAMMA_READ: u64 = 0x0000000004;

    pub const GAMMA_WRITE: u64 = 0x0000000008;

    pub const HISTOGRAM_READ: u64 = 0x0000000010;

    pub const MAX_VALUE_READ: u64 = 0x0000000020;

    pub const MATRIX_READ: u64 = 0x0000000100;

    pub const MATRIX_WRITE: u64 = 0x0000000200;

    pub const FILTER_READ: u64 = 0x0000000400;

    pub const FILTER_WRITE: u64 = 0x0000000800;

    pub const SHADING_READ: u64 = 0x0000001000;

    pub const SHADING_WRITE: u64 = 0x0000002000;

    pub const DARK_VOLTAGE_READ: u64 = 0x0000010000;

    pub const DARK_VOLTAGE_WRITE: u64 = 0x0000020000;

    pub const MAGNETIC_READ: u64 = 0x0000040000;

    pub const MAGNETIC_WRITE: u64 = 0x0000080000;

    pub const COOP_PARAMS_READ: u64 = 0x0000100000;

    pub const BOUNDARY_READ: u64 = 0x0000200000;

    pub const BOUNDARY_WRITE: u64 = 0x0000400000;

    pub const ANALOG_GAMMA_READ: u64 = 0x0001000000;

    pub const ANALOG_GAIN_READ: u64 = 0x0002000000;

    pub const DIGITAL_GAIN_READ: u64 = 0x0004000000;

    pub const EXPOSURE_READ: u64 = 0x0008000000;

    pub const SETUP_READ: u64 = 0x0010000000;

    pub const SETUP_WRITE: u64 = 0x0020000000;

    pub const PERFORATION_READ: u64 = 0x0040000000;

    pub const BOUNDARY2_READ: u64 = 0x0100000000;

    pub const BOUNDARY2_WRITE: u64 = 0x0200000000;

    pub const INITIAL_WB_READ: u64 = 0x0400000000;

    pub const CCD_DATA_READ: u64 = 0x0800000000;

    pub const DRIVER_VERSION_READ: u64 = 0x1000000000;

    pub const DRIVER_VERSION_WRITE: u64 = 0x2000000000;

    pub const LEAK_READ: u64 = 0x4000000000;

    /// Every flag there is a name for
    pub const NAMED: u64 = 0x7F7F7F3F3F;

    /// The flags of `bits` that have a name
    pub fn from_bits_truncate(bits: u64) -> (r: DataTypes)
        ensures
            r == DataTypes::known(bits),
    {
        DataTypes { bits: bits & DataTypes::NAMED }
    }

    /// The flags of `bits` that have a name
    pub open spec fn known(bits: u64) -> DataTypes {
        DataTypes { bits: bits & DataTypes::NAMED }
    }

    /// The flags as one number
    pub fn bits(&self) -> (r: u64)
        ensures
            r == self.bits,
    {
        self.bits
    }

    /// Whether every flag of `mask` is set
    pub open spec fn has(self, mask: u64) -> bool {
        self.bits & mask == mask
    }

    /// Whether every flag of `mask` is set
    pub fn contains(&self, mask: u64) -> (r: bool)
        ensures
            r == self.has(mask),
    {
        self.bits & mask == mask
    }
}

/// Bytes 11-19, each the number of bits in one datum of that kind
#[derive(Debug, Clone, Copy, PartialEq, Eq, Structural)]
pub struct Depths {
    /// Byte 11
    pub halftone_mask: u8,
    /// Byte 12, input side of a downloaded LUT
    pub lut_input: u8,
    /// Byte 13, output side of a downloaded LUT
    pub lut_output: u8,
    /// Byte 14
    pub histogram: u8,
    /// Byte 15, the AE maximum value
    pub max_value: u8,
    /// Byte 16
    pub matrix: u8,
    /// Byte 17
    pub filter: u8,
    /// Byte 18, shading correction coefficient
    pub shading: u8,
    /// Byte 19, dark voltage correction coefficient
    pub dark_current: u8,
}

/// Bytes 20-35, one `u16` per EXECUTE opcode high nibble, `8xh` through `Fxh`
#[derive(Debug, Clone, Copy, PartialEq, Eq)]
pub struct ExecuteOps {
    words: [u16; 8],
}

/// The codes an operation may have, lowest first
pub open spec fn op_codes() -> Seq<u8> {
    Seq::new(128, |i: int| (0x80 + i) as u8)
}

/// The operations of a list as text, with commas between
pub open spec fn ops_wording(ops: Seq<Op>, n: nat) -> Seq<char>
    decreases n,
{
    if n == 0 {
        Seq::empty()
    } else {
        let op = ops[n - 1];
        let one = op.wording() + " ("@ + hex2(op.code_of()) + "h)"@;
        if n == 1 {
            one
        } else {
            ops_wording(ops, (n - 1) as nat) + ", "@ + one
        }
    }
}

impl ExecuteOps {
    /// One word per high nibble from 8 up
    pub closed spec fn view(&self) -> Seq<u16> {
        self.words@
    }

    /// Whether the operation with this code is advertised
    ///
    /// High nibble picks the word, low nibble the bit.
    pub open spec fn has(&self, code: u8) -> bool {
        code >= 0x80 && self@[code / 16 - 8] & (1u16 << ((code % 16) as u16)) != 0
    }

    /// Every advertised operation, by its code
    pub open spec fn ops(&self) -> Seq<Op> {
        op_codes().filter(|code: u8| self.has(code)).map_values(|code: u8| Op::of(code))
    }

    /// Whether EXECUTE operation `op` is supported
    ///
    /// High nibble picks the word, low nibble the bit. Anything below `80h`
    /// has no word and is unsupported by construction
    pub fn supports(&self, op: Op) -> (r: bool)
        ensures
            r == self.has(op.code_of()),
    {
        let code = op.code();
        if code < 0x80 {
            return false;
        }
        self.words[(code / 16 - 8) as usize] & (1u16 << ((code % 16) as u16)) != 0
    }

    /// Every operation this unit advertises
    pub fn iter(&self) -> (r: Vec<Op>)
        ensures
            r@ == self.ops(),
    {
        let mut r: Vec<Op> = Vec::new();
        let mut i: u8 = 0;
        let ghost pick = |code: u8| self.has(code);
        let ghost name = |code: u8| Op::of(code);
        proof {
            assert(op_codes().take(0) =~= Seq::<u8>::empty());
            reveal(Seq::filter);
            assert(op_codes().take(0).filter(pick).map_values(name) =~= Seq::<Op>::empty());
        }
        while i < 128
            invariant
                i <= 128,
                pick == (|code: u8| self.has(code)),
                name == (|code: u8| Op::of(code)),
                r@ == op_codes().take(i as int).filter(pick).map_values(name),
            decreases 128 - i,
        {
            let op = Op::from(0x80 + i);
            proof {
                let code = (0x80 + i) as u8;
                let before = op_codes().take(i as int);
                assert(op_codes().take(i + 1) =~= before.push(code));
                reveal(Seq::filter);
                assert(before.push(code).drop_last() =~= before);
                if pick(code) {
                    assert(before.push(code).filter(pick).map_values(name) =~= before.filter(
                        pick,
                    ).map_values(name).push(Op::of(code)));
                }
            }
            if self.supports(op) {
                r.push(op);
            }
            i += 1;
        }
        proof {
            assert(op_codes().take(128) =~= op_codes());
        }
        r
    }

    /// The operations rather than the bitmasks, which is what anyone reading
    /// this actually wants
    pub fn text(&self) -> (r: String)
        ensures
            r@ == "["@ + ops_wording(self.ops(), self.ops().len()) + "]"@,
    {
        let ops = self.iter();
        let mut s = String::from_str("[");
        let mut n: usize = 0;
        proof {
            assert("["@ + ops_wording(ops@, 0) =~= "["@);
        }
        while n < ops.len()
            invariant
                n <= ops@.len(),
                s@ == "["@ + ops_wording(ops@, n as nat),
            decreases ops@.len() - n,
        {
            let ghost before = s@;
            if n > 0 {
                s.append(", ");
            }
            let name = ops[n].name();
            s.append(name.as_str());
            s.append(" (");
            push_hex2(&mut s, ops[n].code());
            s.append("h)");
            proof {
                assert(s@ =~= "["@ + ops_wording(ops@, (n + 1) as nat));
            }
            n += 1;
        }
        s.append("]");
        s
    }
}

/// How much of a page the fields need, in the order they are read, or `None`
/// where it carries them all
pub open spec fn features_short_of(len: int) -> Option<int> {
    if len < 4 {
        Some(5)
    } else if len < 11 {
        Some(len + 1)
    } else if len < 20 {
        Some(21)
    } else if len < 39 {
        Some(len + 1)
    } else {
        None
    }
}

/// A pair of bytes, the low one first
pub open spec fn low_first(b: Seq<u8>, i: int) -> u16 {
    (b[i] + 256 * b[i + 1]) as u16
}

/// Five bytes, the low one first
pub open spec fn data_type_bits(b: Seq<u8>) -> u64 {
    (b[6] + 0x100 * b[7] + 0x1_0000 * b[8] + 0x100_0000 * b[9] + 0x1_0000_0000 * b[10]) as u64
}

/// A pair of bytes, the low one first
fn read_pair(page: &Page, i: usize) -> (r: Result<u16, Error>)
    requires
        i < 100,
    ensures
        match r {
            Ok(v) => i + 2 <= page@.len() && v == low_first(page@, i as int),
            Err(e) => i + 2 > page@.len() && e.is_short(
                page.code(),
                if i < page@.len() {
                    i + 2
                } else {
                    i + 1
                },
                page@.len() as int,
            ),
        },
{
    let low = page.u8(i)?;
    let high = page.u8(i + 1)?;
    Ok(low as u16 + 256 * high as u16)
}

impl Features {
    pub const PAGE_CODE: u8 = 0xE1;

    /// What the page says, field by field
    pub open spec fn says(&self, b: Seq<u8>) -> bool {
        &&& self.page_length == b[3]
        &&& self.cooperation == HostCooperation::known(low_first(b, 4))
        &&& self.data_types == DataTypes::known(data_type_bits(b))
        &&& self.depths == (Depths {
            halftone_mask: b[11],
            lut_input: b[12],
            lut_output: b[13],
            histogram: b[14],
            max_value: b[15],
            matrix: b[16],
            filter: b[17],
            shading: b[18],
            dark_current: b[19],
        })
        &&& self.execute@ == Seq::new(8, |n: int| low_first(b, 20 + 2 * n))
        &&& self.additional == b[36]
        &&& self.volatile_buffer == b[37]
        &&& self.nonvolatile_buffer == b[38]
    }
}

impl TryFrom<&Page> for Features {
    type Error = Error;

    fn try_from(page: &Page) -> (r: Result<Features, Error>)
        ensures
            match features_short_of(page@.len() as int) {
                Some(need) => r matches Err(e) && e.is_short(page.code(), need, page@.len() as int),
                None => r matches Ok(f) && f.says(page@),
            },
    {
        let cooperation = HostCooperation::from_bits_truncate(read_pair(page, 4)?);

        let t0 = page.u8(6)?;
        let t1 = page.u8(7)?;
        let t2 = page.u8(8)?;
        let t3 = page.u8(9)?;
        let t4 = page.u8(10)?;
        let types: u64 = t0 as u64 + 0x100 * t1 as u64 + 0x1_0000 * t2 as u64 + 0x100_0000
            * t3 as u64 + 0x1_0000_0000 * t4 as u64;

        // Low byte first: byte 20 carries 8xh ops 0-7, byte 21 ops 8-15
        let mut words: [u16; 8] = [0; 8];
        let mut n: usize = 0;
        while n < 8
            invariant
                n <= 8,
                page@.len() >= 11,
                n > 0 ==> page@.len() >= 20 + 2 * n,
                forall|k: int| 0 <= k < n ==> words@[k] == low_first(page@, 20 + 2 * k),
            decreases 8 - n,
        {
            words[n] = read_pair(page, 20 + 2 * n)?;
            n += 1;
        }
        let execute = ExecuteOps { words };
        proof {
            assert(execute@ =~= Seq::new(8, |n: int| low_first(page@, 20 + 2 * n)));
        }

        Ok(
            Features {
                page_length: page.u8(3)?,
                cooperation,
                data_types: DataTypes::from_bits_truncate(types),
                depths: Depths {
                    halftone_mask: page.u8(11)?,
                    lut_input: page.u8(12)?,
                    lut_output: page.u8(13)?,
                    histogram: page.u8(14)?,
                    max_value: page.u8(15)?,
                    matrix: page.u8(16)?,
                    filter: page.u8(17)?,
                    shading: page.u8(18)?,
                    dark_current: page.u8(19)?,
                },
                execute,
                additional: page.u8(36)?,
                volatile_buffer: page.u8(37)?,
                nonvolatile_buffer: page.u8(38)?,
            },
        )
    }
}

impl vstd::std_specs::convert::TryFromSpecImpl<&Page> for Features {
    open spec fn obeys_try_from_spec() -> bool {
        false
    }

    open spec fn try_from_spec(page: &Page) -> Result<Features, Error> {
        arbitrary()
    }
}

/// The operations that are listed are the ones that are supported, by every code
/// from `80h` up
pub proof fn law_listed_ops_are_the_supported_ones(ops: ExecuteOps, code: u8)
    requires
        code >= 0x80,
    ensures
        ops.ops().contains(Op::of(code)) <==> ops.has(code),
{
    let pick = |c: u8| ops.has(c);
    let kept = op_codes().filter(pick);
    let names = ops.ops();
    assert(op_codes()[code - 0x80] == code);
    if ops.has(code) {
        op_codes().lemma_filter_contains(pick, code - 0x80);
        let k = choose|k: int| 0 <= k < kept.len() && kept[k] == code;
        assert(names[k] == Op::of(code));
    }
    if names.contains(Op::of(code)) {
        let k = choose|k: int| 0 <= k < names.len() && names[k] == Op::of(code);
        op_codes().lemma_filter_pred(pick, k);
        law_op_code_round_trip(code);
        law_op_code_round_trip(kept[k]);
        assert(kept[k] == code);
        assert(pick(kept[k]));
    }
}

/// What is kept of codes that ascend ascends
proof fn lemma_filter_ascends(codes: Seq<u8>, pick: spec_fn(u8) -> bool)
    requires
        forall|i: int, j: int| 0 <= i < j < codes.len() ==> codes[i] < codes[j],
    ensures
        ({
            let kept = codes.filter(pick);
            &&& forall|i: int, j: int| 0 <= i < j < kept.len() ==> kept[i] < kept[j]
            &&& forall|i: int|
                0 <= i < kept.len() ==> exists|k: int|
                    0 <= k < codes.len() && codes[k] == #[trigger] kept[i]
        }),
    decreases codes.len(),
{
    reveal(Seq::filter);
    if codes.len() > 0 {
        let front = codes.drop_last();
        lemma_filter_ascends(front, pick);
        let before = front.filter(pick);
        let kept = codes.filter(pick);
        let n = codes.len() - 1;
        assert forall|i: int| 0 <= i < before.len() implies exists|k: int|
            0 <= k < n && codes[k] == #[trigger] before[i] by {
            let k = choose|k: int| 0 <= k < front.len() && front[k] == before[i];
            assert(codes[k] == before[i]);
        }
        if pick(codes.last()) {
            assert(kept == before.push(codes.last()));
            assert(codes[n] == codes.last());
        } else {
            assert(kept == before);
        }
    }
}

/// The operations are listed by ascending code
pub proof fn law_listed_ops_ascend(ops: ExecuteOps, i: int, j: int)
    requires
        0 <= i < j < ops.ops().len(),
    ensures
        ops.ops()[i].code_of() < ops.ops()[j].code_of(),
{
    let pick = |c: u8| ops.has(c);
    let kept = op_codes().filter(pick);
    lemma_filter_ascends(op_codes(), pick);
    law_op_code_round_trip(kept[i]);
    law_op_code_round_trip(kept[j]);
    assert(ops.ops()[i] == Op::of(kept[i]) && ops.ops()[j] == Op::of(kept[j]));
}

/// Where the numbers of the page are, low byte first where there are several
pub proof fn law_where_the_features_are(f: Features, b: Seq<u8>, n: int)
    requires
        b.len() >= 39,
        f.says(b),
        0 <= n < 8,
    ensures
        f.page_length == b[3],
        f.cooperation.bits == ((b[5] * 0x100 + b[4]) as u16) & 0x0F7F,
        f.data_types.bits == ((0x1_0000_0000 * b[10] + 0x100_0000 * b[9] + 0x1_0000 * b[8] + 0x100
            * b[7] + b[6]) as u64) & 0x7F_7F7F_3F3F,
        f.depths.halftone_mask == b[11],
        f.depths.lut_input == b[12],
        f.depths.lut_output == b[13],
        f.depths.histogram == b[14],
        f.depths.max_value == b[15],
        f.depths.matrix == b[16],
        f.depths.filter == b[17],
        f.depths.shading == b[18],
        f.depths.dark_current == b[19],
        f.execute@.len() == 8,
        f.execute@[n] == 0x100 * b[21 + 2 * n] + b[20 + 2 * n],
        f.additional == b[36],
        f.volatile_buffer == b[37],
        f.nonvolatile_buffer == b[38],
{
}

/// What a page of so many bytes is said to need
pub proof fn law_what_a_features_page_has_to_hold(len: int)
    requires
        0 <= len,
    ensures
        features_short_of(len) is None <==> len >= 39,
        len <= 4 ==> features_short_of(len) == Some(5int),
        5 <= len <= 10 || 20 <= len <= 38 ==> features_short_of(len) == Some(len + 1),
        11 <= len <= 19 ==> features_short_of(len) == Some(21int),
{
}

/// An operation is advertised by one bit of one byte: of the pair its high
/// digit picks, the low byte for low digits 0 to 7 and the high byte for 8 to
/// 15
pub proof fn law_which_bit_advertises_an_operation(f: Features, b: Seq<u8>, code: u8)
    requires
        b.len() >= 39,
        f.says(b),
    ensures
        code < 0x80 ==> !f.execute.has(code),
        code >= 0x80 ==> (f.execute.has(code) <==> ({
            let byte = b[20 + code / 8 - 16];
            let bit = code % 8;
            if bit == 0 {
                byte % 2 == 1
            } else if bit == 1 {
                byte / 2 % 2 == 1
            } else if bit == 2 {
                byte / 4 % 2 == 1
            } else if bit == 3 {
                byte / 8 % 2 == 1
            } else if bit == 4 {
                byte / 16 % 2 == 1
            } else if bit == 5 {
                byte / 32 % 2 == 1
            } else if bit == 6 {
                byte / 64 % 2 == 1
            } else {
                byte / 128 == 1
            }
        })),
{
    if code >= 0x80 {
        let n = code / 16 - 8;
        let lo = b[20 + 2 * n];
        let hi = b[21 + 2 * n];
        let word = f.execute@[n];
        assert(word == low_first(b, 20 + 2 * n));
        assert(word == lo + 256 * hi);
        let at = (code % 16) as u16;
        assert((word & (1u16 << at) != 0) <==> (if at == 0 {
            lo % 2 == 1
        } else if at == 1 {
            lo / 2 % 2 == 1
        } else if at == 2 {
            lo / 4 % 2 == 1
        } else if at == 3 {
            lo / 8 % 2 == 1
        } else if at == 4 {
            lo / 16 % 2 == 1
        } else if at == 5 {
            lo / 32 % 2 == 1
        } else if at == 6 {
            lo / 64 % 2 == 1
        } else if at == 7 {
            lo / 128 == 1
        } else if at == 8 {
            hi % 2 == 1
        } else if at == 9 {
            hi / 2 % 2 == 1
        } else if at == 10 {
            hi / 4 % 2 == 1
        } else if at == 11 {
            hi / 8 % 2 == 1
        } else if at == 12 {
            hi / 16 % 2 == 1
        } else if at == 13 {
            hi / 32 % 2 == 1
        } else if at == 14 {
            hi / 64 % 2 == 1
        } else {
            hi / 128 == 1
        })) by (bit_vector)
            requires
                word == lo + 256 * hi,
                at < 16,
        ;
        if at < 8 {
            assert(code / 8 - 16 == 2 * n);
        } else {
            assert(code / 8 - 16 == 2 * n + 1);
        }
    }
}

/// Operations are listed in their order, each with its code behind its name, and
/// a comma and a space between two
pub proof fn law_how_operations_are_listed(ops: Seq<Op>, n: nat)
    requires
        1 <= n < ops.len(),
    ensures
        ops_wording(ops, 0).len() == 0,
        ops_wording(ops, 1) == ops[0].wording() + " ("@ + hex2(ops[0].code_of()) + "h)"@,
        ops_wording(ops, n + 1) == ops_wording(ops, n) + seq![',', ' '] + (ops[n as int].wording()
            + " ("@ + hex2(ops[n as int].code_of()) + "h)"@),
{
    reveal_strlit(", ");
    assert(", "@ =~= seq![',', ' ']);
}

/// Which bits of their bytes the shared work and the data types are
pub proof fn law_what_the_feature_flags_are(bits: u16, types: u64)
    ensures
        HostCooperation::known(bits).bits == bits / 0x100 % 0x10 * 0x100 + bits % 0x80,
        DataTypes::known(types).bits == types & 0x7F_7F7F_3F3F,
        HostCooperation::THUMBNAIL == 1 && HostCooperation::AVERAGING == 2
            && HostCooperation::REGISTRATION == 4 && HostCooperation::DARK_VOLTAGE == 8,
        HostCooperation::SHADING_CALIBRATION == 16 && HostCooperation::AUTOFOCUS == 32
            && HostCooperation::SHADING_CORRECTION == 64,
        HostCooperation::MULTI_LINE == 256 && HostCooperation::PITCH_MAIN_SCAN == 512
            && HostCooperation::TRUNCATED == 1024 && HostCooperation::CCD_DATA == 2048,
{
    assert(bits & 0x0F7F == bits / 0x100 % 0x10 * 0x100 + bits % 0x80) by (bit_vector);
}

} // verus!
