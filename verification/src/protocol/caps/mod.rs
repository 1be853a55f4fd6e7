//! The capabilities a scanner advertises
//!
//! Every decision made in operation revolves around what a scanner says it can
//! do, rather than around what is known of a model beforehand.

use crate::bytes::{be16_at, be32_at, read16, read32};
use crate::text::{decimal, hex2, hex_value, push_decimal, push_hex2, push_hex_value};
use vstd::prelude::*;

pub mod address;
pub mod ccd;
pub mod film;
pub mod frames;
pub mod identity;
pub mod other;
pub mod set_window;

verus! {

/// A page that does not hold what it should
#[derive(Debug, Clone, Copy)]
pub enum Error {
    Truncated { page: u8, need: usize, got: usize },
    BadField { page: u8, byte: usize, what: &'static str, value: u32 },
}

impl Error {
    /// What this says to a person
    pub open spec fn wording(self) -> Seq<char> {
        match self {
            Error::Truncated { page, need, got } => "page "@ + hex2(page) + "h truncated: need "@
                + decimal(need as nat) + " bytes, got "@ + decimal(got as nat),
            Error::BadField { page, byte, what, value } => "page "@ + hex2(page) + "h byte "@
                + decimal(byte as nat) + ": "@ + what@ + " = "@ + hex_value(value as nat),
        }
    }

    /// Say this to a person
    pub fn message(&self) -> (r: String)
        ensures
            r@ == self.wording(),
    {
        let mut s = String::from_str("page ");
        match self {
            Error::Truncated { page, need, got } => {
                push_hex2(&mut s, *page);
                s.append("h truncated: need ");
                push_decimal(&mut s, *need as u64);
                s.append(" bytes, got ");
                push_decimal(&mut s, *got as u64);
            },
            Error::BadField { page, byte, what, value } => {
                push_hex2(&mut s, *page);
                s.append("h byte ");
                push_decimal(&mut s, *byte as u64);
                s.append(": ");
                s.append(what);
                s.append(" = ");
                push_hex_value(&mut s, *value as u64);
            },
        }
        s
    }

    /// A page that ends before `need` bytes, as far as a machine word can say
    pub open spec fn is_short(self, page: u8, need: int, got: int) -> bool {
        self matches Error::Truncated { page: p, need: n, got: g } && p == page && n == (
        if need <= usize::MAX {
            need
        } else {
            usize::MAX as int
        }) && g == got
    }

    /// A field that holds what it may not
    pub open spec fn is_bad(self, page: u8, byte: int, what: Seq<char>, value: int) -> bool {
        self matches Error::BadField { page: p, byte: b, what: w, value: v } && p == page && b
            == byte && w@ == what && v == value
    }
}

/// All of the capabilities the attached scanner reports
#[derive(Debug)]
pub struct Capabilities {
    pub identity: identity::Identity,
    pub address: address::Address,
    pub features: other::Features,
    pub set_window: set_window::SetWindowFunction,
    /// Missing from the page-00h list, so a unit may genuinely not have it
    pub ccd: Option<ccd::CcdMeasurement>,
    /// Published only when `Address` byte 16 sets `FRAME_RECTS`
    pub frames: Option<frames::Frames>,
}

/// One page from "Vital Product Data"
#[derive(Debug)]
pub struct Page {
    code: u8,
    bytes: Vec<u8>,
}

/// Utilities for reading values off the page
impl Page {
    /// The code the page was asked for by
    pub closed spec fn code(&self) -> u8 {
        self.code
    }

    /// What arrived
    pub closed spec fn view(&self) -> Seq<u8> {
        self.bytes@
    }

    /// Build a new page from VPD data
    pub fn new(code: u8, bytes: Vec<u8>) -> (r: Result<Page, Error>)
        ensures
            match r {
                Ok(page) => bytes@.len() >= 4 && bytes@[1] == code && page@ == bytes@ && page.code()
                    == code,
                Err(e) => if bytes@.len() < 4 {
                    e.is_short(code, 4, bytes@.len() as int)
                } else {
                    bytes@[1] != code && e.is_bad(code, 1, "page code"@, bytes@[1] as int)
                },
            },
    {
        // byte 3 is the page length, so anything shorter is not a page
        if bytes.len() < 4 {
            return Err(Error::Truncated { page: code, need: 4, got: bytes.len() });
        }
        // asked for one page, got another
        if bytes[1] != code {
            return Err(
                Error::BadField { page: code, byte: 1, what: "page code", value: bytes[1] as u32 },
            );
        }
        Ok(Page { code, bytes })
    }

    /// What arrived fits the machine
    pub proof fn lemma_fits(&self)
        ensures
            self@.len() <= usize::MAX,
    {
        assert(self.bytes@.len() == self.bytes.len());
    }

    /// The byte at `i`
    pub fn u8(&self, i: usize) -> (r: Result<u8, Error>)
        ensures
            match r {
                Ok(v) => i < self@.len() && v == self@[i as int],
                Err(e) => i >= self@.len() && e.is_short(self.code(), i + 1, self@.len() as int),
            },
    {
        if i >= self.bytes.len() {
            return Err(Error::Truncated { page: self.code, need: after(i, 1), got: self.bytes.len() });
        }
        Ok(self.bytes[i])
    }

    /// The 16-bit number at `i`
    pub fn be16(&self, i: usize) -> (r: Result<u16, Error>)
        ensures
            match r {
                Ok(v) => i + 2 <= self@.len() && v == be16_at(self@, i as int),
                Err(e) => i + 2 > self@.len() && e.is_short(self.code(), i + 2, self@.len() as int),
            },
    {
        if self.bytes.len() < 2 || i > self.bytes.len() - 2 {
            return Err(Error::Truncated { page: self.code, need: after(i, 2), got: self.bytes.len() });
        }
        Ok(read16(self.bytes.as_slice(), i))
    }

    /// The 32-bit number at `i`
    pub fn be32(&self, i: usize) -> (r: Result<u32, Error>)
        ensures
            match r {
                Ok(v) => i + 4 <= self@.len() && v == be32_at(self@, i as int),
                Err(e) => i + 4 > self@.len() && e.is_short(self.code(), i + 4, self@.len() as int),
            },
    {
        if self.bytes.len() < 4 || i > self.bytes.len() - 4 {
            return Err(Error::Truncated { page: self.code, need: after(i, 4), got: self.bytes.len() });
        }
        Ok(read32(self.bytes.as_slice(), i))
    }

    /// The byte at `i`, where zero means "absent"
    pub fn opt_u8(&self, i: usize) -> (r: Result<Option<u8>, Error>)
        ensures
            match r {
                Ok(v) => i < self@.len() && v == nonzero8(self@[i as int]),
                Err(e) => i >= self@.len() && e.is_short(self.code(), i + 1, self@.len() as int),
            },
    {
        match self.u8(i) {
            Ok(v) => Ok(if v != 0 {
                Some(v)
            } else {
                None
            }),
            Err(e) => Err(e),
        }
    }

    /// The 16-bit number at `i`, where zero means "absent"
    pub fn opt_be16(&self, i: usize) -> (r: Result<Option<u16>, Error>)
        ensures
            match r {
                Ok(v) => i + 2 <= self@.len() && v == nonzero16(be16_at(self@, i as int)),
                Err(e) => i + 2 > self@.len() && e.is_short(self.code(), i + 2, self@.len() as int),
            },
    {
        match self.be16(i) {
            Ok(v) => Ok(if v != 0 {
                Some(v)
            } else {
                None
            }),
            Err(e) => Err(e),
        }
    }
    /// The flags an extendable field starts with, and where the field ends
    ///
    /// Bit 7 of each of its bytes says that it carries on into the next one. It
    /// is structural, so the flags come with it and are truncated by whoever
    /// names them.
    pub fn flags(&self, i: usize) -> (r: Result<(u8, usize), Error>)
        ensures
            match field_end(self@, i as int) {
                Some(end) => r matches Ok((bits, e)) && bits == self@[i as int] && e == end && i < e
                    && e <= self@.len(),
                None => r matches Err(e) && e.is_short(
                    self.code(),
                    field_need(self@, i as int),
                    self@.len() as int,
                ),
            },
    {
        let mut at: usize = i;
        while at < self.bytes.len()
            invariant
                i <= at,
                i < self@.len() ==> at <= self@.len(),
                i >= self@.len() ==> at == i,
                field_end(self@, i as int) == field_end(self@, at as int),
            decreases self@.len() - at,
        {
            if self.bytes[at] & 0x80 == 0 {
                return Ok((self.bytes[i], at + 1));
            }
            at += 1;
        }
        Err(Error::Truncated { page: self.code, need: after(at, 1), got: self.bytes.len() })
    }

    /// The byte at `i`, where the page really carries it
    ///
    /// The declared length says where the page ends. What follows is whatever
    /// the transport padded the allocation with.
    pub fn carried_u8(&self, i: usize) -> (r: Option<u8>)
        ensures
            r == carried(self@, i as int),
    {
        if self.bytes.len() > 3 && i < self.bytes.len() && i < 4 + self.bytes[3] as usize {
            Some(self.bytes[i])
        } else {
            None
        }
    }

    /// The big-endian number of `width` bytes at `i`, as far as 32 bits hold it
    pub fn be(&self, i: usize, width: usize) -> (r: Result<u32, Error>)
        ensures
            match r {
                Ok(v) => i + width <= self@.len() && v == be_at(self@, i as int, width as nat),
                Err(e) => i + width > self@.len() && e.is_short(
                    self.code(),
                    i + width,
                    self@.len() as int,
                ),
            },
    {
        if width > self.bytes.len() || i > self.bytes.len() - width {
            return Err(
                Error::Truncated { page: self.code, need: after(i, width), got: self.bytes.len() },
            );
        }
        let mut v: u64 = 0;
        let mut n: usize = 0;
        while n < width
            invariant
                n <= width,
                i + width <= self@.len(),
                self@.len() == self.bytes.len(),
                v < 0x1_0000_0000,
                v == be_at(self@, i as int, n as nat),
            decreases width - n,
        {
            v = (v * 256 + self.bytes[i + n] as u64) % 0x1_0000_0000;
            n += 1;
        }
        Ok(v as u32)
    }
}

/// The place `n` past `i`, or the last there is
pub(crate) fn after(i: usize, n: usize) -> (r: usize)
    ensures
        r == if i + n <= usize::MAX {
            i + n
        } else {
            usize::MAX as int
        },
{
    i.saturating_add(n)
}

/// Where an extendable field that starts at `i` ends, or `None` where what
/// arrived ends first
pub open spec fn field_end(b: Seq<u8>, i: int) -> Option<int>
    decreases b.len() - i,
{
    if i < 0 || i >= b.len() {
        None
    } else if b[i] & 0x80 == 0 {
        Some(i + 1)
    } else {
        field_end(b, i + 1)
    }
}

/// What is moved along as a whole ends as much further on
pub proof fn lemma_field_end_moves(b: Seq<u8>, moved: Seq<u8>, i: int, by: int)
    requires
        0 <= i,
        0 <= by,
        moved.len() == b.len() + by,
        forall|j: int| i + by <= j < moved.len() ==> #[trigger] moved[j] == b[j - by],
    ensures
        match field_end(b, i) {
            Some(end) => field_end(moved, i + by) == Some(end + by) && i < end,
            None => field_end(moved, i + by) is None,
        },
    decreases b.len() - i,
{
    if i < b.len() {
        assert(moved[i + by] == b[i]);
        if b[i] & 0x80 != 0 {
            lemma_field_end_moves(b, moved, i + 1, by);
        }
    }
}

/// What is carried on into padding ends where it ended
pub proof fn lemma_field_end_stays(b: Seq<u8>, pad: Seq<u8>, i: int)
    requires
        0 <= i,
        field_end(b, i) is Some,
    ensures
        field_end(b + pad, i) == field_end(b, i),
        i < field_end(b, i)->0 <= b.len(),
    decreases b.len() - i,
{
    assert((b + pad)[i] == b[i]);
    if b[i] & 0x80 != 0 {
        lemma_field_end_stays(b, pad, i + 1);
    }
}

/// How much would have to have arrived for an extendable field to carry on
pub open spec fn field_need(b: Seq<u8>, i: int) -> int {
    if i < b.len() {
        b.len() as int + 1
    } else {
        i + 1
    }
}

/// What the page carries at `i`, by the length it declares
pub open spec fn carried(b: Seq<u8>, i: int) -> Option<u8> {
    if b.len() > 3 && i < b.len() && i < 4 + b[3] {
        Some(b[i])
    } else {
        None
    }
}

/// The big-endian number of `width` bytes at `i`, as far as 32 bits hold it
pub open spec fn be_at(b: Seq<u8>, i: int, width: nat) -> int
    decreases width,
{
    if width == 0 {
        0
    } else {
        (be_at(b, i, (width - 1) as nat) * 256 + b[i + width - 1]) % 0x1_0000_0000
    }
}

/// What a page of `len` bytes is short of: this field where it does not hold
/// it, or else what the fields read after it are short of
pub open spec fn short_of(len: nat, i: int, width: int, rest: Option<int>) -> Option<int> {
    if i + width > len {
        Some(i + width)
    } else {
        rest
    }
}

/// Zero means "absent" in several fields
pub open spec fn nonzero8(v: u8) -> Option<u8> {
    if v != 0 {
        Some(v)
    } else {
        None
    }
}

/// Zero means "absent" in several fields
pub open spec fn nonzero16(v: u16) -> Option<u16> {
    if v != 0 {
        Some(v)
    } else {
        None
    }
}

/// An extendable field ends behind its first byte with bit 7 clear, and has no
/// end where every byte to the end of the page has it set
pub proof fn law_where_an_extendable_field_ends(b: Seq<u8>, i: int, end: int)
    requires
        0 <= i,
    ensures
        field_end(b, i) == Some(end) <==> i < end <= b.len() && b[end - 1] & 0x80 == 0 && (forall|
            j: int,
        |
            i <= j < end - 1 ==> #[trigger] b[j] & 0x80 != 0),
        field_end(b, i) is None <==> (forall|j: int|
            i <= j < b.len() ==> #[trigger] b[j] & 0x80 != 0),
        i < b.len() ==> field_need(b, i) == b.len() + 1,
        i >= b.len() ==> field_need(b, i) == i + 1,
    decreases b.len() - i,
{
    if i < b.len() {
        if b[i] & 0x80 != 0 {
            law_where_an_extendable_field_ends(b, i + 1, end);
            assert(forall|j: int|
                i <= j < b.len() && j != i ==> i + 1 <= j && (#[trigger] b[j]) == b[j]);
        }
    }
}

/// A page carries the bytes its declared length counts, as far as they arrived
pub proof fn law_what_a_page_carries(b: Seq<u8>, i: int)
    requires
        b.len() >= 4,
        0 <= i,
    ensures
        i < b.len() && i - 4 < b[3] ==> carried(b, i) == Some(b[i]),
        i >= b.len() || i - 4 >= b[3] ==> carried(b, i) is None,
{
}

/// A number of up to four bytes is their digits, and of a wider one the last
/// four bytes count
pub proof fn law_a_wide_number_keeps_its_last_bytes(b: Seq<u8>, i: int, width: nat)
    requires
        0 <= i,
        i + width <= b.len(),
    ensures
        width == 0 ==> be_at(b, i, width) == 0,
        width == 1 ==> be_at(b, i, width) == b[i],
        width == 2 ==> be_at(b, i, width) == 0x100 * b[i] + b[i + 1],
        width == 3 ==> be_at(b, i, width) == 0x1_0000 * b[i] + 0x100 * b[i + 1] + b[i + 2],
        width >= 4 ==> be_at(b, i, width) == 0x100_0000 * b[i + width - 4] + 0x1_0000 * b[i + width
            - 3] + 0x100 * b[i + width - 2] + b[i + width - 1],
    decreases width,
{
    if width > 0 {
        let front = (width - 1) as nat;
        law_a_wide_number_keeps_its_last_bytes(b, i, front);
        let before = be_at(b, i, front);
        let last = b[i + width - 1] as int;
        assert(be_at(b, i, width) == (before * 256 + last) % 0x1_0000_0000);
        if width > 4 {
            let lead = b[i + front - 4] as int;
            let kept = 0x1_0000 * b[i + front - 3] + 0x100 * b[i + front - 2] + b[i + front - 1];
            assert(before * 256 + last == 0x1_0000_0000 * lead + (0x100 * kept + last));
            assert(0 <= 0x100 * kept + last < 0x1_0000_0000);
        } else {
            assert(0 <= before * 256 + last < 0x1_0000_0000);
        }
    }
}

/// Zero is absent, and every other number stands for itself
pub proof fn law_zero_is_absent(narrow: u8, wide: u16)
    ensures
        nonzero8(0) is None,
        nonzero16(0) is None,
        narrow > 0 ==> nonzero8(narrow) == Some(narrow),
        wide > 0 ==> nonzero16(wide) == Some(wide),
{
}

/// A page of `len` bytes lacks a field exactly where the field would end past
/// it, and that end is what it is said to need
pub proof fn law_what_a_field_lacks(len: nat, i: int, width: int, rest: Option<int>)
    ensures
        len < i + width ==> short_of(len, i, width, rest) == Some(i + width),
        len >= i + width ==> short_of(len, i, width, rest) == rest,
{
}

/// How a page that falls short, or holds what it may not, is reported
pub proof fn law_what_a_page_error_holds(e: Error, page: u8, at: int, got: int, what: Seq<char>)
    requires
        0 <= at,
    ensures
        e.is_short(page, at, got) ==> (e matches Error::Truncated { page: p, need, got: g } && p
            == page && g == got && need <= at && (need == at || need == usize::MAX)),
        e.is_bad(page, at, what, got) ==> (e matches Error::BadField {
            page: p,
            byte,
            what: w,
            value,
        } && p == page && byte == at && w@ == what && value == got),
{
}

/// What is said of a page: how much it is short of, or which byte of it holds
/// what it may not
pub proof fn law_what_a_page_error_says(e: Error)
    ensures
        e matches Error::Truncated { page, need, got } ==> e.wording() == "page "@ + hex2(page)
            + "h truncated: need "@ + decimal(need as nat) + " bytes, got "@ + decimal(got as nat),
        e matches Error::BadField { page, byte, what, value } ==> e.wording() == "page "@ + hex2(
            page,
        ) + "h byte "@ + decimal(byte as nat) + ": "@ + what@ + " = "@ + hex_value(value as nat),
{
}

/// A page is taken where its four bytes of header are there and the second is the
/// code that was asked for
pub proof fn law_which_pages_are_taken(code: u8, bytes: Vec<u8>, r: Result<Page, Error>)
    requires
        call_ensures(Page::new, (code, bytes), r),
    ensures
        r is Ok <==> bytes@.len() >= 4 && bytes@[1] == code,
        r matches Ok(page) ==> page@ == bytes@ && page.code() == code,
        r matches Err(e) ==> (e is Truncated <==> bytes@.len() < 4),
{
}

/// What is read off a page, and that a number is read where every byte of it is
/// there
pub proof fn law_what_is_read_off_a_page(
    page: &Page,
    i: usize,
    one: Result<u8, Error>,
    two: Result<u16, Error>,
    four: Result<u32, Error>,
)
    requires
        call_ensures(Page::u8, (page, i), one),
        call_ensures(Page::be16, (page, i), two),
        call_ensures(Page::be32, (page, i), four),
    ensures
        one is Ok <==> i < page@.len(),
        two is Ok <==> i + 1 < page@.len(),
        four is Ok <==> i + 3 < page@.len(),
        one matches Ok(v) ==> v == page@[i as int],
        two matches Ok(v) ==> v == 0x100 * page@[i as int] + page@[i + 1],
        four matches Ok(v) ==> v == 0x100_0000 * page@[i as int] + 0x1_0000 * page@[i + 1] + 0x100
            * page@[i + 2] + page@[i + 3],
{
}

} // verus!
