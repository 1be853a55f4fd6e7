//! Reading a unit's memory a chunk at a time, and showing what came

use crate::text::{
    hex, hex2, hex_digit, hex_text, law_hexadecimal_is_written_digit_by_digit, lower_hex, push_hex2,
    push_lower_hex, spaces,
};
use vstd::prelude::*;

verus! {

/// The most one command transfers: a unit takes 16 bits of the length
pub const MAX_CHUNK: u32 = 0xFFFF;

/// A read that is under way
#[derive(Debug, Clone, Copy, PartialEq, Eq, Structural)]
pub struct Walk {
    /// Where the next chunk starts
    pub at: u32,
    /// How much is still to come
    pub remaining: u32,
}

/// Where in a buffer an address is, which cannot be in front of its base
pub fn offset_of(address: u32, base: u32) -> (r: Result<u32, String>)
    ensures
        match r {
            Ok(offset) => address >= base && offset == address - base,
            Err(e) => address < base && e@ == "--address 0x"@ + lower_hex(address as nat)
                + " is below --base 0x"@ + lower_hex(base as nat),
        },
{
    if address < base {
        let mut e = String::from_str("--address 0x");
        push_lower_hex(&mut e, address as u64);
        e.append(" is below --base 0x");
        push_lower_hex(&mut e, base as u64);
        return Err(e);
    }
    Ok(address - base)
}

impl Walk {
    /// How much the next command asks for
    pub open spec fn ask(self, max_transfer: u32) -> u32 {
        let most = if max_transfer < MAX_CHUNK {
            max_transfer
        } else {
            MAX_CHUNK
        };
        if self.remaining < most {
            self.remaining
        } else {
            most
        }
    }

    /// How much the next command asks for: what is left, as far as the unit and
    /// the transport take it
    pub fn chunk(self, max_transfer: u32) -> (r: u32)
        ensures
            r == self.ask(max_transfer),
    {
        let most: u32 = if max_transfer < MAX_CHUNK {
            max_transfer
        } else {
            MAX_CHUNK
        };
        if self.remaining < most {
            self.remaining
        } else {
            most
        }
    }

    /// Where a read goes on after `got` of the `asked` bytes came, or `None`
    /// where it is over
    ///
    /// A short read means the unit ran out of whatever it is willing to give;
    /// pushing on would just re-ask for the same window.
    pub fn after(self, asked: u32, got: u32) -> (r: Option<Walk>)
        requires
            got <= asked <= self.remaining,
            self.at + got <= u32::MAX,
        ensures
            match r {
                Some(next) => {
                    &&& 0 < got == asked
                    &&& got < self.remaining
                    &&& next.at == self.at + got
                    &&& next.remaining == self.remaining - got
                },
                None => got == 0 || got < asked || got == self.remaining,
            },
    {
        if got == 0 || got < asked || got == self.remaining {
            return None;
        }
        Some(Walk { at: self.at + got, remaining: self.remaining - got })
    }
}

/// A byte as a character of its own, or a dot where it is none
pub open spec fn shown_byte(b: u8) -> char {
    if 0x20 <= b < 0x7F {
        b as char
    } else {
        '.'
    }
}

/// A number in four hexadecimal digits, or as many as it takes
pub open spec fn hex4(n: nat) -> Seq<char> {
    if n < 0x10 {
        "000"@ + hex(n)
    } else if n < 0x100 {
        "00"@ + hex(n)
    } else if n < 0x1000 {
        "0"@ + hex(n)
    } else {
        hex(n)
    }
}

/// The first `n` bytes of a row in hexadecimal, with spaces between
pub open spec fn row_hex(row: Seq<u8>, n: nat) -> Seq<char>
    decreases n,
{
    if n == 0 {
        Seq::empty()
    } else if n == 1 {
        hex2(row[0])
    } else {
        row_hex(row, (n - 1) as nat) + " "@ + hex2(row[n - 1])
    }
}

/// A text in a column of `width`
pub open spec fn in_column(s: Seq<char>, width: int) -> Seq<char> {
    s + spaces(width - s.len())
}

/// One row of a dump: where it is, its bytes, and what they spell
pub open spec fn row_wording(at: nat, row: Seq<u8>) -> Seq<char> {
    "  "@ + hex4(at) + "  "@ + in_column(row_hex(row, row.len()), 47) + "  "@ + Seq::new(
        row.len(),
        |i: int| shown_byte(row[i]),
    )
}

/// The bytes of a row in hexadecimal take two characters each and one between
proof fn lemma_row_hex_len(row: Seq<u8>, n: nat)
    requires
        n <= row.len(),
    ensures
        row_hex(row, n).len() == if n == 0 {
            0
        } else {
            3 * n - 1
        },
    decreases n,
{
    if n > 1 {
        lemma_row_hex_len(row, (n - 1) as nat);
        reveal_strlit(" ");
    }
}

/// A byte as a character of its own
fn shown_char(b: u8) -> (c: char)
    ensures
        c == shown_byte(b),
{
    if 0x20 <= b && b < 0x7F {
        b as char
    } else {
        '.'
    }
}

/// One row of a dump, of up to sixteen bytes
fn dump_row(at: u64, row: &[u8]) -> (r: String)
    requires
        row@.len() <= 16,
    ensures
        r@ == row_wording(at as nat, row@),
{
    let mut s = String::from_str("  ");
    if at < 0x10 {
        s.append("000");
    } else if at < 0x100 {
        s.append("00");
    } else if at < 0x1000 {
        s.append("0");
    }
    let digits = hex_text(at);
    s.append(digits.as_str());
    proof {
        assert(s@ =~= "  "@ + hex4(at as nat));
    }
    s.append("  ");
    let ghost head = s@;
    let mut n: usize = 0;
    proof {
        assert(head + row_hex(row@, 0) =~= head);
    }
    while n < row.len()
        invariant
            n <= row@.len(),
            s@ == head + row_hex(row@, n as nat),
        decreases row@.len() - n,
    {
        if n > 0 {
            s.append(" ");
        }
        push_hex2(&mut s, row[n]);
        proof {
            assert(s@ =~= head + row_hex(row@, (n + 1) as nat));
        }
        n += 1;
    }
    let ghost bytes = row_hex(row@, row@.len());
    let mut width: usize = if row.len() == 0 {
        0
    } else {
        3 * row.len() - 1
    };
    proof {
        lemma_row_hex_len(row@, row@.len());
        reveal_strlit(" ");
        assert(s@ =~= head + (bytes + spaces(0)));
    }
    while width < 47
        invariant
            width <= 47,
            bytes.len() <= width,
            s@ == head + (bytes + spaces(width - bytes.len())),
            " "@ =~= seq![' '],
        decreases 47 - width,
    {
        s.append(" ");
        proof {
            assert(s@ =~= head + (bytes + spaces(width + 1 - bytes.len())));
        }
        width += 1;
    }
    s.append("  ");
    let ghost left = s@;
    let ghost spelled = Seq::new(row@.len(), |i: int| shown_byte(row@[i]));
    let mut k: usize = 0;
    proof {
        assert(left + spelled.take(0) =~= left);
    }
    while k < row.len()
        invariant
            k <= row@.len(),
            spelled == Seq::new(row@.len(), |i: int| shown_byte(row@[i])),
            s@ == left + spelled.take(k as int),
        decreases row@.len() - k,
    {
        s.push(shown_char(row[k]));
        proof {
            assert(s@ =~= left + spelled.take(k + 1));
        }
        k += 1;
    }
    proof {
        assert(spelled.take(row@.len() as int) =~= spelled);
    }
    s
}

/// How many rows a dump of `len` bytes takes
pub open spec fn row_count(len: int) -> int {
    (len + 15) / 16
}

/// Row `n` of a dump: the sixteen bytes that start there, or what is left of them
pub open spec fn row_at(bytes: Seq<u8>, n: int) -> Seq<u8> {
    let end = if 16 * n + 16 <= bytes.len() {
        16 * n + 16
    } else {
        bytes.len() as int
    };
    bytes.subrange(16 * n, end)
}

/// A dump, row by row
pub fn hexdump(bytes: &[u8]) -> (r: Vec<String>)
    ensures
        r@.len() == row_count(bytes@.len() as int),
        forall|n: int|
            0 <= n < r@.len() ==> (#[trigger] r@[n])@ == row_wording(
                (16 * n) as nat,
                row_at(bytes@, n),
            ),
{
    let mut rows: Vec<String> = Vec::new();
    let mut at: usize = 0;
    while at < bytes.len()
        invariant
            at <= bytes@.len() == bytes.len(),
            rows@.len() == row_count(at as int),
            at % 16 == 0 || at == bytes@.len(),
            forall|n: int|
                0 <= n < rows@.len() ==> (#[trigger] rows@[n])@ == row_wording(
                    (16 * n) as nat,
                    row_at(bytes@, n),
                ),
        decreases bytes@.len() - at,
    {
        let end: usize = if bytes.len() - at < 16 {
            bytes.len()
        } else {
            at + 16
        };
        let row = vstd::slice::slice_subrange(bytes, at, end);
        assert(row@ == row_at(bytes@, rows@.len() as int));
        rows.push(dump_row(at as u64, row));
        at = end;
    }
    rows
}

/// A read that goes on asks for less than was left, and is over the sooner
pub proof fn law_a_walk_advances(walk: Walk, next: Walk, got: u32)
    requires
        0 < got < walk.remaining,
        next.at == walk.at + got,
        next.remaining == walk.remaining - got,
    ensures
        next.remaining < walk.remaining,
        next.at + next.remaining == walk.at + walk.remaining,
{
}

/// A command asks for all that is left, unless the transport or the 16 bits of
/// its length hold less
pub proof fn law_how_much_is_asked_for(walk: Walk, max_transfer: u32)
    ensures
        ({
            let asked = walk.ask(max_transfer);
            &&& asked <= walk.remaining
            &&& asked <= max_transfer
            &&& asked <= 65535
            &&& asked == walk.remaining || asked == max_transfer || asked == 65535
        }),
{
}

/// What a byte is shown as: the printing characters of ASCII as they are, and a
/// dot for the rest
pub proof fn law_what_a_byte_is_shown_as(b: u8)
    ensures
        ' ' as u8 <= b <= '~' as u8 ==> shown_byte(b) as u32 == b,
        b < ' ' as u8 || b > '~' as u8 ==> shown_byte(b) == '.',
{
}

/// An address is four digits, the most significant in front, where four hold it
pub proof fn law_an_address_has_four_digits(a: nat, b: nat, c: nat, d: nat)
    requires
        a < 16,
        b < 16,
        c < 16,
        d < 16,
    ensures
        hex4(0x1000 * a + 0x100 * b + 0x10 * c + d) == seq![
            hex_digit(a as int),
            hex_digit(b as int),
            hex_digit(c as int),
            hex_digit(d as int),
        ],
{
    reveal_strlit("000");
    reveal_strlit("00");
    reveal_strlit("0");
    law_hexadecimal_is_written_digit_by_digit(0, a);
    law_hexadecimal_is_written_digit_by_digit(0, b);
    law_hexadecimal_is_written_digit_by_digit(0, c);
    law_hexadecimal_is_written_digit_by_digit(0, d);
    law_hexadecimal_is_written_digit_by_digit(a, b);
    law_hexadecimal_is_written_digit_by_digit(16 * a + b, c);
    law_hexadecimal_is_written_digit_by_digit(0x100 * a + 0x10 * b + c, d);
    let n = 0x1000 * a + 0x100 * b + 0x10 * c + d;
    assert(16 * (16 * a + b) + c == 0x100 * a + 0x10 * b + c);
    assert(16 * (0x100 * a + 0x10 * b + c) + d == n);
    assert(hex_digit(0) == '0');
    let want = seq![
        hex_digit(a as int),
        hex_digit(b as int),
        hex_digit(c as int),
        hex_digit(d as int),
    ];
    if a > 0 {
        assert(hex4(n) =~= want);
    } else if b > 0 {
        assert(hex(n).len() == 3);
        assert(hex4(n) =~= want);
    } else if c > 0 {
        assert(hex(n).len() == 2);
        assert(hex4(n) =~= want);
    } else {
        assert(hex4(n) =~= want);
    }
}

/// Where a byte stands in a row
proof fn lemma_row_hex_at(row: Seq<u8>, n: nat, k: int)
    requires
        0 <= k < n <= row.len(),
    ensures
        row_hex(row, n).len() == 3 * n - 1,
        row_hex(row, n)[3 * k] == hex_digit(row[k] as int / 16),
        row_hex(row, n)[3 * k + 1] == hex_digit(row[k] as int % 16),
        k + 1 < n ==> row_hex(row, n)[3 * k + 2] == ' ',
    decreases n,
{
    reveal_strlit(" ");
    lemma_row_hex_len(row, n);
    if n > 1 {
        lemma_row_hex_len(row, (n - 1) as nat);
        let front = row_hex(row, (n - 1) as nat);
        assert(row_hex(row, n) == front + " "@ + hex2(row[n - 1]));
        if k < n - 1 {
            lemma_row_hex_at(row, (n - 1) as nat, k);
        }
    }
}

/// How a row is laid out: the address behind two blanks, each byte three
/// characters further on than the one before it, and from column 57 on what
/// they spell
pub proof fn law_how_a_row_is_laid_out(at: nat, row: Seq<u8>, k: int)
    requires
        at < 0x1_0000,
        row.len() <= 16,
        0 <= k < row.len(),
    ensures
        ({
            let text = row_wording(at, row);
            &&& text.len() == 57 + row.len()
            &&& text.subrange(2, 6) == hex4(at)
            &&& text[8 + 3 * k] == hex_digit(row[k] as int / 16)
            &&& text[9 + 3 * k] == hex_digit(row[k] as int % 16)
            &&& text[57 + k] == shown_byte(row[k])
        }),
{
    let a = (at / 0x1000) as nat;
    let b = (at / 0x100 % 16) as nat;
    let c = (at / 0x10 % 16) as nat;
    let d = (at % 16) as nat;
    assert(at == 0x1000 * a + 0x100 * b + 0x10 * c + d);
    law_an_address_has_four_digits(a, b, c, d);
    reveal_strlit("  ");
    lemma_row_hex_at(row, row.len(), k);
    let text = row_wording(at, row);
    let bytes = row_hex(row, row.len());
    assert(bytes.len() <= 47);
    assert(in_column(bytes, 47).len() == 47);
    let head = "  "@ + hex4(at) + "  "@;
    assert(head.len() == 8);
    let left = head + in_column(bytes, 47) + "  "@;
    assert(left.len() == 57);
    assert(text.subrange(2, 6) =~= hex4(at));
    assert(text[8 + 3 * k] == left[8 + 3 * k] && left[8 + 3 * k] == bytes[3 * k]);
    assert(text[9 + 3 * k] == left[9 + 3 * k] && left[9 + 3 * k] == bytes[3 * k + 1]);
}

/// Every byte is in one row, sixteen to a row, and no row is empty
pub proof fn law_a_dump_takes_every_byte(bytes: Seq<u8>, i: int)
    requires
        0 <= i < bytes.len(),
    ensures
        16 * (row_count(bytes.len() as int) - 1) < bytes.len() <= 16 * row_count(bytes.len() as int),
        0 <= i / 16 < row_count(bytes.len() as int),
        i % 16 < row_at(bytes, i / 16).len() <= 16,
        row_at(bytes, i / 16)[i % 16] == bytes[i],
        row_count(0) == 0,
{
}

/// An address is as far into a buffer as it is behind its base, and is none of it
/// in front of that
pub proof fn law_where_an_address_is(address: u32, base: u32, r: Result<u32, String>)
    requires
        call_ensures(offset_of, (address, base), r),
    ensures
        r is Err <==> address < base,
        r matches Ok(offset) ==> base + offset == address,
{
}

/// A read goes on exactly where all came that was asked for and more is left, and
/// then goes on behind it
pub proof fn law_where_a_read_goes_on(walk: Walk, asked: u32, got: u32, r: Option<Walk>)
    requires
        got <= asked <= walk.remaining,
        call_ensures(Walk::after, (walk, asked, got), r),
    ensures
        r is Some <==> got > 0 && got == asked && got < walk.remaining,
        r matches Some(next) ==> next.at == walk.at + got && next.remaining + got == walk.remaining,
{
}

} // verus!
