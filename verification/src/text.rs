//! Text built out of literals and numbers, with what it says stated exactly

use vstd::prelude::*;

verus! {

/// The character of one decimal digit
pub open spec fn digit(d: int) -> char {
    (48 + d) as u8 as char
}

/// The character of one hexadecimal digit, upper case
pub open spec fn hex_digit(d: int) -> char {
    if d < 10 {
        (48 + d) as u8 as char
    } else {
        (55 + d) as u8 as char
    }
}

/// `n` in decimal, with no leading zeros
pub open spec fn decimal(n: nat) -> Seq<char>
    decreases n,
{
    if n < 10 {
        seq![digit(n as int)]
    } else {
        decimal(n / 10).push(digit((n % 10) as int))
    }
}

/// A byte as two hexadecimal digits, upper case
pub open spec fn hex2(b: u8) -> Seq<char> {
    seq![hex_digit(b as int / 16), hex_digit(b as int % 16)]
}

/// `n` in hexadecimal, upper case, with no leading zeros
pub open spec fn hex(n: nat) -> Seq<char>
    decreases n,
{
    if n < 16 {
        seq![hex_digit(n as int)]
    } else {
        hex(n / 16).push(hex_digit((n % 16) as int))
    }
}

/// The character of one hexadecimal digit, lower case
pub open spec fn lower_hex_digit(d: int) -> char {
    if d < 10 {
        (48 + d) as u8 as char
    } else {
        (87 + d) as u8 as char
    }
}

/// `n` in hexadecimal, lower case, with no leading zeros
pub open spec fn lower_hex(n: nat) -> Seq<char>
    decreases n,
{
    if n < 16 {
        seq![lower_hex_digit(n as int)]
    } else {
        lower_hex(n / 16).push(lower_hex_digit((n % 16) as int))
    }
}

/// `n` in lower case hexadecimal behind `0x`, with two digits at least
pub open spec fn hex_value(n: nat) -> Seq<char> {
    (if n < 16 {
        "0x0"@
    } else {
        "0x"@
    }) + lower_hex(n)
}

/// `String::push` puts one character behind a text
pub assume_specification[ String::push ](s: &mut String, c: char)
    ensures
        final(s)@ == old(s)@.push(c),
;

/// One decimal digit
fn digit_char(d: u64) -> (c: char)
    requires
        d < 10,
    ensures
        c == digit(d as int),
{
    (48 + d as u8) as char
}

/// One hexadecimal digit, upper case
fn hex_char(d: u64) -> (c: char)
    requires
        d < 16,
    ensures
        c == hex_digit(d as int),
{
    if d < 10 {
        (48 + d as u8) as char
    } else {
        (55 + d as u8) as char
    }
}

/// One hexadecimal digit, lower case
fn lower_hex_char(d: u64) -> (c: char)
    requires
        d < 16,
    ensures
        c == lower_hex_digit(d as int),
{
    if d < 10 {
        (48 + d as u8) as char
    } else {
        (87 + d as u8) as char
    }
}

/// `n` in lower case hexadecimal
fn lower_hex_text(n: u64) -> (s: String)
    ensures
        s@ == lower_hex(n as nat),
    decreases n,
{
    let mut s = if n < 16 {
        String::new()
    } else {
        lower_hex_text(n / 16)
    };
    s.push(lower_hex_char(n % 16));
    proof {
        if n < 16 {
            assert(s@ =~= seq![lower_hex_digit(n as int)]);
        }
    }
    s
}

/// Append `n` in lower case hexadecimal
pub fn push_lower_hex(s: &mut String, n: u64)
    ensures
        final(s)@ == old(s)@ + lower_hex(n as nat),
{
    let t = lower_hex_text(n);
    s.append(t.as_str());
}

/// Append `n` in lower case hexadecimal behind `0x`, with two digits at least
pub fn push_hex_value(s: &mut String, n: u64)
    ensures
        final(s)@ == old(s)@ + hex_value(n as nat),
{
    let ghost before = s@;
    if n < 16 {
        s.append("0x0");
    } else {
        s.append("0x");
    }
    let t = lower_hex_text(n);
    s.append(t.as_str());
    proof {
        assert(s@ =~= before + hex_value(n as nat));
    }
}

/// `n` in decimal
pub fn decimal_text(n: u64) -> (s: String)
    ensures
        s@ == decimal(n as nat),
    decreases n,
{
    let mut s = if n < 10 {
        String::new()
    } else {
        decimal_text(n / 10)
    };
    s.push(digit_char(n % 10));
    proof {
        if n < 10 {
            assert(s@ =~= seq![digit(n as int)]);
        }
    }
    s
}

/// `n` in upper case hexadecimal
pub fn hex_text(n: u64) -> (s: String)
    ensures
        s@ == hex(n as nat),
    decreases n,
{
    let mut s = if n < 16 {
        String::new()
    } else {
        hex_text(n / 16)
    };
    s.push(hex_char(n % 16));
    proof {
        if n < 16 {
            assert(s@ =~= seq![hex_digit(n as int)]);
        }
    }
    s
}

/// Append a byte as two hexadecimal digits
pub fn push_hex2(s: &mut String, b: u8)
    ensures
        final(s)@ == old(s)@ + hex2(b),
{
    let ghost before = s@;
    s.push(hex_char(b as u64 / 16));
    s.push(hex_char(b as u64 % 16));
    proof {
        assert(s@ =~= before + hex2(b));
    }
}

/// Append `n` in decimal
pub fn push_decimal(s: &mut String, n: u64)
    ensures
        final(s)@ == old(s)@ + decimal(n as nat),
{
    let t = decimal_text(n);
    s.append(t.as_str());
}

/// The names of the first `n` of `names` that `bits` holds, with a bar between
pub open spec fn set_names(bits: u8, names: Seq<(u8, Seq<char>)>, n: nat) -> Seq<char>
    decreases n,
{
    if n == 0 {
        Seq::empty()
    } else {
        let before = set_names(bits, names, (n - 1) as nat);
        let (bit, name) = names[n - 1];
        if bits & bit != bit {
            before
        } else if before.len() == 0 {
            name
        } else {
            before + " | "@ + name
        }
    }
}

/// A set of flags: the ones with a name by it, and what is left as a number
///
/// No flag at all is `0x0`.
pub open spec fn flags_wording(bits: u8, named: u8, names: Seq<(u8, Seq<char>)>) -> Seq<char> {
    let known = set_names(bits, names, names.len());
    let rest = (bits & !named) as nat;
    if bits == 0 {
        "0x0"@
    } else if rest == 0 {
        known
    } else if known.len() == 0 {
        "0x"@ + lower_hex(rest)
    } else {
        known + " | "@ + "0x"@ + lower_hex(rest)
    }
}

/// Write a set of flags out
pub(crate) fn flags_text(
    bits: u8,
    named: u8,
    table: &[(u8, &'static str)],
    names: Ghost<Seq<(u8, Seq<char>)>>,
) -> (r: String)
    requires
        table@.len() == names@.len(),
        forall|i: int|
            0 <= i < table@.len() ==> (#[trigger] table@[i]).0 == names@[i].0 && table@[i].1@
                == names@[i].1,
    ensures
        r@ == flags_wording(bits, named, names@),
{
    if bits == 0 {
        return String::from_str("0x0");
    }
    let mut s = String::new();
    let mut empty: bool = true;
    let mut i: usize = 0;
    while i < table.len()
        invariant
            i <= table@.len(),
            table@.len() == names@.len(),
            forall|k: int|
                0 <= k < table@.len() ==> (#[trigger] table@[k]).0 == names@[k].0 && table@[k].1@
                    == names@[k].1,
            s@ == set_names(bits, names@, i as nat),
            empty == (s@.len() == 0),
        decreases table@.len() - i,
    {
        let (bit, name) = table[i];
        if bits & bit == bit {
            if empty {
                s = String::from_str(name);
            } else {
                s.append(" | ");
                s.append(name);
                proof {
                    reveal_strlit(" | ");
                }
            }
            empty = name.unicode_len() == 0 && empty;
        }
        i += 1;
    }
    let rest: u8 = bits & !named;
    if rest != 0 {
        let t = lower_hex_text(rest as u64);
        if empty {
            s = String::from_str("0x");
        } else {
            s.append(" | ");
            s.append("0x");
        }
        s.append(t.as_str());
    }
    s
}

/// So many spaces
pub open spec fn spaces(n: int) -> Seq<char> {
    Seq::new(
        if n > 0 {
            n as nat
        } else {
            0
        },
        |i: int| ' ',
    )
}

/// Whether two texts are the same, which is what comparing them tells
pub fn same_text(a: &str, b: &str) -> (r: bool)
    ensures
        r == (a@ == b@),
{
    a.to_owned() == b.to_owned()
}

/// Whether a character is a decimal digit
pub open spec fn is_digit(c: char) -> bool {
    '0' <= c <= '9'
}

/// The number a run of decimal digits spells
pub open spec fn digits_value(s: Seq<char>) -> nat
    decreases s.len(),
{
    if s.len() == 0 {
        0
    } else {
        digits_value(s.drop_last()) * 10 + (s.last() as u32 - '0' as u32) as nat
    }
}

/// Whether a text is decimal digits and nothing else, and has one at least
pub open spec fn all_digits(s: Seq<char>) -> bool {
    s.len() > 0 && forall|i: int| 0 <= i < s.len() ==> is_digit(#[trigger] s[i])
}

/// A text behind the plus it may start with
pub open spec fn after_plus(s: Seq<char>) -> Seq<char> {
    if s.len() > 0 && s[0] == '+' {
        s.skip(1)
    } else {
        s
    }
}

/// The 32-bit number a text spells, where it is one: digits and nothing else,
/// but for a plus in front of them
pub open spec fn parsed_u32(s: Seq<char>) -> Option<u32> {
    let digits = after_plus(s);
    if all_digits(digits) && digits_value(digits) <= u32::MAX {
        Some(digits_value(digits) as u32)
    } else {
        None
    }
}

/// The start of a run of digits spells no more than the whole of it
proof fn lemma_digits_grow(s: Seq<char>, n: int)
    requires
        0 <= n <= s.len(),
    ensures
        digits_value(s.take(n)) <= digits_value(s),
    decreases s.len(),
{
    if n == s.len() {
        assert(s.take(n) =~= s);
    } else {
        lemma_digits_grow(s.drop_last(), n);
        assert(s.drop_last().take(n) =~= s.take(n));
    }
}

/// Read a 32-bit number
pub fn parse_u32(s: &str) -> (r: Option<u32>)
    ensures
        r == parsed_u32(s@),
{
    let len: usize = s.unicode_len();
    let first: usize = if len > 0 && s.get_char(0) == '+' {
        1
    } else {
        0
    };
    if first >= len {
        return None;
    }
    let ghost digits = after_plus(s@);
    proof {
        assert(digits =~= s@.skip(first as int));
    }
    let mut v: u64 = 0;
    let mut i: usize = first;
    while i < len
        invariant
            first <= i <= len,
            len == s@.len(),
            digits == s@.skip(first as int),
            digits == after_plus(s@),
            forall|k: int| 0 <= k < i - first ==> is_digit(#[trigger] digits[k]),
            v == digits_value(digits.take(i - first)),
            v <= u32::MAX,
        decreases len - i,
    {
        let c = s.get_char(i);
        assert(digits[i - first] == c);
        if !('0' <= c && c <= '9') {
            assert(!is_digit(digits[i - first]));
            return None;
        }
        let d: u64 = (c as u32 - '0' as u32) as u64;
        proof {
            assert(digits.take(i - first + 1).drop_last() =~= digits.take(i - first));
            lemma_digits_grow(digits, i - first + 1);
        }
        v = v * 10 + d;
        i += 1;
        if v > u32::MAX as u64 {
            return None;
        }
    }
    proof {
        assert(digits.take(i - first) =~= digits);
    }
    Some(v as u32)
}

/// A number written in decimal is digits and nothing else, and spells itself
pub proof fn lemma_decimal_digits(n: nat)
    ensures
        all_digits(decimal(n)),
        digits_value(decimal(n)) == n,
    decreases n,
{
    if n < 10 {
        assert(decimal(n).drop_last() =~= Seq::<char>::empty());
        assert(decimal(n).last() == digit(n as int));
        assert(decimal(n)[0] == digit(n as int));
        reveal_with_fuel(digits_value, 2);
    } else {
        lemma_decimal_digits(n / 10);
        assert(decimal(n).drop_last() =~= decimal(n / 10));
        assert(decimal(n).last() == digit((n % 10) as int));
    }
}

/// A number written in decimal reads back as itself
pub proof fn law_decimal_round_trip(n: u32)
    ensures
        parsed_u32(decimal(n as nat)) == Some(n),
{
    lemma_decimal_digits(n as nat);
    assert(is_digit(decimal(n as nat)[0]));
}

/// Whether a character is white space, as Unicode has it
pub open spec fn is_white(c: char) -> bool {
    ||| 0x09 <= c as u32 <= 0x0D
    ||| c as u32 == 0x20
    ||| c as u32 == 0x85
    ||| c as u32 == 0xA0
    ||| c as u32 == 0x1680
    ||| 0x2000 <= c as u32 <= 0x200A
    ||| c as u32 == 0x2028
    ||| c as u32 == 0x2029
    ||| c as u32 == 0x202F
    ||| c as u32 == 0x205F
    ||| c as u32 == 0x3000
}

/// Whether a character is white space
fn white(c: char) -> (r: bool)
    ensures
        r == is_white(c),
{
    let v: u32 = c as u32;
    (0x09 <= v && v <= 0x0D) || v == 0x20 || v == 0x85 || v == 0xA0 || v == 0x1680 || (0x2000 <= v
        && v <= 0x200A) || v == 0x2028 || v == 0x2029 || v == 0x202F || v == 0x205F || v == 0x3000
}

/// A text without the white space it starts with
pub open spec fn trimmed_start(s: Seq<char>) -> Seq<char>
    decreases s.len(),
{
    if s.len() > 0 && is_white(s[0]) {
        trimmed_start(s.skip(1))
    } else {
        s
    }
}

/// A text without the white space it ends with
pub open spec fn trimmed_end(s: Seq<char>) -> Seq<char>
    decreases s.len(),
{
    if s.len() > 0 && is_white(s.last()) {
        trimmed_end(s.drop_last())
    } else {
        s
    }
}

/// A text without the white space at its ends
pub open spec fn trimmed(s: Seq<char>) -> Seq<char> {
    trimmed_end(trimmed_start(s))
}

/// Drop the white space at both ends
pub fn trim_text(s: &str) -> (r: String)
    ensures
        r@ == trimmed(s@),
{
    let len: usize = s.unicode_len();
    let mut first: usize = 0;
    proof {
        assert(s@.skip(0) =~= s@);
    }
    while first < len && white(s.get_char(first))
        invariant
            first <= len,
            len == s@.len(),
            trimmed_start(s@) == trimmed_start(s@.skip(first as int)),
        decreases len - first,
    {
        proof {
            assert(s@.skip(first as int).skip(1) =~= s@.skip(first + 1));
        }
        first += 1;
    }
    let mut end: usize = len;
    proof {
        assert(trimmed_start(s@) == s@.skip(first as int));
        assert(s@.skip(first as int) =~= s@.subrange(first as int, end as int));
    }
    while end > first && white(s.get_char(end - 1))
        invariant
            first <= end <= len,
            len == s@.len(),
            trimmed(s@) == trimmed_end(s@.subrange(first as int, end as int)),
        decreases end,
    {
        proof {
            assert(s@.subrange(first as int, end as int).drop_last() =~= s@.subrange(
                first as int,
                end - 1,
            ));
        }
        end -= 1;
    }
    s.substring_char(first, end).to_owned()
}

/// The lower case of an ASCII letter, and every other character as it is
pub open spec fn ascii_lower(c: char) -> char {
    if 'A' <= c <= 'Z' {
        (c as u8 + 32) as u8 as char
    } else {
        c
    }
}

/// Whether two texts are the same but for the case of their ASCII letters
pub open spec fn same_but_case(a: Seq<char>, b: Seq<char>) -> bool {
    a.len() == b.len() && forall|i: int|
        0 <= i < a.len() ==> ascii_lower(#[trigger] a[i]) == ascii_lower(b[i])
}

/// The lower case of an ASCII letter
fn lower_char(c: char) -> (r: char)
    ensures
        r == ascii_lower(c),
{
    if 'A' <= c && c <= 'Z' {
        (c as u8 + 32) as char
    } else {
        c
    }
}

/// Compare two texts whatever the case of their ASCII letters
pub fn eq_ignore_ascii_case(a: &str, b: &str) -> (r: bool)
    ensures
        r == same_but_case(a@, b@),
{
    let len: usize = a.unicode_len();
    if len != b.unicode_len() {
        return false;
    }
    let mut i: usize = 0;
    while i < len
        invariant
            i <= len,
            len == a@.len() == b@.len(),
            forall|k: int| 0 <= k < i ==> ascii_lower(#[trigger] a@[k]) == ascii_lower(b@[k]),
        decreases len - i,
    {
        if lower_char(a.get_char(i)) != lower_char(b.get_char(i)) {
            assert(ascii_lower(a@[i as int]) != ascii_lower(b@[i as int]));
            return false;
        }
        i += 1;
    }
    true
}

/// What `String::from_utf8_lossy` makes of a run of bytes
pub uninterp spec fn lossy_text(bytes: Seq<u8>) -> Seq<char>;

/// `String::from_utf8_lossy`: the text a run of bytes spells in UTF-8, with the
/// replacement character where it spells none. What it puts there is left to
/// the name; bytes that are ASCII come out as those characters.
#[verifier::external_body]
pub(crate) fn lossy(bytes: &[u8]) -> (r: String)
    ensures
        r@ == lossy_text(bytes@),
        (forall|i: int| 0 <= i < bytes@.len() ==> #[trigger] bytes@[i] < 0x80) ==> r@ == Seq::new(
            bytes@.len(),
            |i: int| bytes@[i] as char,
        ),
{
    String::from_utf8_lossy(bytes).into_owned()
}

/// The ten digits, and the sixteen in both cases
pub proof fn law_what_the_digits_are(d: int)
    requires
        0 <= d < 16,
    ensures
        d < 10 ==> digit(d) == seq!['0', '1', '2', '3', '4', '5', '6', '7', '8', '9'][d],
        d < 10 ==> hex_digit(d) == digit(d) && lower_hex_digit(d) == digit(d),
        d >= 10 ==> hex_digit(d) == seq!['A', 'B', 'C', 'D', 'E', 'F'][d - 10],
        d >= 10 ==> lower_hex_digit(d) == seq!['a', 'b', 'c', 'd', 'e', 'f'][d - 10],
        d < 10 ==> is_digit(digit(d)) && digit(d) as u32 - '0' as u32 == d,
{
}

/// A number in decimal is what a tenth of it is and one digit more, and starts
/// with no 0 unless it is 0
pub proof fn law_decimal_is_written_digit_by_digit(n: nat, d: nat)
    requires
        d < 10,
    ensures
        decimal(d) == seq![digit(d as int)],
        n > 0 ==> decimal(10 * n + d) == decimal(n).push(digit(d as int)),
        n > 0 ==> decimal(n)[0] != '0',
    decreases n,
{
    if n >= 10 {
        law_decimal_is_written_digit_by_digit(n / 10, n % 10);
        assert(decimal(n / 10).len() > 0) by {
            lemma_decimal_digits(n / 10);
        }
    }
}

/// A number in hexadecimal is what a sixteenth of it is and one digit more, in
/// either case, and starts with no 0 unless it is 0
pub proof fn law_hexadecimal_is_written_digit_by_digit(n: nat, d: nat)
    requires
        d < 16,
    ensures
        hex(d) == seq![hex_digit(d as int)],
        lower_hex(d) == seq![lower_hex_digit(d as int)],
        n > 0 ==> hex(16 * n + d) == hex(n).push(hex_digit(d as int)),
        n > 0 ==> lower_hex(16 * n + d) == lower_hex(n).push(lower_hex_digit(d as int)),
        hex(n).len() > 0 && lower_hex(n).len() > 0,
        n > 0 ==> hex(n)[0] != '0' && lower_hex(n)[0] != '0',
    decreases n,
{
    if n >= 16 {
        law_hexadecimal_is_written_digit_by_digit(n / 16, n % 16);
    }
}

/// A byte is two digits, the high one first
pub proof fn law_a_byte_is_two_digits(high: u8, low: u8)
    requires
        high < 16,
        low < 16,
    ensures
        hex2((16 * high + low) as u8) == seq![hex_digit(high as int), hex_digit(low as int)],
{
}

/// A value is `0x` and its digits, with a 0 in front of a single one
pub proof fn law_a_value_has_two_digits(n: nat)
    ensures
        n < 16 ==> hex_value(n) == seq!['0', 'x', '0', lower_hex_digit(n as int)],
        n >= 16 ==> hex_value(n) == seq!['0', 'x'] + lower_hex(n),
{
    reveal_strlit("0x0");
    reveal_strlit("0x");
    if n < 16 {
        assert(hex_value(n) =~= seq!['0', 'x', '0', lower_hex_digit(n as int)]);
    } else {
        assert("0x"@ =~= seq!['0', 'x']);
    }
}

/// The names of the flags that are set, in the table's order, with a bar between
/// two; a flag that is not set adds nothing
pub proof fn law_set_flags_are_named(bits: u8, names: Seq<(u8, Seq<char>)>, n: nat)
    requires
        n < names.len(),
    ensures
        set_names(bits, names, 0).len() == 0,
        ({
            let before = set_names(bits, names, n);
            let now = set_names(bits, names, n + 1);
            let flag = names[n as int].0;
            let name = names[n as int].1;
            &&& bits & flag == flag && before.len() == 0 ==> now == name
            &&& bits & flag == flag && before.len() > 0 ==> now == before + seq![' ', '|', ' '] + name
            &&& bits & flag != flag ==> now == before
        }),
{
    reveal_strlit(" | ");
    assert(" | "@ =~= seq![' ', '|', ' ']);
}

/// No flag at all is `0x0`; flags that all have a name are their names; what has
/// none is a number, behind a bar where there are names as well
pub proof fn law_how_flags_are_written(bits: u8, named: u8, names: Seq<(u8, Seq<char>)>)
    ensures
        ({
            let said = set_names(bits, names, names.len());
            let text = flags_wording(bits, named, names);
            let rest = bits & !named;
            &&& bits == 0 ==> text == seq!['0', 'x', '0']
            &&& bits > 0 && rest == 0 ==> text == said
            &&& bits > 0 && rest > 0 && said.len() == 0 ==> text == seq!['0', 'x'] + lower_hex(
                rest as nat,
            )
            &&& bits > 0 && rest > 0 && said.len() > 0 ==> text == said + seq![
                ' ',
                '|',
                ' ',
                '0',
                'x',
            ] + lower_hex(rest as nat)
        }),
{
    reveal_strlit("0x0");
    reveal_strlit("0x");
    reveal_strlit(" | ");
    assert("0x0"@ =~= seq!['0', 'x', '0']);
    assert("0x"@ =~= seq!['0', 'x']);
    let said = set_names(bits, names, names.len());
    let rest = bits & !named;
    if bits > 0 && rest > 0 && said.len() > 0 {
        assert(flags_wording(bits, named, names) =~= said + seq![' ', '|', ' ', '0', 'x']
            + lower_hex(rest as nat));
    }
}

/// So many spaces are so many, and none where there are less than none
pub proof fn law_spaces_are_spaces(n: int, i: int)
    ensures
        n >= 0 ==> spaces(n).len() == n,
        n < 0 ==> spaces(n).len() == 0,
        0 <= i < n ==> spaces(n)[i] == ' ',
{
}

/// A text spells a number where it is digits with at most a plus in front, each
/// further digit is ten times what was there and itself, and a number that 32
/// bits do not hold is none
pub proof fn law_what_spells_a_number(s: Seq<char>, d: nat)
    requires
        d < 10,
        s.len() > 0,
        forall|i: int| 0 <= i < s.len() ==> '0' <= #[trigger] s[i] <= '9',
    ensures
        parsed_u32(seq![digit(d as int)]) == Some(d as u32),
        parsed_u32(seq!['+'] + s) == parsed_u32(s),
        match parsed_u32(s) {
            Some(n) => if 10 * n + d <= 0xFFFF_FFFF {
                parsed_u32(s.push(digit(d as int))) == Some((10 * n + d) as u32)
            } else {
                parsed_u32(s.push(digit(d as int))) is None
            },
            None => parsed_u32(s.push(digit(d as int))) is None,
        },
{
    let one = seq![digit(d as int)];
    assert(one.drop_last() =~= Seq::<char>::empty());
    reveal_with_fuel(digits_value, 2);
    assert(is_digit(one[0]));
    assert((seq!['+'] + s).skip(1) =~= s);
    assert(is_digit(s[0]));
    let more = s.push(digit(d as int));
    assert(more.drop_last() =~= s);
    assert(more[0] == s[0]);
    assert(all_digits(more));
    assert(all_digits(s));
}

/// What is no number: nothing at all, a plus alone, and anything with a
/// character behind the plus that is no digit
pub proof fn law_what_spells_none(s: Seq<char>, i: int)
    requires
        0 <= i < s.len(),
        !('0' <= s[i] <= '9'),
        i > 0 || s[i] != '+' || s.len() == 1,
    ensures
        parsed_u32(s) is None,
        parsed_u32(Seq::empty()) is None,
{
    if s[0] == '+' {
        if s.len() > 1 {
            assert(s.skip(1)[i - 1] == s[i]);
            assert(!is_digit(s.skip(1)[i - 1]));
        }
    } else {
        assert(!is_digit(s[i]));
    }
}

/// What is white: the ASCII blanks and line breaks, and the spaces and breaks
/// that Unicode has beyond them
pub proof fn law_what_is_white(c: char)
    ensures
        c as u32 <= 0x7F ==> (is_white(c) <==> c == ' ' || c == '\t' || c == '\n' || c == '\r' || c
            as u32 == 11 || c as u32 == 12),
        0x80 <= c as u32 <= 0x1FFF ==> (is_white(c) <==> c as u32 == 133 || c as u32 == 160 || c
            as u32 == 5760),
        0x2000 <= c as u32 ==> (is_white(c) <==> c as u32 <= 8202 || c as u32 == 8232 || c as u32
            == 8233 || c as u32 == 8239 || c as u32 == 8287 || c as u32 == 12288),
{
}

/// The start that is dropped of a text is white, and what is left starts with
/// what is not
proof fn lemma_trimmed_start(s: Seq<char>) -> (n: int)
    ensures
        0 <= n <= s.len(),
        trimmed_start(s) == s.skip(n),
        forall|i: int| 0 <= i < n ==> is_white(#[trigger] s[i]),
        n < s.len() ==> !is_white(s[n]),
    decreases s.len(),
{
    if s.len() > 0 && is_white(s[0]) {
        let rest = s.skip(1);
        let m = lemma_trimmed_start(rest);
        assert(rest.skip(m) =~= s.skip(m + 1));
        assert forall|i: int| 0 <= i < m + 1 implies is_white(#[trigger] s[i]) by {
            if i > 0 {
                assert(rest[i - 1] == s[i]);
            }
        }
        if m < rest.len() {
            assert(rest[m] == s[m + 1]);
        }
        m + 1
    } else {
        assert(s.skip(0) =~= s);
        0
    }
}

/// The end that is dropped of a text is white, and what is left ends with what
/// is not
proof fn lemma_trimmed_end(s: Seq<char>) -> (n: int)
    ensures
        0 <= n <= s.len(),
        trimmed_end(s) == s.take(n),
        forall|i: int| n <= i < s.len() ==> is_white(#[trigger] s[i]),
        n > 0 ==> !is_white(s[n - 1]),
    decreases s.len(),
{
    if s.len() > 0 && is_white(s.last()) {
        let rest = s.drop_last();
        let m = lemma_trimmed_end(rest);
        assert(rest.take(m) =~= s.take(m));
        assert forall|i: int| m <= i < s.len() implies is_white(#[trigger] s[i]) by {
            if i < rest.len() {
                assert(rest[i] == s[i]);
            }
        }
        m
    } else {
        assert(s.take(s.len() as int) =~= s);
        s.len() as int
    }
}

/// A trimmed text is the text from its first character that is not white to its
/// last, and nothing where every one is
pub proof fn law_trimming_drops_the_ends(s: Seq<char>, from: int, to: int)
    requires
        0 <= from < to <= s.len(),
        forall|i: int| 0 <= i < from ==> is_white(#[trigger] s[i]),
        forall|i: int| to <= i < s.len() ==> is_white(#[trigger] s[i]),
        !is_white(s[from]),
        !is_white(s[to - 1]),
    ensures
        trimmed(s) == s.subrange(from, to),
{
    let n = lemma_trimmed_start(s);
    assert(n == from);
    let t = s.skip(from);
    let m = lemma_trimmed_end(t);
    assert(t[to - 1 - from] == s[to - 1]);
    if m > 0 {
        assert(t[m - 1] == s[from + m - 1]);
    }
    assert(m == to - from) by {
        if m < to - from {
            assert(is_white(t[to - 1 - from]));
        } else if m > to - from {
            assert(is_white(s[from + m - 1]));
        }
    }
    assert(t.take(m) =~= s.subrange(from, to));
}

/// White space alone trims to nothing
pub proof fn law_nothing_is_left_of_white_space(s: Seq<char>)
    requires
        forall|i: int| 0 <= i < s.len() ==> is_white(#[trigger] s[i]),
    ensures
        trimmed(s).len() == 0,
{
    let n = lemma_trimmed_start(s);
    assert(n == s.len());
    let m = lemma_trimmed_end(s.skip(n));
}

/// The capitals of ASCII are lowered by 32 places, and no other character moves
pub proof fn law_what_is_lowered(c: char)
    ensures
        65 <= c as u32 <= 90 ==> ascii_lower(c) as u32 == c as u32 + 32,
        c as u32 <= 64 || 91 <= c as u32 ==> ascii_lower(c) == c,
        same_but_case(seq![c], seq![ascii_lower(c)]),
{
}

} // verus!
