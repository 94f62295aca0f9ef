//! Numbers and bytes as text: the hexadecimal forms in which JSON-RPC writes
//! quantities and hashes, and decimal numbers.

use vstd::prelude::*;
use vstd::string::StringExecFns;

verus! {

/// The digit for `d`, which is below 16: `0` to `9`, then `a` to `f`.
pub open spec fn hex_char(d: int) -> char {
    if d == 0 {
        '0'
    } else if d == 1 {
        '1'
    } else if d == 2 {
        '2'
    } else if d == 3 {
        '3'
    } else if d == 4 {
        '4'
    } else if d == 5 {
        '5'
    } else if d == 6 {
        '6'
    } else if d == 7 {
        '7'
    } else if d == 8 {
        '8'
    } else if d == 9 {
        '9'
    } else if d == 10 {
        'a'
    } else if d == 11 {
        'b'
    } else if d == 12 {
        'c'
    } else if d == 13 {
        'd'
    } else if d == 14 {
        'e'
    } else {
        'f'
    }
}

/// The hexadecimal digits of `n`, the most significant first, without
/// leading zeros; one `0` for zero.
pub open spec fn hex_digits(n: nat) -> Seq<char>
    decreases n,
{
    if n < 16 {
        seq![hex_char(n as int)]
    } else {
        hex_digits(n / 16).push(hex_char((n % 16) as int))
    }
}

/// `n` as a JSON-RPC quantity: `0x` and its hexadecimal digits.
pub open spec fn quantity(n: nat) -> Seq<char> {
    seq!['0', 'x'] + hex_digits(n)
}

/// The two hexadecimal digits of each of `bytes`, in order.
pub open spec fn byte_digits(bytes: Seq<u8>) -> Seq<char>
    decreases bytes.len(),
{
    if bytes.len() == 0 {
        Seq::empty()
    } else {
        byte_digits(bytes.drop_last()).push(hex_char(bytes.last() as int / 16)).push(
            hex_char(bytes.last() as int % 16),
        )
    }
}

/// `bytes` as JSON-RPC data: `0x` and two hexadecimal digits per byte.
pub open spec fn data(bytes: Seq<u8>) -> Seq<char> {
    seq!['0', 'x'] + byte_digits(bytes)
}

/// The digit for `d` as a string of its own.
fn digit(d: u8) -> (r: &'static str)
    requires
        d < 16,
    ensures
        r@ == seq![hex_char(d as int)],
{
    proof {
        reveal_strlit("0");
        reveal_strlit("1");
        reveal_strlit("2");
        reveal_strlit("3");
        reveal_strlit("4");
        reveal_strlit("5");
        reveal_strlit("6");
        reveal_strlit("7");
        reveal_strlit("8");
        reveal_strlit("9");
        reveal_strlit("a");
        reveal_strlit("b");
        reveal_strlit("c");
        reveal_strlit("d");
        reveal_strlit("e");
        reveal_strlit("f");
    }
    let r = if d == 0 {
        "0"
    } else if d == 1 {
        "1"
    } else if d == 2 {
        "2"
    } else if d == 3 {
        "3"
    } else if d == 4 {
        "4"
    } else if d == 5 {
        "5"
    } else if d == 6 {
        "6"
    } else if d == 7 {
        "7"
    } else if d == 8 {
        "8"
    } else if d == 9 {
        "9"
    } else if d == 10 {
        "a"
    } else if d == 11 {
        "b"
    } else if d == 12 {
        "c"
    } else if d == 13 {
        "d"
    } else if d == 14 {
        "e"
    } else {
        "f"
    };
    assert(r@ =~= seq![hex_char(d as int)]);
    r
}

/// `n` as a JSON-RPC quantity.
pub fn u64_quantity(n: u64) -> (text: String)
    ensures
        text@ == quantity(n as nat),
{
    // the digits, the least significant first
    let mut low_first: Vec<u8> = Vec::new();
    let mut rest: u64 = n;
    while rest >= 16
        invariant
            forall|k: int| 0 <= k < low_first.len() ==> (#[trigger] low_first[k]) < 16,
            hex_digits(n as nat) =~= hex_digits(rest as nat) + Seq::new(
                low_first.len() as nat,
                |k: int| hex_char(low_first[low_first.len() - 1 - k] as int),
            ),
        decreases rest,
    {
        let ghost before = low_first@;
        let ghost tail = Seq::new(
            before.len() as nat,
            |k: int| hex_char(before[before.len() - 1 - k] as int),
        );
        low_first.push((rest % 16) as u8);
        assert(Seq::new(
            low_first.len() as nat,
            |k: int| hex_char(low_first[low_first.len() - 1 - k] as int),
        ) =~= seq![hex_char((rest % 16) as int)] + tail);
        rest = rest / 16;
    }
    let ghost tail = Seq::new(
        low_first.len() as nat,
        |k: int| hex_char(low_first[low_first.len() - 1 - k] as int),
    );
    proof {
        reveal_strlit("0x");
    }
    let mut text = String::from_str("0x");
    text.append(digit(rest as u8));
    assert("0x"@ =~= seq!['0', 'x']);
    let mut i: usize = low_first.len();
    while i > 0
        invariant
            i <= low_first.len(),
            forall|k: int| 0 <= k < low_first.len() ==> (#[trigger] low_first[k]) < 16,
            tail == Seq::new(
                low_first.len() as nat,
                |k: int| hex_char(low_first[low_first.len() - 1 - k] as int),
            ),
            text@ =~= seq!['0', 'x'] + hex_digits(rest as nat) + tail.take(low_first.len() - i),
        decreases i,
    {
        i -= 1;
        text.append(digit(low_first[i]));
        assert(tail.take(low_first.len() - i) =~= tail.take(low_first.len() - (i + 1)).push(
            hex_char(low_first[i as int] as int),
        ));
    }
    assert(tail.take(low_first.len() as int) =~= tail);
    text
}

/// The decimal digits of `n`, the most significant first, without leading
/// zeros; one `0` for zero.
pub open spec fn decimal_digits(n: nat) -> Seq<char>
    decreases n,
{
    if n < 10 {
        seq![hex_char(n as int)]
    } else {
        decimal_digits(n / 10).push(hex_char((n % 10) as int))
    }
}

/// `n` in decimal.
pub fn u64_decimal(n: u64) -> (text: String)
    ensures
        text@ == decimal_digits(n as nat),
{
    // the digits, the least significant first
    let mut low_first: Vec<u8> = Vec::new();
    let mut rest: u64 = n;
    while rest >= 10
        invariant
            forall|k: int| 0 <= k < low_first.len() ==> (#[trigger] low_first[k]) < 10,
            decimal_digits(n as nat) =~= decimal_digits(rest as nat) + Seq::new(
                low_first.len() as nat,
                |k: int| hex_char(low_first[low_first.len() - 1 - k] as int),
            ),
        decreases rest,
    {
        let ghost before = low_first@;
        let ghost tail = Seq::new(
            before.len() as nat,
            |k: int| hex_char(before[before.len() - 1 - k] as int),
        );
        low_first.push((rest % 10) as u8);
        assert(Seq::new(
            low_first.len() as nat,
            |k: int| hex_char(low_first[low_first.len() - 1 - k] as int),
        ) =~= seq![hex_char((rest % 10) as int)] + tail);
        rest = rest / 10;
    }
    let ghost tail = Seq::new(
        low_first.len() as nat,
        |k: int| hex_char(low_first[low_first.len() - 1 - k] as int),
    );
    let mut text = String::from_str(digit(rest as u8));
    let mut i: usize = low_first.len();
    while i > 0
        invariant
            i <= low_first.len(),
            forall|k: int| 0 <= k < low_first.len() ==> (#[trigger] low_first[k]) < 10,
            tail == Seq::new(
                low_first.len() as nat,
                |k: int| hex_char(low_first[low_first.len() - 1 - k] as int),
            ),
            text@ =~= decimal_digits(rest as nat) + tail.take(low_first.len() - i),
        decreases i,
    {
        i -= 1;
        text.append(digit(low_first[i]));
        assert(tail.take(low_first.len() - i) =~= tail.take(low_first.len() - (i + 1)).push(
            hex_char(low_first[i as int] as int),
        ));
    }
    assert(tail.take(low_first.len() as int) =~= tail);
    text
}

/// `bytes` as JSON-RPC data.
pub fn bytes_data(bytes: &[u8]) -> (text: String)
    ensures
        text@ == data(bytes@),
{
    proof {
        reveal_strlit("0x");
    }
    let mut text = String::from_str("0x");
    assert("0x"@ =~= seq!['0', 'x']);
    let mut i: usize = 0;
    assert(bytes@.take(0) =~= Seq::<u8>::empty());
    while i < bytes.len()
        invariant
            i <= bytes.len(),
            text@ =~= seq!['0', 'x'] + byte_digits(bytes@.take(i as int)),
        decreases bytes.len() - i,
    {
        let b = bytes[i];
        text.append(digit(b / 16));
        text.append(digit(b % 16));
        assert(bytes@.take(i + 1).drop_last() =~= bytes@.take(i as int));
        assert(bytes@.take(i + 1).last() == b);
        i += 1;
    }
    assert(bytes@.take(bytes.len() as int) =~= bytes@);
    text
}

/// The value of a hexadecimal digit, in either case; `None` for any other
/// character.
pub open spec fn digit_value(c: char) -> Option<int> {
    if c == '0' {
        Some(0)
    } else if c == '1' {
        Some(1)
    } else if c == '2' {
        Some(2)
    } else if c == '3' {
        Some(3)
    } else if c == '4' {
        Some(4)
    } else if c == '5' {
        Some(5)
    } else if c == '6' {
        Some(6)
    } else if c == '7' {
        Some(7)
    } else if c == '8' {
        Some(8)
    } else if c == '9' {
        Some(9)
    } else if c == 'a' || c == 'A' {
        Some(10)
    } else if c == 'b' || c == 'B' {
        Some(11)
    } else if c == 'c' || c == 'C' {
        Some(12)
    } else if c == 'd' || c == 'D' {
        Some(13)
    } else if c == 'e' || c == 'E' {
        Some(14)
    } else if c == 'f' || c == 'F' {
        Some(15)
    } else {
        None
    }
}

/// The number that the hexadecimal digits `d` stand for, the most
/// significant first; `None` where a character is no digit.
pub open spec fn digits_value(d: Seq<char>) -> Option<nat>
    decreases d.len(),
{
    if d.len() == 0 {
        Some(0)
    } else {
        match (digits_value(d.drop_last()), digit_value(d.last())) {
            (Some(v), Some(x)) => Some((v * 16 + x) as nat),
            _ => None,
        }
    }
}

/// The number that a JSON-RPC quantity stands for: `0x` and at least one
/// hexadecimal digit. Leading zeros are read as well.
pub open spec fn quantity_value(text: Seq<char>) -> Option<nat> {
    if text.len() >= 3 && text[0] == '0' && text[1] == 'x' {
        digits_value(text.subrange(2, text.len() as int))
    } else {
        None
    }
}

/// The bytes that the hexadecimal digits `d` stand for, two digits a byte;
/// `None` where a character is no digit or a digit has no partner.
pub open spec fn bytes_value(d: Seq<char>) -> Option<Seq<u8>>
    decreases d.len(),
{
    if d.len() == 0 {
        Some(Seq::empty())
    } else if d.len() == 1 {
        None
    } else {
        match (
            bytes_value(d.take(d.len() - 2)),
            digit_value(d[d.len() - 2]),
            digit_value(d[d.len() - 1]),
        ) {
            (Some(bytes), Some(high), Some(low)) => Some(bytes.push((high * 16 + low) as u8)),
            _ => None,
        }
    }
}

/// The bytes that JSON-RPC data stands for: `0x` and two hexadecimal
/// digits for each byte.
pub open spec fn data_value(text: Seq<char>) -> Option<Seq<u8>> {
    if text.len() >= 2 && text[0] == '0' && text[1] == 'x' {
        bytes_value(text.subrange(2, text.len() as int))
    } else {
        None
    }
}

/// Every digit that is written is read as what it stands for.
pub proof fn lemma_digit_round_trip(d: int)
    requires
        0 <= d < 16,
    ensures
        digit_value(hex_char(d)) == Some(d),
{
}

/// A quantity that is written is read as the number that it was written
/// for.
pub proof fn lemma_quantity_round_trip(n: nat)
    ensures
        quantity_value(quantity(n)) == Some(n),
{
    lemma_digits_round_trip(n);
    assert(quantity(n).subrange(2, quantity(n).len() as int) =~= hex_digits(n));
}

proof fn lemma_digits_round_trip(n: nat)
    ensures
        digits_value(hex_digits(n)) == Some(n),
        hex_digits(n).len() >= 1,
    decreases n,
{
    let d = hex_digits(n);
    if n < 16 {
        lemma_digit_round_trip(n as int);
        assert(d.drop_last() =~= Seq::<char>::empty());
        assert(d.last() == hex_char(n as int));
        assert(digits_value(d.drop_last()) == Some(0nat));
    } else {
        lemma_digits_round_trip(n / 16);
        lemma_digit_round_trip((n % 16) as int);
        assert(d.drop_last() =~= hex_digits(n / 16));
        assert(d.last() == hex_char((n % 16) as int));
        assert((n / 16) * 16 + n % 16 == n);
    }
}

/// Data that is written is read as the bytes that it was written for.
pub proof fn lemma_data_round_trip(bytes: Seq<u8>)
    ensures
        data_value(data(bytes)) == Some(bytes),
{
    lemma_bytes_round_trip(bytes);
    assert(data(bytes).subrange(2, data(bytes).len() as int) =~= byte_digits(bytes));
}

proof fn lemma_bytes_round_trip(bytes: Seq<u8>)
    ensures
        bytes_value(byte_digits(bytes)) == Some(bytes),
        byte_digits(bytes).len() == 2 * bytes.len(),
    decreases bytes.len(),
{
    if bytes.len() > 0 {
        let b = bytes.last() as int;
        let d = byte_digits(bytes);
        lemma_bytes_round_trip(bytes.drop_last());
        lemma_digit_round_trip(b / 16);
        lemma_digit_round_trip(b % 16);
        assert(d.take(d.len() - 2) =~= byte_digits(bytes.drop_last()));
        assert(bytes.drop_last().push(((b / 16) * 16 + b % 16) as u8) =~= bytes);
    }
}

proof fn lemma_digits_prefix(d: Seq<char>, k: int)
    requires
        0 <= k <= d.len(),
        digits_value(d) is Some,
    ensures
        digits_value(d.take(k)) is Some,
        digits_value(d.take(k)).unwrap() <= digits_value(d).unwrap(),
        k < d.len() ==> digit_value(d[k]) is Some,
    decreases d.len(),
{
    if k == d.len() {
        assert(d.take(k) =~= d);
    } else {
        assert(d.drop_last().take(k) =~= d.take(k));
        if k < d.len() - 1 {
            lemma_digits_prefix(d.drop_last(), k);
            assert(d.drop_last()[k] == d[k]);
        } else {
            assert(d.drop_last().take(k) =~= d.drop_last());
        }
    }
}

proof fn lemma_bytes_prefix(d: Seq<char>, k: int)
    requires
        0 <= k <= d.len(),
        k % 2 == 0,
        bytes_value(d) is Some,
    ensures
        d.len() % 2 == 0,
        bytes_value(d.take(k)) is Some,
        k < d.len() ==> digit_value(d[k]) is Some && digit_value(d[k + 1]) is Some,
    decreases d.len(),
{
    if d.len() >= 2 {
        let rest = d.take(d.len() - 2);
        lemma_bytes_prefix(rest, 0);
        if k == d.len() {
            assert(d.take(k) =~= d);
        } else if k == d.len() - 2 {
        } else {
            lemma_bytes_prefix(rest, k);
            assert(rest.take(k) =~= d.take(k));
            assert(rest[k] == d[k] && rest[k + 1] == d[k + 1]);
        }
    } else {
        assert(d.take(k) =~= d);
    }
}

/// The value of the hexadecimal digit `c`.
pub fn digit_of(c: char) -> (r: Option<u8>)
    ensures
        r is Some <==> digit_value(c) is Some,
        r matches Some(d) ==> digit_value(c) == Some(d as int) && d < 16,
{
    if c == '0' {
        Some(0)
    } else if c == '1' {
        Some(1)
    } else if c == '2' {
        Some(2)
    } else if c == '3' {
        Some(3)
    } else if c == '4' {
        Some(4)
    } else if c == '5' {
        Some(5)
    } else if c == '6' {
        Some(6)
    } else if c == '7' {
        Some(7)
    } else if c == '8' {
        Some(8)
    } else if c == '9' {
        Some(9)
    } else if c == 'a' || c == 'A' {
        Some(10)
    } else if c == 'b' || c == 'B' {
        Some(11)
    } else if c == 'c' || c == 'C' {
        Some(12)
    } else if c == 'd' || c == 'D' {
        Some(13)
    } else if c == 'e' || c == 'E' {
        Some(14)
    } else if c == 'f' || c == 'F' {
        Some(15)
    } else {
        None
    }
}

/// The number that the quantity `text` stands for, where it is a quantity
/// and the number fits.
pub open spec fn quantity_u64(text: Seq<char>) -> Option<u64> {
    match quantity_value(text) {
        Some(v) => if v <= u64::MAX {
            Some(v as u64)
        } else {
            None
        },
        None => None,
    }
}

/// Reads a JSON-RPC quantity.
pub fn parse_quantity(text: &str) -> (r: Option<u64>)
    ensures
        r == quantity_u64(text@),
{
    let n = text.unicode_len();
    if n < 3 {
        return None;
    }
    if text.get_char(0) != '0' || text.get_char(1) != 'x' {
        return None;
    }
    let ghost digits = text@.subrange(2, n as int);
    let mut value: u64 = 0;
    let mut i: usize = 2;
    assert(digits.take(0) =~= Seq::<char>::empty());
    while i < n
        invariant
            2 <= i <= n,
            n == text@.len(),
            digits == text@.subrange(2, n as int),
            digits_value(digits.take(i - 2)) == Some(value as nat),
        decreases n - i,
    {
        let c = text.get_char(i);
        assert(digits[i - 2] == c);
        assert(digits.take(i - 1).drop_last() =~= digits.take(i - 2));
        assert(digits.take(i - 1).last() == c);
        let d = match digit_of(c) {
            Some(d) => d,
            None => {
                proof {
                    if digits_value(digits) is Some {
                        lemma_digits_prefix(digits, i - 2);
                    }
                }
                return None;
            },
        };
        if value > (u64::MAX - (d as u64)) / 16 {
            proof {
                if digits_value(digits) is Some {
                    lemma_digits_prefix(digits, i - 1);
                }
            }
            return None;
        }
        value = value * 16 + (d as u64);
        i += 1;
    }
    assert(digits.take(n - 2) =~= digits);
    Some(value)
}

/// Reads JSON-RPC data.
pub fn parse_data(text: &str) -> (r: Option<Vec<u8>>)
    ensures
        r is Some <==> data_value(text@) is Some,
        r matches Some(bytes) ==> data_value(text@) == Some(bytes@),
{
    let n = text.unicode_len();
    if n < 2 {
        return None;
    }
    if text.get_char(0) != '0' || text.get_char(1) != 'x' {
        return None;
    }
    let ghost digits = text@.subrange(2, n as int);
    if (n - 2) % 2 != 0 {
        proof {
            if bytes_value(digits) is Some {
                lemma_bytes_prefix(digits, 0);
            }
        }
        return None;
    }
    let mut bytes: Vec<u8> = Vec::new();
    let mut i: usize = 2;
    assert(digits.take(0) =~= Seq::<char>::empty());
    while i < n
        invariant
            2 <= i <= n,
            (i - 2) % 2 == 0,
            (n - 2) % 2 == 0,
            n == text@.len(),
            digits == text@.subrange(2, n as int),
            bytes_value(digits.take(i - 2)) == Some(bytes@),
        decreases n - i,
    {
        let high = text.get_char(i);
        let low = text.get_char(i + 1);
        let ghost next = digits.take(i as int);
        assert(next.take(next.len() - 2) =~= digits.take(i - 2));
        assert(next[next.len() - 2] == high && next[next.len() - 1] == low);
        match (digit_of(high), digit_of(low)) {
            (Some(h), Some(l)) => {
                bytes.push(h * 16 + l);
            },
            _ => {
                proof {
                    if bytes_value(digits) is Some {
                        lemma_bytes_prefix(digits, i - 2);
                    }
                }
                return None;
            },
        }
        i += 2;
    }
    assert(digits.take(n - 2) =~= digits);
    Some(bytes)
}

/// How one character is written inside a JSON string: a quote, a
/// backslash and the control characters are escaped, the common ones by
/// their letter and the others by their number; every other character is
/// written as it is.
pub open spec fn escaped_char(c: char) -> Seq<char> {
    if c == '"' {
        seq!['\\', '"']
    } else if c == '\\' {
        seq!['\\', '\\']
    } else if c == '\n' {
        seq!['\\', 'n']
    } else if c == '\r' {
        seq!['\\', 'r']
    } else if c == '\t' {
        seq!['\\', 't']
    } else if c == '\u{8}' {
        seq!['\\', 'b']
    } else if c == '\u{c}' {
        seq!['\\', 'f']
    } else if (c as u32) < 0x20 {
        seq!['\\', 'u', '0', '0', hex_char(c as u32 as int / 16), hex_char(c as u32 as int % 16)]
    } else {
        seq![c]
    }
}

/// How `text` is written inside a JSON string, without the quotes around
/// it.
pub open spec fn escaped(text: Seq<char>) -> Seq<char>
    decreases text.len(),
{
    if text.len() == 0 {
        Seq::empty()
    } else {
        escaped(text.drop_last()) + escaped_char(text.last())
    }
}

/// Whether a character is written as it is inside a JSON string.
pub open spec fn is_plain(c: char) -> bool {
    c != '"' && c != '\\' && (c as u32) >= 0x20
}

/// A text of plain characters is written as it is.
pub proof fn lemma_plain_is_unchanged(text: Seq<char>)
    requires
        forall|i: int| 0 <= i < text.len() ==> is_plain(#[trigger] text[i]),
    ensures
        escaped(text) == text,
    decreases text.len(),
{
    if text.len() > 0 {
        lemma_plain_is_unchanged(text.drop_last());
        assert(text.drop_last() + seq![text.last()] =~= text);
    }
}

/// A quantity holds plain characters only.
pub proof fn lemma_quantity_is_plain(n: nat)
    ensures
        forall|i: int| 0 <= i < quantity(n).len() ==> is_plain(#[trigger] quantity(n)[i]),
        escaped(quantity(n)) == quantity(n),
{
    lemma_digits_are_plain(n);
    lemma_plain_is_unchanged(quantity(n));
}

proof fn lemma_digits_are_plain(n: nat)
    ensures
        forall|i: int| 0 <= i < hex_digits(n).len() ==> is_plain(#[trigger] hex_digits(n)[i]),
    decreases n,
{
    let d = hex_digits(n);
    if n >= 16 {
        lemma_digits_are_plain(n / 16);
        assert forall|i: int| 0 <= i < d.len() implies is_plain(#[trigger] d[i]) by {
            if i < d.len() - 1 {
                assert(d[i] == hex_digits(n / 16)[i]);
            } else {
                assert(d[i] == hex_char((n % 16) as int));
            }
        }
    } else {
        assert(d[0] == hex_char(n as int));
    }
}

/// `text` as it is written inside a JSON string, without the quotes around
/// it.
pub fn escape(text: &str) -> (r: String)
    ensures
        r@ == escaped(text@),
{
    let n = text.unicode_len();
    let mut r = String::new();
    let mut i: usize = 0;
    assert(text@.take(0) =~= Seq::<char>::empty());
    while i < n
        invariant
            i <= n,
            n == text@.len(),
            r@ == escaped(text@.take(i as int)),
        decreases n - i,
    {
        let c = text.get_char(i);
        assert(text@.take(i + 1).drop_last() =~= text@.take(i as int));
        assert(text@.take(i + 1).last() == c);
        let ghost before = r@;
        proof {
            reveal_strlit("\\\"");
            reveal_strlit("\\\\");
            reveal_strlit("\\n");
            reveal_strlit("\\r");
            reveal_strlit("\\t");
            reveal_strlit("\\b");
            reveal_strlit("\\f");
            reveal_strlit("\\u00");
        }
        if c == '"' {
            r.append("\\\"");
            assert(r@ =~= before + escaped_char(c));
        } else if c == '\\' {
            r.append("\\\\");
            assert(r@ =~= before + escaped_char(c));
        } else if c == '\n' {
            r.append("\\n");
            assert(r@ =~= before + escaped_char(c));
        } else if c == '\r' {
            r.append("\\r");
            assert(r@ =~= before + escaped_char(c));
        } else if c == '\t' {
            r.append("\\t");
            assert(r@ =~= before + escaped_char(c));
        } else if c == '\u{8}' {
            r.append("\\b");
            assert(r@ =~= before + escaped_char(c));
        } else if c == '\u{c}' {
            r.append("\\f");
            assert(r@ =~= before + escaped_char(c));
        } else if (c as u32) < 0x20 {
            let code: u8 = (c as u32) as u8;
            r.append("\\u00");
            r.append(digit(code / 16));
            r.append(digit(code % 16));
            assert(r@ =~= before + escaped_char(c));
        } else {
            r.append(text.substring_char(i, i + 1));
            assert(text@.subrange(i as int, i + 1) =~= seq![c]);
            assert(r@ =~= before + escaped_char(c));
        }
        i += 1;
    }
    assert(text@.take(n as int) =~= text@);
    r
}

} // verus!
