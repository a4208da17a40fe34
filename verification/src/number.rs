//! Numbers as text: reading the number in a cell, and writing one in decimal.

use vstd::prelude::*;
use vstd::string::*;

verus! {

/// The ASCII codes of the characters that a number is written with.
const DIGIT_0: u8 = 48;

const DIGIT_9: u8 = 57;

const UPPER_A: u8 = 65;

const UPPER_F: u8 = 70;

const LOWER_A: u8 = 97;

const LOWER_F: u8 = 102;

const LOWER_X: u8 = 120;

const PLUS: u8 = 43;

/// The value of `c` as a digit below `radix`: `0` to `9`, then `a` to `f` or
/// `A` to `F` for ten to fifteen. `None` where `c` is no such digit.
pub open spec fn digit_of(c: char, radix: nat) -> Option<nat> {
    let value: Option<nat> = if '0' <= c <= '9' {
        Some((c as u32 - '0' as u32) as nat)
    } else if 'a' <= c <= 'f' {
        Some((c as u32 - 'a' as u32 + 10) as nat)
    } else if 'A' <= c <= 'F' {
        Some((c as u32 - 'A' as u32 + 10) as nat)
    } else {
        None
    };
    if value is Some && value->0 < radix {
        value
    } else {
        None
    }
}

/// Whether every character of `digits` is a digit below `radix`.
pub open spec fn all_digits(digits: Seq<char>, radix: nat) -> bool {
    forall|i: int| 0 <= i < digits.len() ==> (#[trigger] digit_of(digits[i], radix)) is Some
}

/// The number that `digits` write in `radix`, most significant digit first.
/// A character that is no digit counts as zero.
pub open spec fn value_of(digits: Seq<char>, radix: nat) -> nat
    decreases digits.len(),
{
    if digits.len() == 0 {
        0
    } else {
        let last = match digit_of(digits.last(), radix) {
            Some(d) => d,
            None => 0,
        };
        value_of(digits.drop_last(), radix) * radix + last
    }
}

/// The number that `digits` write in `radix`, where they are one digit or
/// more and the number fits in 64 bits.
pub open spec fn natural_of(digits: Seq<char>, radix: nat) -> Option<u64> {
    if digits.len() > 0 && all_digits(digits, radix) && value_of(digits, radix) <= u64::MAX {
        Some(value_of(digits, radix) as u64)
    } else {
        None
    }
}

/// `text` without the `+` that it may begin with.
pub open spec fn unsigned_digits(text: Seq<char>) -> Seq<char> {
    if text.len() > 0 && text[0] == '+' {
        text.skip(1)
    } else {
        text
    }
}

/// The unsigned number that `text` writes in `radix`: an optional `+`, then
/// one digit or more, and a value that fits in 64 bits. `None` for any other
/// text.
pub open spec fn unsigned_of(text: Seq<char>, radix: nat) -> Option<u64> {
    natural_of(unsigned_digits(text), radix)
}

/// Whether `cell` begins with `0x`, which announces a hexadecimal number.
pub open spec fn is_hex(cell: Seq<char>) -> bool {
    cell.len() >= 2 && cell[0] == '0' && cell[1] == 'x'
}

/// The number in a cell: hexadecimal after `0x`, decimal otherwise. `None`
/// where the cell is empty or holds anything but such a number.
pub open spec fn number_of(cell: Seq<char>) -> Option<u64> {
    if is_hex(cell) {
        unsigned_of(cell.skip(2), 16)
    } else {
        unsigned_of(cell, 10)
    }
}

/// The number written by the first digits is never more than the number
/// written by all of them.
pub proof fn lemma_value_grows(digits: Seq<char>, radix: nat, k: int)
    requires
        radix >= 1,
        0 <= k <= digits.len(),
    ensures
        value_of(digits.take(k), radix) <= value_of(digits, radix),
    decreases digits.len() - k,
{
    if k == digits.len() {
        assert(digits.take(k) =~= digits);
    } else {
        let front = digits.drop_last();
        assert(front.take(k) =~= digits.take(k));
        lemma_value_grows(front, radix, k);
        assert(value_of(front, radix) <= value_of(front, radix) * radix) by (nonlinear_arith)
            requires
                radix >= 1,
        ;
    }
}

/// A cell with a character outside ASCII holds no number.
pub proof fn lemma_number_is_ascii(cell: Seq<char>)
    requires
        number_of(cell) is Some,
    ensures
        vstd::utf8::is_ascii_chars(cell),
{
    let (body, radix): (Seq<char>, nat) = if is_hex(cell) {
        (cell.skip(2), 16)
    } else {
        (cell, 10)
    };
    let digits = unsigned_digits(body);
    let lead = cell.len() - digits.len();
    assert forall|i: int| 0 <= i < cell.len() implies '\0' <= #[trigger] cell[i] <= '\u{7f}' by {
        if i >= lead {
            assert(cell[i] == digits[i - lead]);
            assert(digit_of(digits[i - lead], radix) is Some);
        } else if is_hex(cell) && i < 2 {
            assert(cell[i] == '0' || cell[i] == 'x');
        } else {
            assert(cell[i] == body[0]);
        }
    }
}

/// The value of an ASCII byte as a digit below `radix`.
fn digit(byte: u8, radix: u64) -> (value: Option<u64>)
    requires
        radix <= 16,
        byte < 128,
    ensures
        match value {
            Some(d) => digit_of(byte as char, radix as nat) == Some(d as nat),
            None => digit_of(byte as char, radix as nat) is None,
        },
{
    let d: u64 = if DIGIT_0 <= byte && byte <= DIGIT_9 {
        (byte - DIGIT_0) as u64
    } else if LOWER_A <= byte && byte <= LOWER_F {
        (byte - LOWER_A) as u64 + 10
    } else if UPPER_A <= byte && byte <= UPPER_F {
        (byte - UPPER_A) as u64 + 10
    } else {
        return None;
    };
    if d < radix {
        Some(d)
    } else {
        None
    }
}

/// Reads the unsigned number that the bytes from `start` on write in `radix`.
/// The bytes are the ASCII codes of the characters of `text`.
fn parse_unsigned(bytes: &[u8], start: usize, radix: u64, Ghost(text): Ghost<Seq<char>>) -> (number:
    Option<u64>)
    requires
        radix == 10 || radix == 16,
        start <= bytes.len(),
        text.len() == bytes.len(),
        forall|i: int|
            0 <= i < bytes.len() ==> #[trigger] bytes[i] < 128 && text[i] == bytes[i] as char,
    ensures
        number == unsigned_of(text.skip(start as int), radix as nat),
{
    let ghost body = text.skip(start as int);
    let first: usize = if start < bytes.len() && bytes[start] == PLUS {
        start + 1
    } else {
        start
    };
    let ghost digits = text.skip(first as int);
    assert(digits == unsigned_digits(body)) by {
        if start < bytes.len() {
            assert(body[0] == bytes[start as int] as char);
        }
        if first > start {
            assert(body.skip(1) =~= digits);
        }
    }
    if first == bytes.len() {
        return None;
    }
    let mut value: u64 = 0;
    let mut i: usize = first;
    assert(digits.take(0) =~= Seq::<char>::empty());
    while i < bytes.len()
        invariant
            radix == 10 || radix == 16,
            first <= i <= bytes.len(),
            text.len() == bytes.len(),
            first < bytes.len(),
            digits == text.skip(first as int),
            unsigned_of(text.skip(start as int), radix as nat) == natural_of(digits, radix as nat),
            forall|k: int|
                0 <= k < bytes.len() ==> #[trigger] bytes[k] < 128 && text[k] == bytes[k] as char,
            all_digits(digits.take(i - first), radix as nat),
            value == value_of(digits.take(i - first), radix as nat),
        decreases bytes.len() - i,
    {
        let ghost seen = digits.take(i - first);
        let ghost next = digits.take(i - first + 1);
        proof {
            assert(next.drop_last() =~= seen);
            assert(next.last() == bytes[i as int] as char);
            lemma_value_grows(digits, radix as nat, i - first + 1);
        }
        let d = match digit(bytes[i], radix) {
            Some(d) => d,
            None => {
                assert(digit_of(digits[i - first], radix as nat) is None);
                return None;
            },
        };
        let grown = match value.checked_mul(radix) {
            Some(scaled) => scaled.checked_add(d),
            None => None,
        };
        value =
        match grown {
            Some(sum) => sum,
            None => {
                assert(value_of(next, radix as nat) > u64::MAX);
                return None;
            },
        };
        proof {
            assert forall|k: int| 0 <= k < next.len() implies (#[trigger] digit_of(
                next[k],
                radix as nat,
            )) is Some by {
                if k < seen.len() {
                    assert(next[k] == seen[k]);
                }
            }
        }
        i += 1;
    }
    assert(digits.take(i - first) =~= digits);
    Some(value)
}

/// Reads the number in a cell.
///
/// The cell holds a number where it is an optional `+` and then decimal
/// digits, or `0x`, an optional `+` and then hexadecimal digits, and the value
/// fits in 64 bits. An empty cell, and one with any other text, holds none.
pub fn parse_number(cell: &str) -> (number: Option<u64>)
    ensures
        number == number_of(cell@),
{
    if !cell.is_ascii() {
        proof {
            if number_of(cell@) is Some {
                lemma_number_is_ascii(cell@);
            }
        }
        return None;
    }
    let bytes = cell.as_bytes();
    proof {
        vstd::utf8::is_ascii_chars_encode_utf8(cell@);
        assert forall|i: int| 0 <= i < bytes.len() implies #[trigger] bytes[i] < 128 && cell@[i]
            == bytes[i] as char by {
            assert('\0' <= cell@[i] <= '\u{7f}');
            assert(cell@[i] as u8 == bytes[i]);
        }
    }
    if bytes.len() >= 2 && bytes[0] == DIGIT_0 && bytes[1] == LOWER_X {
        assert(is_hex(cell@));
        parse_unsigned(bytes, 2, 16, Ghost(cell@))
    } else {
        assert(!is_hex(cell@)) by {
            if bytes.len() >= 2 {
                assert(cell@[0] == bytes[0] as char);
                assert(cell@[1] == bytes[1] as char);
            }
        }
        assert(cell@.skip(0) =~= cell@);
        parse_unsigned(bytes, 0, 10, Ghost(cell@))
    }
}

/// The character that writes the digit `d`.
pub open spec fn digit_char(d: nat) -> char
    recommends
        d < 10,
{
    if d == 0 {
        '0'
    } else if d == 1 {
        '1'
    } else if d == 2 {
        '2'
    } else if d == 3 {
        '3'
    } else if d == 4 {
        '4'
    } else if d == 5 {
        '5'
    } else if d == 6 {
        '6'
    } else if d == 7 {
        '7'
    } else if d == 8 {
        '8'
    } else {
        '9'
    }
}

/// `n` written in decimal, without leading zeros.
pub open spec fn decimal(n: nat) -> Seq<char>
    decreases n,
{
    if n < 10 {
        seq![digit_char(n)]
    } else {
        decimal(n / 10).push(digit_char(n % 10))
    }
}

/// The text of one decimal digit.
fn digit_text(d: u64) -> (text: &'static str)
    requires
        d < 10,
    ensures
        text@ == seq![digit_char(d as nat)],
{
    proof {
        reveal_strlit("0");
        reveal_strlit("1");
        reveal_strlit("2");
        reveal_strlit("3");
        reveal_strlit("4");
        reveal_strlit("5");
        reveal_strlit("6");
        reveal_strlit("7");
        reveal_strlit("8");
        reveal_strlit("9");
    }
    let text = if d == 0 {
        "0"
    } else if d == 1 {
        "1"
    } else if d == 2 {
        "2"
    } else if d == 3 {
        "3"
    } else if d == 4 {
        "4"
    } else if d == 5 {
        "5"
    } else if d == 6 {
        "6"
    } else if d == 7 {
        "7"
    } else if d == 8 {
        "8"
    } else {
        "9"
    };
    assert(text@ =~= seq![digit_char(d as nat)]);
    text
}

/// Writes `n` in decimal at the end of `out`.
pub fn push_decimal(out: &mut String, n: u64)
    ensures
        final(out)@ == old(out)@ + decimal(n as nat),
    decreases n,
{
    if n >= 10 {
        push_decimal(out, n / 10);
    }
    let ghost front = out@;
    out.append(digit_text(n % 10));
    proof {
        if n >= 10 {
            assert(front + seq![digit_char((n % 10) as nat)] =~= old(out)@ + decimal(n as nat));
        }
    }
}

} // verus!
