//! Bluetooth addresses written in hexadecimal.

use vstd::prelude::*;

verus! {

/// What `c` is worth as a digit; letters of either case go on from ten.
pub open spec fn digit(c: char) -> Option<nat> {
    if '0' <= c <= '9' {
        Some((c as nat - '0' as nat) as nat)
    } else if 'a' <= c <= 'z' {
        Some((c as nat - 'a' as nat + 10) as nat)
    } else if 'A' <= c <= 'Z' {
        Some((c as nat - 'A' as nat + 10) as nat)
    } else {
        None
    }
}

/// Every character of `text` is a digit in the base `radix`.
pub open spec fn all_digits(text: Seq<char>, radix: nat) -> bool {
    forall|i: int| 0 <= i < text.len() ==> (#[trigger] digit(text[i])) is Some && digit(text[i])->0
        < radix
}

/// The number that the digits of `text` make in the base `radix`, most significant
/// digit first.
pub open spec fn digits_value(text: Seq<char>, radix: nat) -> nat
    decreases text.len(),
{
    if text.len() == 0 {
        0
    } else {
        digits_value(text.drop_last(), radix) * radix + digit(text.last())->0
    }
}

/// The number that `text` stands for in the base `radix`: at least one digit and
/// nothing but digits, after a plus sign or none, and a value that fits.
pub open spec fn parse_radix(text: Seq<char>, radix: nat) -> Option<u64> {
    let digits = if text.len() > 0 && text[0] == '+' {
        text.skip(1)
    } else {
        text
    };
    if digits.len() > 0 && all_digits(digits, radix) && digits_value(digits, radix) <= u64::MAX {
        Some(digits_value(digits, radix) as u64)
    } else {
        None
    }
}

/// The address that `text` stands for in hexadecimal.
pub open spec fn parse_address(text: Seq<char>) -> Option<u64> {
    parse_radix(text, 16)
}

/// Calls `u64::from_str_radix` and drops what it says about an error.
///
/// What is taken on trust: it accepts an optional plus sign followed by digits of
/// the base and nothing else, an empty text and a lone sign being errors, and so
/// is a number too large for the type. It panics on a base outside 2 to 36, which
/// `requires` rules out.
#[verifier::external_body]
fn from_str_radix(text: &str, radix: u32) -> (number: Option<u64>)
    requires
        2 <= radix <= 36,
    ensures
        number == parse_radix(text@, radix as nat),
{
    u64::from_str_radix(text, radix).ok()
}

/// Reads a Bluetooth address written in hexadecimal.
pub fn read_address(text: &str) -> (address: Option<u64>)
    ensures
        address == parse_address(text@),
        address == parse_radix(text@, 16),
{
    from_str_radix(text, 16)
}

/// The characters that are hexadecimal digits, and what they are worth.
pub open spec fn is_hex_digit(c: char, worth: int) -> bool {
    ||| '0' <= c <= '9' && worth == c as int - 48
    ||| 'a' <= c <= 'f' && worth == c as int - 87
    ||| 'A' <= c <= 'F' && worth == c as int - 55
}

/// A single digit is an address.
pub proof fn one_digit_is_an_address(c: char, worth: int)
    requires
        is_hex_digit(c, worth),
    ensures
        parse_address(seq![c]) == Some(worth as u64),
{
    let text = seq![c];
    assert(text.drop_last() =~= Seq::empty());
    reveal_with_fuel(digits_value, 2);
    assert(all_digits(text, 16));
}

/// One more digit makes an address sixteen times as large and adds what the digit is
/// worth, as long as that fits in 64 bits.
pub proof fn one_more_digit(text: Seq<char>, c: char, worth: int, address: u64)
    requires
        parse_address(text) == Some(address),
        is_hex_digit(c, worth),
    ensures
        parse_address(text.push(c)) == if 16 * address + worth <= u64::MAX {
            Some((16 * address + worth) as u64)
        } else {
            None
        },
{
    let digits = if text.len() > 0 && text[0] == '+' {
        text.skip(1)
    } else {
        text
    };
    let longer = text.push(c);
    assert(longer[0] == text[0]);
    if text[0] == '+' {
        assert(longer.skip(1) =~= digits.push(c));
    }
    let more = digits.push(c);
    assert(more.drop_last() =~= digits);
    assert forall|i: int| 0 <= i < more.len() implies (#[trigger] digit(more[i])) is Some && digit(
        more[i],
    )->0 < 16 by {
        if i < digits.len() {
            assert(digit(digits[i]) is Some);
        }
    }
    assert(digits_value(more, 16) == digits_value(digits, 16) * 16 + worth);
}

/// What is no address does not become one by another character, unless nothing but a
/// sign stood there.
pub proof fn no_address_stays_none(text: Seq<char>, c: char)
    requires
        parse_address(text) is None,
        text.len() > 0,
        text != seq!['+'],
    ensures
        parse_address(text.push(c)) is None,
{
    let longer = text.push(c);
    assert(longer[0] == text[0]);
    let digits = if text[0] == '+' {
        text.skip(1)
    } else {
        text
    };
    let more = if text[0] == '+' {
        longer.skip(1)
    } else {
        longer
    };
    assert(more =~= digits.push(c));
    assert(more.drop_last() =~= digits);
    if text[0] == '+' && text.len() == 1 {
        assert(text =~= seq!['+']);
    }
    if all_digits(more, 16) {
        assert forall|i: int| 0 <= i < digits.len() implies (#[trigger] digit(digits[i])) is Some
            && digit(digits[i])->0 < 16 by {
            assert(digit(more[i]) is Some);
        }
        assert(digit(more[digits.len() as int]) is Some);
        assert(digits_value(more, 16) >= digits_value(digits, 16));
    }
}

/// A text with any character that is no hexadecimal digit is no address, but for one
/// plus sign in front.
pub proof fn other_characters_are_refused(text: Seq<char>, at: int)
    requires
        0 <= at < text.len(),
        forall|worth: int| !is_hex_digit(text[at], worth),
        at != 0 || text[at] != '+',
    ensures
        parse_address(text) is None,
{
    let c = text[at];
    assert(!is_hex_digit(c, c as int - 48));
    assert(!is_hex_digit(c, c as int - 87));
    assert(!is_hex_digit(c, c as int - 55));
    let digits = if text[0] == '+' {
        text.skip(1)
    } else {
        text
    };
    if all_digits(digits, 16) {
        let k = if text[0] == '+' {
            at - 1
        } else {
            at
        };
        assert(digits[k] == c);
        assert(digit(digits[k]) is Some);
    }
}

/// A plus sign in front changes nothing; with nothing behind it there is no address,
/// and neither is there in an empty text.
pub proof fn sign_changes_nothing(text: Seq<char>)
    ensures
        parse_address(Seq::empty()) is None,
        parse_address(seq!['+']) is None,
        text.len() > 0 && text[0] != '+' ==> parse_address(seq!['+'] + text) == parse_address(text),
{
    assert((seq!['+'] + text).skip(1) =~= text);
    assert(seq!['+'].skip(1) =~= Seq::<char>::empty());
}

} // verus!
