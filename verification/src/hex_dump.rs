//! Bytes as text, for a look at what is sent.

use vstd::prelude::*;
use vstd::string::StringExecFns;

verus! {

/// The number of bytes in a row.
pub const ROW_LENGTH: usize = 16;

/// The hexadecimal digits.
pub open spec fn hex_digits() -> Seq<char> {
    seq!['0', '1', '2', '3', '4', '5', '6', '7', '8', '9', 'A', 'B', 'C', 'D', 'E', 'F']
}

/// A byte as two digits and a space.
pub open spec fn byte_text(byte: u8) -> Seq<char> {
    seq![hex_digits()[byte as int / 16], hex_digits()[byte as int % 16], ' ']
}

/// The bytes one after the other, with a line break behind every full row.
pub open spec fn dump_text(bytes: Seq<u8>) -> Seq<char>
    decreases bytes.len(),
{
    if bytes.len() == 0 {
        Seq::empty()
    } else {
        dump_text(bytes.drop_last()) + byte_text(bytes.last()) + if bytes.len() % ROW_LENGTH as nat
            == 0 {
            seq!['\n']
        } else {
            Seq::empty()
        }
    }
}

fn digit_text(digit: u8) -> (text: &'static str)
    requires
        digit < 16,
    ensures
        text@ == seq![hex_digits()[digit as int]],
{
    proof {
        reveal_strlit("0");
        reveal_strlit("1");
        reveal_strlit("2");
        reveal_strlit("3");
        reveal_strlit("4");
        reveal_strlit("5");
        reveal_strlit("6");
        reveal_strlit("7");
        reveal_strlit("8");
        reveal_strlit("9");
        reveal_strlit("A");
        reveal_strlit("B");
        reveal_strlit("C");
        reveal_strlit("D");
        reveal_strlit("E");
        reveal_strlit("F");
    }
    let text: &'static str = match digit {
        0 => "0",
        1 => "1",
        2 => "2",
        3 => "3",
        4 => "4",
        5 => "5",
        6 => "6",
        7 => "7",
        8 => "8",
        9 => "9",
        10 => "A",
        11 => "B",
        12 => "C",
        13 => "D",
        14 => "E",
        _ => "F",
    };
    assert(text@ =~= seq![hex_digits()[digit as int]]);
    text
}

/// The bytes as text: two hexadecimal digits and a space for each, and a line break
/// behind every full row.
pub fn hex_dump(bytes: &[u8]) -> (text: String)
    ensures
        text@ == dump_text(bytes@),
{
    let mut text: String = String::new();
    let mut i: usize = 0;
    assert(bytes@.take(0) =~= Seq::empty());
    while i < bytes.len()
        invariant
            i <= bytes@.len(),
            text@ == dump_text(bytes@.take(i as int)),
        decreases bytes@.len() - i,
    {
        let byte: u8 = bytes[i];
        proof {
            reveal_strlit(" ");
            reveal_strlit("\n");
            assert(bytes@.take(i + 1).drop_last() =~= bytes@.take(i as int));
        }
        text.append(digit_text(byte / 16));
        text.append(digit_text(byte % 16));
        text.append(" ");
        i = i + 1;
        if i % ROW_LENGTH == 0 {
            text.append("\n");
        }
        assert(text@ =~= dump_text(bytes@.take(i as int)));
    }
    assert(bytes@.take(i as int) =~= bytes@);
    text
}

/// Whether `c` is the upper-case hexadecimal digit for `n`.
pub open spec fn is_hex_digit_for(c: char, n: int) -> bool {
    ||| 0 <= n < 10 && c as int == 48 + n
    ||| 10 <= n < 16 && c as int == 55 + n
}

/// Where the text of each byte stands: three characters for every byte before it, and
/// a line break behind every sixteenth; there is nothing else.
pub proof fn dump_positions(bytes: Seq<u8>, at: int)
    requires
        0 <= at < bytes.len(),
    ensures
        ({
            let text = dump_text(bytes);
            let start = 3 * at + at / 16;
            &&& text.len() == 3 * bytes.len() + bytes.len() / 16
            &&& is_hex_digit_for(text[start], bytes[at] as int / 16)
            &&& is_hex_digit_for(text[start + 1], bytes[at] as int % 16)
            &&& text[start + 2] == ' '
            &&& (at + 1) % 16 == 0 ==> text[start + 3] == '\n'
        }),
    decreases bytes.len(),
{
    let before = bytes.drop_last();
    let last = bytes.last();
    assert(dump_text(before).len() == 3 * before.len() + before.len() / 16) by {
        if before.len() > 0 {
            dump_positions(before, 0);
        }
    }
    assert(byte_text(last).len() == 3);
    assert(byte_text(last)[2] == ' ');
    assert(is_hex_digit_for(byte_text(last)[0], last as int / 16));
    assert(is_hex_digit_for(byte_text(last)[1], last as int % 16));
    if at < before.len() {
        dump_positions(before, at);
        assert(before[at] == bytes[at]);
    }
}

} // verus!
