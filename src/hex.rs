//! Hexadecimal views of byte strings, for display.

use vstd::prelude::*;
use vstd::string::StringExecFns;
use vstd::utf8::{valid_utf8, decode_utf8};

verus! {

/// Upper-case hexadecimal digit of a value below 16.
pub open spec fn hex_char(d: u8) -> char {
    if d == 0 {
        '0'
    } else if d == 1 {
        '1'
    } else if d == 2 {
        '2'
    } else if d == 3 {
        '3'
    } else if d == 4 {
        '4'
    } else if d == 5 {
        '5'
    } else if d == 6 {
        '6'
    } else if d == 7 {
        '7'
    } else if d == 8 {
        '8'
    } else if d == 9 {
        '9'
    } else if d == 10 {
        'A'
    } else if d == 11 {
        'B'
    } else if d == 12 {
        'C'
    } else if d == 13 {
        'D'
    } else if d == 14 {
        'E'
    } else if d == 15 {
        'F'
    } else {
        'F'
    }
}

/// The text for byte `b` at index `i`: two digits, a comma after every
/// fourth byte, a space, and a line break after every sixteenth byte.
pub open spec fn hex_cell(b: u8, i: int) -> Seq<char> {
    seq![hex_char(b / 16), hex_char(b % 16)] + (if i > 0 && i % 4 == 3 {
        seq![',']
    } else {
        Seq::empty()
    }) + seq![' '] + (if i > 0 && i % 16 == 15 {
        seq!['\n']
    } else {
        Seq::empty()
    })
}

/// The cells of all bytes, in order.
pub open spec fn hex_view(b: Seq<u8>) -> Seq<char>
    decreases b.len(),
{
    if b.len() == 0 {
        Seq::empty()
    } else {
        hex_view(b.drop_last()) + hex_cell(b.last(), b.len() - 1)
    }
}

/// Each byte written as `\x` and two digits.
pub open spec fn escaped(b: Seq<u8>) -> Seq<char>
    decreases b.len(),
{
    if b.len() == 0 {
        Seq::empty()
    } else {
        escaped(b.drop_last()) + seq!['\\', 'x', hex_char(b.last() / 16), hex_char(b.last() % 16)]
    }
}

/// The one-character text of a hexadecimal digit.
fn hex_digit(d: u8) -> (r: &'static str)
    requires
        d < 16,
    ensures
        r@ == seq![hex_char(d)],
{
    match d {
        0 => {
            proof { reveal_strlit("0"); }
            "0"
        },
        1 => {
            proof { reveal_strlit("1"); }
            "1"
        },
        2 => {
            proof { reveal_strlit("2"); }
            "2"
        },
        3 => {
            proof { reveal_strlit("3"); }
            "3"
        },
        4 => {
            proof { reveal_strlit("4"); }
            "4"
        },
        5 => {
            proof { reveal_strlit("5"); }
            "5"
        },
        6 => {
            proof { reveal_strlit("6"); }
            "6"
        },
        7 => {
            proof { reveal_strlit("7"); }
            "7"
        },
        8 => {
            proof { reveal_strlit("8"); }
            "8"
        },
        9 => {
            proof { reveal_strlit("9"); }
            "9"
        },
        10 => {
            proof { reveal_strlit("A"); }
            "A"
        },
        11 => {
            proof { reveal_strlit("B"); }
            "B"
        },
        12 => {
            proof { reveal_strlit("C"); }
            "C"
        },
        13 => {
            proof { reveal_strlit("D"); }
            "D"
        },
        14 => {
            proof { reveal_strlit("E"); }
            "E"
        },
        _ => {
            proof { reveal_strlit("F"); }
            "F"
        },
    }
}

/// Lays out bytes as hexadecimal, four to a group and sixteen to a line.
pub fn hex_viewer(bytes: &[u8]) -> (r: String)
    ensures
        r@ == hex_view(bytes@),
{
    let mut out = String::new();
    let mut i: usize = 0;
    while i < bytes.len()
        invariant
            i <= bytes@.len(),
            out@ == hex_view(bytes@.subrange(0, i as int)),
        decreases bytes@.len() - i,
    {
        let b = bytes[i];
        let ghost before = out@;
        out.append(hex_digit(b / 16));
        out.append(hex_digit(b % 16));
        let ghost digits = out@;
        if i > 0 && i % 4 == 3 {
            proof { reveal_strlit(","); }
            out.append(",");
        }
        let ghost comma = out@;
        proof { reveal_strlit(" "); }
        out.append(" ");
        let ghost space = out@;
        if i > 0 && i % 16 == 15 {
            proof { reveal_strlit("\n"); }
            out.append("\n");
        }
        proof {
            let cell = hex_cell(b, i as int);
            assert(out@ =~= before + cell);
            assert(bytes@.subrange(0, i as int + 1).drop_last() =~= bytes@.subrange(0, i as int));
        }
        i = i + 1;
    }
    assert(bytes@.subrange(0, i as int) =~= bytes@);
    out
}

/// Relies on `String::from_utf8`: it succeeds exactly on valid UTF-8, and
/// the string then holds the decoded characters.
#[verifier::external_body]
fn utf8_string(b: &[u8]) -> (r: Option<String>)
    ensures
        r is Some <==> valid_utf8(b@),
        r matches Some(s) ==> s@ == decode_utf8(b@),
{
    String::from_utf8(b.to_vec()).ok()
}

/// The text that the bytes encode as UTF-8, or, when they are not valid
/// UTF-8, every byte escaped as `\x` and two hexadecimal digits.
pub fn hex_utf8(bytes: &[u8]) -> (r: String)
    ensures
        r@ == if valid_utf8(bytes@) {
            decode_utf8(bytes@)
        } else {
            escaped(bytes@)
        },
{
    match utf8_string(bytes) {
        Some(s) => s,
        None => {
            let mut out = String::new();
            let mut i: usize = 0;
            while i < bytes.len()
                invariant
                    i <= bytes@.len(),
                    out@ == escaped(bytes@.subrange(0, i as int)),
                decreases bytes@.len() - i,
            {
                let b = bytes[i];
                let ghost before = out@;
                proof { reveal_strlit("\\x"); }
                out.append("\\x");
                out.append(hex_digit(b / 16));
                out.append(hex_digit(b % 16));
                proof {
                    assert(out@ =~= before + seq!['\\', 'x', hex_char(b / 16), hex_char(b % 16)]);
                    assert(bytes@.subrange(0, i as int + 1).drop_last() =~= bytes@.subrange(0, i as int));
                }
                i = i + 1;
            }
            assert(bytes@.subrange(0, i as int) =~= bytes@);
            out
        },
    }
}

} // verus!
