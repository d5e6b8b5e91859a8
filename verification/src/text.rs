//! Text rendering for locators: lowercase hexadecimal and decimal digits of
//! the identifiers and versions that paths and URLs are built from.

use vstd::prelude::*;
use vstd::string::StringExecFns;

verus! {

/// The lowercase hexadecimal digit for a value below sixteen.
pub open spec fn spec_digit(d: u8) -> char {
    if d == 0 {
        '0'
    } else if d == 1 {
        '1'
    } else if d == 2 {
        '2'
    } else if d == 3 {
        '3'
    } else if d == 4 {
        '4'
    } else if d == 5 {
        '5'
    } else if d == 6 {
        '6'
    } else if d == 7 {
        '7'
    } else if d == 8 {
        '8'
    } else if d == 9 {
        '9'
    } else if d == 10 {
        'a'
    } else if d == 11 {
        'b'
    } else if d == 12 {
        'c'
    } else if d == 13 {
        'd'
    } else if d == 14 {
        'e'
    } else {
        'f'
    }
}

fn digit_str(d: u8) -> (r: &'static str)
    requires
        d < 16,
    ensures
        r@ == seq![spec_digit(d)],
{
    match d {
        0 => {
            proof { reveal_strlit("0"); assert("0"@ =~= seq![spec_digit(0u8)]); }
            "0"
        },
        1 => {
            proof { reveal_strlit("1"); assert("1"@ =~= seq![spec_digit(1u8)]); }
            "1"
        },
        2 => {
            proof { reveal_strlit("2"); assert("2"@ =~= seq![spec_digit(2u8)]); }
            "2"
        },
        3 => {
            proof { reveal_strlit("3"); assert("3"@ =~= seq![spec_digit(3u8)]); }
            "3"
        },
        4 => {
            proof { reveal_strlit("4"); assert("4"@ =~= seq![spec_digit(4u8)]); }
            "4"
        },
        5 => {
            proof { reveal_strlit("5"); assert("5"@ =~= seq![spec_digit(5u8)]); }
            "5"
        },
        6 => {
            proof { reveal_strlit("6"); assert("6"@ =~= seq![spec_digit(6u8)]); }
            "6"
        },
        7 => {
            proof { reveal_strlit("7"); assert("7"@ =~= seq![spec_digit(7u8)]); }
            "7"
        },
        8 => {
            proof { reveal_strlit("8"); assert("8"@ =~= seq![spec_digit(8u8)]); }
            "8"
        },
        9 => {
            proof { reveal_strlit("9"); assert("9"@ =~= seq![spec_digit(9u8)]); }
            "9"
        },
        10 => {
            proof { reveal_strlit("a"); assert("a"@ =~= seq![spec_digit(10u8)]); }
            "a"
        },
        11 => {
            proof { reveal_strlit("b"); assert("b"@ =~= seq![spec_digit(11u8)]); }
            "b"
        },
        12 => {
            proof { reveal_strlit("c"); assert("c"@ =~= seq![spec_digit(12u8)]); }
            "c"
        },
        13 => {
            proof { reveal_strlit("d"); assert("d"@ =~= seq![spec_digit(13u8)]); }
            "d"
        },
        14 => {
            proof { reveal_strlit("e"); assert("e"@ =~= seq![spec_digit(14u8)]); }
            "e"
        },
        _ => {
            proof { reveal_strlit("f"); assert("f"@ =~= seq![spec_digit(15u8)]); }
            "f"
        },
    }
}

/// The `i`-th nibble of `x`, most significant first, for `0 <= i < 16`.
pub open spec fn spec_nibble(x: u64, i: int) -> u8 {
    ((x >> (((15 - i) * 4) as u64)) & 0xf) as u8
}

/// The sixteen lowercase hexadecimal digits of `x`, zero-padded, most
/// significant first.
pub open spec fn spec_hex16(x: u64) -> Seq<char> {
    Seq::new(16, |i: int| spec_digit(spec_nibble(x, i)))
}

/// Appends the sixteen-digit zero-padded lowercase hexadecimal form of `x`.
pub fn push_hex16(out: &mut String, x: u64)
    ensures
        final(out)@ == old(out)@ + spec_hex16(x),
{
    let mut i: usize = 0;
    while i < 16
        invariant
            i <= 16,
            out@ == old(out)@ + spec_hex16(x).take(i as int),
        decreases 16 - i,
    {
        let sh: u64 = 60 - 4 * (i as u64);
        assert((x >> sh) & 0xf < 16) by (bit_vector);
        let d: u8 = ((x >> sh) & 0xf) as u8;
        proof {
            assert(d == spec_nibble(x, i as int));
        }
        out.append(digit_str(d));
        i = i + 1;
        proof {
            assert(old(out)@ + spec_hex16(x).take(i as int) =~= (old(out)@ + spec_hex16(x).take(
                i - 1,
            )) + seq![spec_digit(spec_nibble(x, i - 1))]);
        }
    }
    proof {
        assert(spec_hex16(x).take(16) =~= spec_hex16(x));
    }
}

/// The decimal digits of `x`, no leading zeros.
pub open spec fn spec_decimal(x: nat) -> Seq<char>
    decreases x,
{
    if x < 10 {
        seq![spec_digit(x as u8)]
    } else {
        spec_decimal(x / 10) + seq![spec_digit((x % 10) as u8)]
    }
}

/// Appends the decimal form of `x`, no leading zeros.
pub fn push_decimal(out: &mut String, x: u64)
    ensures
        final(out)@ == old(out)@ + spec_decimal(x as nat),
    decreases x,
{
    if x < 10 {
        out.append(digit_str(x as u8));
    } else {
        push_decimal(out, x / 10);
        out.append(digit_str((x % 10) as u8));
        proof {
            assert(old(out)@ + spec_decimal(x as nat) =~= (old(out)@ + spec_decimal(
                (x / 10) as nat,
            )) + seq![spec_digit((x % 10) as u8)]);
        }
    }
}

/// The two lowercase hexadecimal digits of one byte, high nibble first.
pub open spec fn spec_hex_pair(b: u8) -> Seq<char> {
    seq![spec_digit(b / 16), spec_digit(b % 16)]
}

/// The lowercase hexadecimal form of a byte string, byte by byte, in order.
pub open spec fn spec_hex_lower(s: Seq<u8>) -> Seq<char>
    decreases s.len(),
{
    if s.len() == 0 {
        Seq::empty()
    } else {
        spec_hex_lower(s.drop_last()) + spec_hex_pair(s.last())
    }
}

/// Relies on hex::encode (hex 0.4): for each input byte, in order, it emits
/// the lowercase digits of the high then the low nibble, drawn from
/// "0123456789abcdef".
#[verifier::external_body]
pub(crate) fn hex_lower(b: &[u8]) -> (r: String)
    ensures
        r@ == spec_hex_lower(b@),
{
    hex::encode(b)
}

} // verus!
