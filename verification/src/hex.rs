//! Lowercase hexadecimal rendering of digests, used when the score
//! ledger is encoded for clients.

use vstd::prelude::*;
use vstd::string::StringExecFns;

verus! {

/// The lowercase hexadecimal digit character for one value below 16.
pub open spec fn hex_char(n: u8) -> char {
    if n == 0 {
        '0'
    } else if n == 1 {
        '1'
    } else if n == 2 {
        '2'
    } else if n == 3 {
        '3'
    } else if n == 4 {
        '4'
    } else if n == 5 {
        '5'
    } else if n == 6 {
        '6'
    } else if n == 7 {
        '7'
    } else if n == 8 {
        '8'
    } else if n == 9 {
        '9'
    } else if n == 10 {
        'a'
    } else if n == 11 {
        'b'
    } else if n == 12 {
        'c'
    } else if n == 13 {
        'd'
    } else if n == 14 {
        'e'
    } else {
        'f'
    }
}

/// Lowercase hexadecimal rendering of a byte sequence: two digit
/// characters per byte, high nibble first.
pub open spec fn hex_of(s: Seq<u8>) -> Seq<char> {
    Seq::new(
        s.len() * 2,
        |i: int|
            if i % 2 == 0 {
                hex_char(s[i / 2] / 16)
            } else {
                hex_char(s[i / 2] % 16)
            },
    )
}

/// Holds of the characters a hexadecimal rendering may contain.
pub open spec fn is_lower_hex(c: char) -> bool {
    ||| c == '0'
    ||| c == '1'
    ||| c == '2'
    ||| c == '3'
    ||| c == '4'
    ||| c == '5'
    ||| c == '6'
    ||| c == '7'
    ||| c == '8'
    ||| c == '9'
    ||| c == 'a'
    ||| c == 'b'
    ||| c == 'c'
    ||| c == 'd'
    ||| c == 'e'
    ||| c == 'f'
}

/// Identity hashes are rendered as lowercase hexadecimal: every
/// character of a rendering is one of the sixteen lowercase digits.
pub proof fn lemma_hex_lowercase(s: Seq<u8>)
    ensures
        forall|i: int| 0 <= i < hex_of(s).len() ==> is_lower_hex(#[trigger] hex_of(s)[i]),
{
    assert forall|i: int| 0 <= i < hex_of(s).len() implies is_lower_hex(hex_of(s)[i]) by {
        if i % 2 == 0 {
            assert(s[i / 2] / 16 < 16);
        } else {
            assert(s[i / 2] % 16 < 16);
        }
    }
}

/// Appends the digit character for one value below 16.
fn push_hex_digit(out: &mut String, nibble: u8)
    requires
        nibble < 16,
    ensures
        final(out)@ == old(out)@.push(hex_char(nibble)),
{
    proof {
        reveal_strlit("0");
        reveal_strlit("1");
        reveal_strlit("2");
        reveal_strlit("3");
        reveal_strlit("4");
        reveal_strlit("5");
        reveal_strlit("6");
        reveal_strlit("7");
        reveal_strlit("8");
        reveal_strlit("9");
        reveal_strlit("a");
        reveal_strlit("b");
        reveal_strlit("c");
        reveal_strlit("d");
        reveal_strlit("e");
        reveal_strlit("f");
    }
    if nibble == 0 {
        out.append("0");
    } else if nibble == 1 {
        out.append("1");
    } else if nibble == 2 {
        out.append("2");
    } else if nibble == 3 {
        out.append("3");
    } else if nibble == 4 {
        out.append("4");
    } else if nibble == 5 {
        out.append("5");
    } else if nibble == 6 {
        out.append("6");
    } else if nibble == 7 {
        out.append("7");
    } else if nibble == 8 {
        out.append("8");
    } else if nibble == 9 {
        out.append("9");
    } else if nibble == 10 {
        out.append("a");
    } else if nibble == 11 {
        out.append("b");
    } else if nibble == 12 {
        out.append("c");
    } else if nibble == 13 {
        out.append("d");
    } else if nibble == 14 {
        out.append("e");
    } else {
        out.append("f");
    }
    proof {
        assert(out@ =~= old(out)@.push(hex_char(nibble)));
    }
}

/// Renders a byte vector as lowercase hexadecimal, two digits per byte.
pub fn to_hex(bytes: &Vec<u8>) -> (r: String)
    ensures
        r@ == hex_of(bytes@),
{
    let mut out = String::new();
    let mut i: usize = 0;
    while i < bytes.len()
        invariant
            i <= bytes@.len(),
            out@ == hex_of(bytes@.take(i as int)),
        decreases bytes@.len() - i,
    {
        let b = bytes[i];
        push_hex_digit(&mut out, b / 16);
        push_hex_digit(&mut out, b % 16);
        proof {
            assert(out@ =~= hex_of(bytes@.take(i + 1)));
        }
        i += 1;
    }
    proof {
        assert(bytes@.take(bytes@.len() as int) =~= bytes@);
    }
    out
}

} // verus!
