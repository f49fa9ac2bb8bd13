//! Building the read path's error messages: decimal and hexadecimal
//! renderings, proved exact, over two trusted `String` operations.

use vstd::prelude::*;

verus! {

/// The character of a decimal digit.
pub open spec fn digit_char(d: int) -> char {
    ((48 + d) as u8) as char
}

/// The decimal rendering of `n`, most significant digit first.
pub open spec fn dec_chars(n: int) -> Seq<char>
    decreases n,
{
    if n < 10 {
        seq![digit_char(n)]
    } else {
        dec_chars(n / 10).push(digit_char(n % 10))
    }
}

/// The character of a hexadecimal digit.
pub open spec fn nibble_char(d: int) -> char {
    if d < 10 {
        ((48 + d) as u8) as char
    } else {
        ((87 + d) as u8) as char
    }
}

/// The sixteen hexadecimal digits of a 64-bit word, most significant first.
pub open spec fn hex_chars(w: u64) -> Seq<char> {
    Seq::new(16, |i: int| nibble_char(((w >> (((15 - i) * 4) as u64)) & 0xf) as int))
}

/// Relies on `String::push`: appends one character.
#[verifier::external_body]
pub fn string_push(s: &mut String, c: char)
    ensures
        final(s)@ == old(s)@.push(c),
{
    s.push(c)
}

/// Relies on `String::push_str`: appends a string slice.
#[verifier::external_body]
pub fn string_push_str(s: &mut String, t: &str)
    ensures
        final(s)@ == old(s)@ + t@,
{
    s.push_str(t)
}

/// Append the decimal rendering of `n`.
pub fn push_decimal(s: &mut String, n: u64)
    ensures
        final(s)@ == old(s)@ + dec_chars(n as int),
    decreases n,
{
    if n >= 10 {
        push_decimal(s, n / 10);
    }
    let d: u8 = (n % 10) as u8 + 48;
    string_push(s, d as char);
    proof {
        assert(s@ =~= old(s)@ + dec_chars(n as int));
    }
}

/// Append the sixteen hexadecimal digits of `w`.
pub fn push_hex(s: &mut String, w: u64)
    ensures
        final(s)@ == old(s)@ + hex_chars(w),
{
    let mut j: usize = 0;
    proof {
        assert(s@ =~= old(s)@ + hex_chars(w).take(0));
    }
    while j < 16
        invariant
            j <= 16,
            s@ == old(s)@ + hex_chars(w).take(j as int),
        decreases 16 - j,
    {
        let shift: u64 = (15 - j as u64) * 4;
        let nibble: u64 = (w >> shift) & 0xf;
        proof {
            assert((w >> shift) & 0xf <= 0xf) by (bit_vector);
        }
        let c: u8 = if nibble < 10 {
            nibble as u8 + 48
        } else {
            nibble as u8 + 87
        };
        string_push(s, c as char);
        proof {
            assert(hex_chars(w)[j as int] == nibble_char(nibble as int));
            assert(s@ =~= old(s)@ + hex_chars(w).take(j as int + 1));
        }
        j = j + 1;
    }
    proof {
        assert(hex_chars(w).take(16) =~= hex_chars(w));
    }
}

} // verus!
