//! Verified decimal rendering of register values, used by the
//! `out_number` instruction.

use vstd::prelude::*;

use crate::semantics::as_signed;
use crate::semantics::dec_digits;
use crate::semantics::digit_char;
use crate::semantics::int_decimal;

verus! {

/// Append the decimal digits of `n`, most significant first, to `fd`.
#[verifier::loop_isolation(false)]
pub fn push_decimal_u32(n: u32, fd: &mut Vec<char>)
    ensures
        final(fd)@ == old(fd)@ + dec_digits(n as nat),
{
    let mut tmp: Vec<char> = Vec::new();
    let mut rem: u32 = n;
    proof {
        assert(dec_digits(n as nat) =~= dec_digits(rem as nat) + tmp@.reverse());
    }
    while rem >= 10
        invariant
            dec_digits(n as nat) == dec_digits(rem as nat) + tmp@.reverse(),
        decreases rem,
    {
        let ghost rem0 = rem;
        let ghost tmp0 = tmp@;
        let d: u32 = rem % 10;
        let ch: char = (48 + d) as u8 as char;
        tmp.push(ch);
        rem = rem / 10;
        proof {
            assert(ch == digit_char((rem0 % 10) as int));
            assert(dec_digits(rem0 as nat) == dec_digits(rem as nat) + seq![
                digit_char((rem0 % 10) as int),
            ]);
            assert(tmp@.reverse() =~= seq![ch] + tmp0.reverse());
            assert(dec_digits(rem as nat) + tmp@.reverse() =~= dec_digits(rem0 as nat)
                + tmp0.reverse());
        }
    }
    let ghost tmp1 = tmp@;
    let ch: char = (48 + rem) as u8 as char;
    tmp.push(ch);
    proof {
        assert(dec_digits(rem as nat) =~= seq![digit_char(rem as int)]);
        assert(tmp@.reverse() =~= seq![ch] + tmp1.reverse());
        assert(tmp@.reverse() =~= dec_digits(n as nat));
    }
    let mut k: usize = tmp.len();
    while k > 0
        invariant
            k <= tmp@.len(),
            tmp@.reverse() == dec_digits(n as nat),
            fd@ == old(fd)@ + tmp@.reverse().subrange(0, tmp@.len() - k),
        decreases k,
    {
        let ghost fd0 = fd@;
        let c = tmp[k - 1];
        fd.push(c);
        k -= 1;
        proof {
            assert(c == tmp@.reverse()[tmp@.len() - 1 - (k as int)]);
            assert(fd@ =~= old(fd)@ + tmp@.reverse().subrange(0, tmp@.len() - k));
        }
    }
    proof {
        assert(tmp@.reverse().subrange(0, tmp@.len() as int) =~= tmp@.reverse());
        assert(fd@ =~= old(fd)@ + dec_digits(n as nat));
    }
}

/// Append the decimal rendering of `v` reinterpreted as a signed 32-bit
/// integer: a minus sign for negative values, then the digits of the
/// magnitude.
pub fn push_decimal_signed(v: u32, fd: &mut Vec<char>)
    ensures
        final(fd)@ == old(fd)@ + int_decimal(as_signed(v)),
{
    if v < 0x8000_0000 {
        push_decimal_u32(v, fd);
    } else {
        let ghost fd0 = fd@;
        fd.push('-');
        let mag: u32 = (0x1_0000_0000u64 - v as u64) as u32;
        push_decimal_u32(mag, fd);
        proof {
            assert(mag == -as_signed(v));
            assert(fd@ =~= fd0 + int_decimal(as_signed(v)));
        }
    }
}

} // verus!
