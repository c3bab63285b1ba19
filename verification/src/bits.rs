//! Binary digits for diagnostics.

use vstd::prelude::*;
use vstd::string::*;

verus! {

/// The lowest `width` binary digits of `value` as characters, the most
/// significant first.
pub open spec fn binary_digits(value: nat, width: nat) -> Seq<char>
    decreases width,
{
    if width == 0 {
        Seq::<char>::empty()
    } else {
        binary_digits(value / 2, (width - 1) as nat).push(
            if value % 2 == 1 {
                '1'
            } else {
                '0'
            },
        )
    }
}

/// Renders the lowest `count` bits of `num` as a string of exactly
/// `count` characters `0` and `1`, the most significant bit first.
pub fn get_bits(num: u16, count: usize) -> (text: String)
    requires
        1 <= count <= 16,
    ensures
        text@ == binary_digits(num as nat, count as nat),
        text@.len() == count,
{
    let mut text: String = String::new();
    let mut k: usize = count;
    while k > 0
        invariant
            k <= count <= 16,
            text@.len() == count - k,
            k < 16 ==> text@ == binary_digits((num >> (k as u16)) as nat, (count - k) as nat),
        decreases k,
    {
        k = k - 1;
        let shift: u16 = k as u16;
        let shifted: u16 = num >> shift;
        proof {
            if shift < 15 {
                let next: u16 = (shift + 1) as u16;
                assert(shifted / 2 == num >> next) by (bit_vector)
                    requires
                        shift < 15,
                        next == shift + 1,
                        shifted == num >> shift,
                ;
            }
            reveal_strlit("1");
            reveal_strlit("0");
        }
        let ghost before = text@;
        if shifted % 2 == 1 {
            text.append("1");
            assert(text@ =~= before.push('1'));
        } else {
            text.append("0");
            assert(text@ =~= before.push('0'));
        }
        proof {
            let width: nat = (count - k - 1) as nat;
            assert(before == binary_digits((shifted / 2) as nat, width)) by {
                if width == 0 {
                    assert(before =~= Seq::<char>::empty());
                }
            }
            assert((count - k) as nat - 1 == width);
            assert((shifted as nat) / 2 == (shifted / 2) as nat);
        }
    }
    assert(num >> 0u16 == num) by (bit_vector);
    text
}

} // verus!
