//! Decimal numerals for 256-bit quantities: the token URI appends the
//! decimal form of the token id to the base template.

use vstd::prelude::*;
use vstd::string::StringExecFns;
use crate::quantity::U256;

verus! {

/// One above the largest value a limb can hold (2^64).
pub open spec fn half_limb_bound() -> nat {
    0x1_0000_0000_0000_0000nat
}

/// The character for one decimal digit.
pub open spec fn digit_char(d: nat) -> char {
    if d == 0 {
        '0'
    } else if d == 1 {
        '1'
    } else if d == 2 {
        '2'
    } else if d == 3 {
        '3'
    } else if d == 4 {
        '4'
    } else if d == 5 {
        '5'
    } else if d == 6 {
        '6'
    } else if d == 7 {
        '7'
    } else if d == 8 {
        '8'
    } else {
        '9'
    }
}

/// The decimal numeral of a number, most significant digit first, with no
/// leading zeros (and "0" itself for zero).
pub open spec fn dec_str(n: nat) -> Seq<char>
    decreases n,
{
    if n < 10 {
        seq![digit_char(n)]
    } else {
        dec_str(n / 10).push(digit_char(n % 10))
    }
}

impl U256 {
    /// Division by ten with remainder, limb by limb.
    fn divmod10(self) -> (r: (U256, u64))
        ensures
            r.0.as_nat() * 10 + r.1 == self.as_nat(),
            r.1 < 10,
            self.as_nat() > 0 ==> r.0.as_nat() < self.as_nat(),
    {
        let a3: u64 = (self.hi / 0x1_0000_0000_0000_0000u128) as u64;
        let a2: u64 = (self.hi % 0x1_0000_0000_0000_0000u128) as u64;
        let a1: u64 = (self.lo / 0x1_0000_0000_0000_0000u128) as u64;
        let a0: u64 = (self.lo % 0x1_0000_0000_0000_0000u128) as u64;
        let q3: u64 = a3 / 10;
        let r3: u64 = a3 % 10;
        let c2: u128 = (r3 as u128) * 0x1_0000_0000_0000_0000u128 + (a2 as u128);
        let q2: u64 = (c2 / 10) as u64;
        let r2: u64 = (c2 % 10) as u64;
        let c1: u128 = (r2 as u128) * 0x1_0000_0000_0000_0000u128 + (a1 as u128);
        let q1: u64 = (c1 / 10) as u64;
        let r1: u64 = (c1 % 10) as u64;
        let c0: u128 = (r1 as u128) * 0x1_0000_0000_0000_0000u128 + (a0 as u128);
        let q0: u64 = (c0 / 10) as u64;
        let r0: u64 = (c0 % 10) as u64;
        let q = U256 {
            hi: (q3 as u128) * 0x1_0000_0000_0000_0000u128 + (q2 as u128),
            lo: (q1 as u128) * 0x1_0000_0000_0000_0000u128 + (q0 as u128),
        };
        proof {
            let p64 = half_limb_bound();
            assert(self.as_nat() == (a3 * p64 * p64 * p64 + a2 * p64 * p64 + a1 * p64 + a0));
            assert(q.as_nat() == (q3 * p64 * p64 * p64 + q2 * p64 * p64 + q1 * p64 + q0));
            assert(a3 == 10 * q3 + r3);
            assert(c2 == 10 * q2 + r2);
            assert(c1 == 10 * q1 + r1);
            assert(c0 == 10 * q0 + r0);
            assert(q.as_nat() * 10 + r0 == self.as_nat()) by {
                assert(a3 * p64 * p64 * p64 == (10 * q3 + r3) * p64 * p64 * p64);
                assert(a2 * p64 * p64 == (c2 - r3 * p64) * p64 * p64);
                assert(a1 * p64 == (c1 - r2 * p64) * p64);
                assert(a0 == c0 - r1 * p64);
            }
        }
        (q, r0)
    }
}

/// Append the decimal numeral of a positive quantity to a string.
fn push_decimal(s: &mut String, x: U256)
    requires
        x.as_nat() > 0,
    ensures
        final(s)@ == old(s)@ + dec_str(x.as_nat()),
    decreases x.as_nat(),
{
    let (q, r) = x.divmod10();
    proof {
        vstd::arithmetic::div_mod::lemma_fundamental_div_mod_converse(
            x.as_nat() as int,
            10,
            q.as_nat() as int,
            r as int,
        );
    }
    if !q.is_zero() {
        push_decimal(s, q);
    }
    let ghost mid = s@;
    match r {
        0 => s.append("0"),
        1 => s.append("1"),
        2 => s.append("2"),
        3 => s.append("3"),
        4 => s.append("4"),
        5 => s.append("5"),
        6 => s.append("6"),
        7 => s.append("7"),
        8 => s.append("8"),
        _ => s.append("9"),
    }
    proof {
        reveal_strlit("0");
        reveal_strlit("1");
        reveal_strlit("2");
        reveal_strlit("3");
        reveal_strlit("4");
        reveal_strlit("5");
        reveal_strlit("6");
        reveal_strlit("7");
        reveal_strlit("8");
        reveal_strlit("9");
        assert(s@ =~= mid.push(digit_char(r as nat)));
        if q.as_nat() == 0 {
            assert(dec_str(x.as_nat()) =~= seq![digit_char(x.as_nat())]);
            assert(s@ =~= old(s)@ + dec_str(x.as_nat()));
        } else {
            assert(dec_str(x.as_nat()) == dec_str(x.as_nat() / 10).push(
                digit_char(x.as_nat() % 10),
            ));
            assert(s@ =~= old(s)@ + dec_str(x.as_nat()));
        }
    }
}

/// The decimal numeral of a quantity, as a string.
pub fn decimal_string(x: U256) -> (r: String)
    ensures
        r@ == dec_str(x.as_nat()),
{
    let mut s = String::new();
    if x.is_zero() {
        s.append("0");
        proof {
            reveal_strlit("0");
            assert(s@ =~= dec_str(0));
        }
    } else {
        push_decimal(&mut s, x);
        proof {
            assert(s@ =~= dec_str(x.as_nat()));
        }
    }
    s
}

} // verus!
