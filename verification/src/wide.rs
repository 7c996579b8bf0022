//! Quotients whose numerator does not fit in 128 bits, computed digit by digit
//! so that only the quotient itself has to fit.

use vstd::arithmetic::div_mod::{
    lemma_div_denominator, lemma_div_is_ordered, lemma_fundamental_div_mod,
    lemma_fundamental_div_mod_converse,
};
use vstd::arithmetic::power::{
    lemma_pow0, lemma_pow1, lemma_pow_adds, lemma_pow_increases, lemma_pow_positive, pow,
};
use vstd::prelude::*;

verus! {

/// Ten to the power of `places`.
pub open spec fn ten_to(places: nat) -> nat {
    pow(10, places) as nat
}

proof fn lemma_ten_to_next(places: nat)
    ensures
        ten_to(places) > 0,
        ten_to(places + 1) == ten_to(places) * 10,
        ten_to(0) == 1,
{
    lemma_pow_positive(10, places);
    lemma_pow_positive(10, places + 1);
    lemma_pow_adds(10, places, 1);
    lemma_pow1(10);
    lemma_pow0(10);
}

/// Ten times `rest` as a multiple of `modulus` and what is left over.
fn times_ten(rest: u128, modulus: u128) -> (split: (u128, u128))
    requires
        rest < modulus,
    ensures
        rest * 10 == split.0 * modulus + split.1,
        split.0 <= 9,
        split.1 < modulus,
{
    let mut digit: u128 = 0;
    let mut left: u128 = 0;
    let mut count: u128 = 0;
    assert(0 * rest == 0 && 0 * modulus == 0) by (nonlinear_arith);
    while count < 10
        invariant
            count <= 10,
            rest < modulus,
            digit <= count,
            left < modulus,
            rest * count == digit * modulus + left,
        decreases 10 - count,
    {
        assert(rest * (count + 1) == rest * count + rest) by (nonlinear_arith);
        assert((digit + 1) * modulus == digit * modulus + modulus) by (nonlinear_arith);
        if left >= modulus - rest {
            left = left - (modulus - rest);
            digit = digit + 1;
        } else {
            left = left + rest;
        }
        count = count + 1;
    }
    assert(digit <= 9) by {
        if digit >= 10 {
            assert(digit * modulus >= 10 * modulus) by (nonlinear_arith)
                requires
                    digit >= 10,
            ;
        }
    }
    (digit, left)
}

/// `value` times ten to the power of `places`, over `divisor`, rounded down.
pub open spec fn scaled_up_over(value: nat, places: nat, divisor: nat) -> nat {
    value * ten_to(places) / divisor
}

/// Computes `value` times ten to the power of `places`, over `divisor`, rounded
/// down. There is no result where the divisor is zero or the quotient leaves 128
/// bits; the product itself may be as large as it likes.
pub fn scale_up_over(value: u128, places: u8, divisor: u128) -> (quotient: Option<u128>)
    ensures
        quotient is Some <==> divisor != 0 && scaled_up_over(
            value as nat,
            places as nat,
            divisor as nat,
        ) <= u128::MAX,
        quotient matches Some(q) ==> q == scaled_up_over(value as nat, places as nat, divisor as nat),
{
    if divisor == 0 {
        return None;
    }
    let mut whole: u128 = value / divisor;
    let mut rest: u128 = value % divisor;
    let mut place: u8 = 0;
    proof {
        lemma_ten_to_next(0);
        lemma_fundamental_div_mod(value as int, divisor as int);
        assert(divisor * (value / divisor) == (value / divisor) * divisor) by (nonlinear_arith);
        assert(value * 1 == value) by (nonlinear_arith);
    }
    while place < places
        invariant
            place <= places,
            divisor > 0,
            rest < divisor,
            value * ten_to(place as nat) == whole * divisor + rest,
        decreases places - place,
    {
        let (digit, left) = times_ten(rest, divisor);
        proof {
            lemma_ten_to_next(place as nat);
            let before = ten_to(place as nat);
            let next = whole * 10 + digit;
            assert(value * (before * 10) == (value * before) * 10) by (nonlinear_arith);
            assert(next * divisor == (whole * divisor) * 10 + digit * divisor) by (nonlinear_arith)
                requires
                    next == whole * 10 + digit,
            ;
            assert(value * ten_to((place + 1) as nat) == next * divisor + left);
            lemma_fundamental_div_mod_converse(
                (value * ten_to((place + 1) as nat)) as int,
                divisor as int,
                next as int,
                left as int,
            );
            if next > u128::MAX {
                lemma_pow_positive(10, (place + 1) as nat);
                lemma_pow_positive(10, places as nat);
                lemma_pow_increases(10, (place + 1) as nat, places as nat);
                assert(value * ten_to((place + 1) as nat) <= value * ten_to(places as nat))
                    by (nonlinear_arith)
                    requires
                        ten_to((place + 1) as nat) <= ten_to(places as nat),
                ;
                lemma_div_is_ordered(
                    (value * ten_to((place + 1) as nat)) as int,
                    (value * ten_to(places as nat)) as int,
                    divisor as int,
                );
            }
        }
        let tenfold = match whole.checked_mul(10) {
            Some(tenfold) => tenfold,
            None => { return None; },
        };
        whole = match tenfold.checked_add(digit) {
            Some(sum) => sum,
            None => { return None; },
        };
        rest = left;
        place = place + 1;
    }
    proof {
        lemma_fundamental_div_mod_converse(
            (value * ten_to(places as nat)) as int,
            divisor as int,
            whole as int,
            rest as int,
        );
    }
    Some(whole)
}

/// The product of `left` and `right` over ten to the power of `places`, rounded
/// down.
pub open spec fn scaled_down_product(left: nat, right: nat, places: nat) -> nat {
    left * right / ten_to(places)
}

/// Computes the product of `left` and `right` over ten to the power of
/// `places`, rounded down. There is no result where the quotient leaves 128
/// bits; the product itself may be as large as it likes.
pub fn scale_down_product(left: u128, right: u128, places: u8) -> (quotient: Option<u128>)
    ensures
        quotient is Some <==> scaled_down_product(left as nat, right as nat, places as nat)
            <= u128::MAX,
        quotient matches Some(q) ==> q == scaled_down_product(
            left as nat,
            right as nat,
            places as nat,
        ),
{
    let tenth: u128 = left / 10;
    let unit: u128 = left % 10;
    let mut upper: u128 = right;
    let mut carry: u128 = 0;
    let mut place: u8 = 0;
    proof {
        lemma_ten_to_next(0);
    }
    while place < places
        invariant
            place <= places,
            left == tenth * 10 + unit,
            unit <= 9,
            carry <= left,
            upper == right as nat / ten_to(place as nat),
            (left * right) / (ten_to(place as nat) as int) == left * upper + carry,
        decreases places - place,
    {
        let digit: u128 = upper % 10;
        let rest: u128 = upper / 10;
        proof {
            lemma_ten_to_next(place as nat);
            let before = ten_to(place as nat);
            assert(left * right >= 0) by (nonlinear_arith);
            lemma_div_denominator(left * right, before as int, 10);
            lemma_div_denominator(right as int, before as int, 10);
            assert(left * upper == (left * rest) * 10 + left * digit) by (nonlinear_arith)
                requires
                    upper == rest * 10 + digit,
            ;
            assert(left * digit == (tenth * digit) * 10 + unit * digit) by (nonlinear_arith)
                requires
                    left == tenth * 10 + unit,
            ;
            assert(left * digit <= left * 9) by (nonlinear_arith)
                requires
                    digit <= 9,
            ;
            assert(unit * digit <= 81) by (nonlinear_arith)
                requires
                    unit <= 9,
                    digit <= 9,
            ;
            assert(tenth * digit >= 0 && left * rest >= 0) by (nonlinear_arith);
        }
        carry = tenth * digit + carry / 10 + (unit * digit + carry % 10) / 10;
        upper = rest;
        place = place + 1;
    }
    match left.checked_mul(upper) {
        Some(product) => product.checked_add(carry),
        None => None,
    }
}

} // verus!
