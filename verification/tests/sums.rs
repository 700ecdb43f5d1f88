use tx_engine::amount::{Amount, MAX_MANTISSA};

/// A small generator of numbers that is the same on every run.
struct Numbers(u64);

impl Numbers {
    fn next(&mut self) -> u64 {
        self.0 ^= self.0 << 13;
        self.0 ^= self.0 >> 7;
        self.0 ^= self.0 << 17;
        self.0
    }

    fn wide_amount(&mut self, scales: u64) -> Amount {
        let drop = self.next() % 3;
        let wide = ((self.next() as u128) << 64) | self.next() as u128;
        let magnitude = ((wide >> 32) >> drop) as i128;
        let mantissa = if self.next() % 2 == 0 {
            magnitude
        } else {
            -magnitude
        };
        Amount::from_parts(mantissa, (self.next() % scales) as u32).unwrap()
    }

    fn amount(&mut self) -> Amount {
        let bits = self.next() % 97;
        let wide = ((self.next() as u128) << 64) | self.next() as u128;
        let magnitude = if bits == 0 {
            0
        } else {
            (wide >> (128 - bits)) as i128
        };
        let mantissa = if self.next() % 2 == 0 {
            magnitude
        } else {
            -magnitude
        };
        let scale = (self.next() % 29) as u32;
        Amount::from_parts(mantissa, scale).unwrap()
    }
}

fn power_of_ten(exponent: u32) -> Option<i128> {
    10i128.checked_pow(exponent)
}

/// The mantissa of the sum or difference at the larger scale, where it fits in 96 bits.
fn at_larger_scale(a: Amount, b: Amount, subtract: bool) -> Option<(i128, u32)> {
    let scale = a.scale().max(b.scale());
    let left = a.mantissa().checked_mul(power_of_ten(scale - a.scale())?)?;
    let right = b.mantissa().checked_mul(power_of_ten(scale - b.scale())?)?;
    let mantissa = if subtract {
        left.checked_sub(right)?
    } else {
        left.checked_add(right)?
    };
    if -MAX_MANTISSA <= mantissa && mantissa <= MAX_MANTISSA {
        Some((mantissa, scale))
    } else {
        None
    }
}

fn expected(a: Amount, b: Amount, subtract: bool) -> Option<(i128, u32)> {
    if a.mantissa() == 0 {
        let mantissa = if subtract { -b.mantissa() } else { b.mantissa() };
        Some((mantissa, b.scale()))
    } else if b.mantissa() == 0 {
        Some((a.mantissa(), a.scale()))
    } else {
        at_larger_scale(a, b, subtract)
    }
}

/// Whether the sum or difference lies above the largest (`Some(true)`) or below the smallest
/// (`Some(false)`) representable number.
fn beyond(a: Amount, b: Amount, subtract: bool) -> Option<bool> {
    let scale = a.scale().max(b.scale());
    let unit = power_of_ten(scale).unwrap();
    let whole_fraction = |x: Amount| {
        let own = power_of_ten(x.scale()).unwrap();
        let lift = power_of_ten(scale - x.scale()).unwrap();
        (x.mantissa() / own, (x.mantissa() % own) * lift)
    };
    let (a_whole, a_fraction) = whole_fraction(a);
    let (b_whole, b_fraction) = whole_fraction(b);
    let (whole, fraction) = if subtract {
        (a_whole - b_whole, a_fraction - b_fraction)
    } else {
        (a_whole + b_whole, a_fraction + b_fraction)
    };
    let whole = whole + fraction.div_euclid(unit);
    let fraction = fraction.rem_euclid(unit);
    if whole > MAX_MANTISSA || (whole == MAX_MANTISSA && fraction > 0) {
        Some(true)
    } else if whole < -MAX_MANTISSA {
        Some(false)
    } else {
        None
    }
}

fn saturated(above: bool) -> (i128, u32) {
    if above {
        (MAX_MANTISSA, 0)
    } else {
        (-MAX_MANTISSA, 0)
    }
}

#[test]
fn sums_beyond_the_range_saturate() {
    let mut numbers = Numbers(0x6A09_E667_F3BC_C909);
    let mut above = 0;
    let mut below = 0;
    for round in 0..60_000 {
        // small scales and wide mantissas are what overflows
        let a = numbers.wide_amount(3);
        let b = numbers.wide_amount(2);
        let subtract = round % 2 == 1;
        if expected(a, b, subtract).is_some() {
            continue;
        }
        let Some(side) = beyond(a, b, subtract) else {
            continue;
        };
        let result = if subtract {
            a.saturating_sub(b)
        } else {
            a.saturating_add(b)
        };
        assert_eq!(
            (result.mantissa(), result.scale()),
            saturated(side),
            "{:?} {:?} {}",
            a,
            b,
            subtract
        );
        if side {
            above += 1;
        } else {
            below += 1;
        }
    }
    assert!(above > 100, "{}", above);
    assert!(below > 100, "{}", below);
}

#[test]
fn sums_just_beyond_the_range_saturate() {
    let largest = Amount::from_parts(MAX_MANTISSA, 0).unwrap();
    let smallest = Amount::from_parts(-MAX_MANTISSA, 0).unwrap();
    for scale in 1..=28 {
        for mantissa in [1i64, 4, 5, 6, 9, 49, 50, 51, 99, 1_000_000_007] {
            let little = Amount::new(mantissa, scale);
            let negated = Amount::new(-mantissa, scale);
            assert_eq!(beyond(largest, little, false), Some(true));
            assert_eq!(largest.saturating_add(little), largest, "{:?}", little);
            let sum = largest.saturating_add(little);
            assert_eq!((sum.mantissa(), sum.scale()), (MAX_MANTISSA, 0));
            let sum = little.saturating_add(largest);
            assert_eq!((sum.mantissa(), sum.scale()), (MAX_MANTISSA, 0));
            let difference = largest.saturating_sub(negated);
            assert_eq!((difference.mantissa(), difference.scale()), (MAX_MANTISSA, 0));
            assert_eq!(beyond(smallest, little, true), Some(false));
            let difference = smallest.saturating_sub(little);
            assert_eq!((difference.mantissa(), difference.scale()), (-MAX_MANTISSA, 0));
            let difference = negated.saturating_sub(largest);
            assert_eq!((difference.mantissa(), difference.scale()), (-MAX_MANTISSA, 0));
            let sum = smallest.saturating_add(negated);
            assert_eq!((sum.mantissa(), sum.scale()), (-MAX_MANTISSA, 0));
            assert_eq!(sum, smallest);
        }
    }
}

#[test]
fn sums_are_exact_wherever_they_fit() {
    let mut numbers = Numbers(0x9E37_79B9_7F4A_7C15);
    let mut exact = 0;
    let mut inexact = 0;
    for _ in 0..40_000 {
        let a = numbers.amount();
        let b = numbers.amount();
        let sum = a.saturating_add(b);
        assert!(Amount::from_parts(sum.mantissa(), sum.scale()).is_some());
        match expected(a, b, false) {
            Some(parts) => {
                exact += 1;
                assert_eq!((sum.mantissa(), sum.scale()), parts, "{:?} + {:?}", a, b);
            }
            None => inexact += 1,
        }
    }
    assert!(exact > 5_000);
    assert!(inexact > 5_000);
}

#[test]
fn differences_are_exact_wherever_they_fit() {
    let mut numbers = Numbers(0x2545_F491_4F6C_DD1D);
    let mut exact = 0;
    let mut inexact = 0;
    for _ in 0..40_000 {
        let a = numbers.amount();
        let b = numbers.amount();
        let difference = a.saturating_sub(b);
        assert!(Amount::from_parts(difference.mantissa(), difference.scale()).is_some());
        match expected(a, b, true) {
            Some(parts) => {
                exact += 1;
                assert_eq!(
                    (difference.mantissa(), difference.scale()),
                    parts,
                    "{:?} - {:?}",
                    a,
                    b
                );
            }
            None => inexact += 1,
        }
    }
    assert!(exact > 5_000);
    assert!(inexact > 5_000);
}

#[test]
fn nearby_amounts_cancel_exactly() {
    let mut numbers = Numbers(0xD1B5_4A32_D192_ED03);
    for _ in 0..20_000 {
        let a = numbers.amount();
        let nudge = (numbers.next() % 1000) as i128 - 500;
        let Some(b) = Amount::from_parts(a.mantissa() + nudge, a.scale()) else {
            continue;
        };
        let difference = a.saturating_sub(b);
        assert_eq!((difference.mantissa(), difference.scale()), (-nudge, a.scale()));
        let negated = Amount::from_parts(-b.mantissa(), b.scale()).unwrap();
        let sum = a.saturating_add(negated);
        if a.mantissa() != 0 && b.mantissa() != 0 {
            assert_eq!((sum.mantissa(), sum.scale()), (-nudge, a.scale()));
        }
    }
}

#[test]
fn comparison_agrees_with_exact_differences() {
    let mut numbers = Numbers(0x94D0_49BB_1331_11EB);
    let mut compared = 0;
    for _ in 0..40_000 {
        let a = numbers.amount();
        let b = numbers.amount();
        let scale = a.scale().max(b.scale());
        let left = power_of_ten(scale - a.scale()).and_then(|p| a.mantissa().checked_mul(p));
        let right = power_of_ten(scale - b.scale()).and_then(|p| b.mantissa().checked_mul(p));
        if let (Some(left), Some(right)) = (left, right) {
            compared += 1;
            assert_eq!(a.less_than(&b), left < right, "{:?} < {:?}", a, b);
            assert_eq!(a == b, left == right, "{:?} == {:?}", a, b);
        }
        assert!(!a.less_than(&a));
        assert!(a == a);
    }
    assert!(compared > 5_000);
}

#[test]
fn rounding_is_half_to_even_on_the_magnitude() {
    let mut numbers = Numbers(0xBF58_476D_1CE4_E5B9);
    for _ in 0..40_000 {
        let a = numbers.amount();
        let dp = (numbers.next() % 30) as u32;
        let rounded = a.round_dp(dp);
        if a.scale() <= dp {
            assert_eq!((rounded.mantissa(), rounded.scale()), (a.mantissa(), a.scale()));
            continue;
        }
        let divisor = power_of_ten(a.scale() - dp).unwrap();
        let magnitude = a.mantissa().abs();
        let quotient = magnitude / divisor;
        let remainder = magnitude % divisor;
        let up = 2 * remainder > divisor || (2 * remainder == divisor && quotient % 2 == 1);
        let nearest = if up { quotient + 1 } else { quotient };
        let mantissa = if a.mantissa() < 0 { -nearest } else { nearest };
        assert_eq!((rounded.mantissa(), rounded.scale()), (mantissa, dp), "{:?}", a);
    }
}
