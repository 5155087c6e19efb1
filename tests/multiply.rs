use karatsuba::decimal::digit_count;
use karatsuba::multiply;
use num_bigint::BigInt;
use std::str::FromStr;

fn big(s: &str) -> BigInt {
    BigInt::from_str(s).unwrap()
}

fn check(x: &BigInt, y: &BigInt) {
    assert_eq!(multiply(x, y), x * y);
}

#[test]
fn test_small_case() {
    assert_eq!(
        multiply(&BigInt::from(1), &BigInt::from(2)),
        BigInt::from(2)
    );
}

#[test]
fn test_medium_case() {
    assert_eq!(
        multiply(&BigInt::from(5678), &BigInt::from(1234)),
        BigInt::from(7006652)
    );
}

#[test]
fn negative_operand() {
    assert_eq!(
        multiply(&BigInt::from(-5678), &BigInt::from(1234)),
        BigInt::from(-7006652)
    );
    assert_eq!(
        multiply(&BigInt::from(-5678), &BigInt::from(-1234)),
        BigInt::from(7006652)
    );
    assert_eq!(
        multiply(&BigInt::from(5678), &BigInt::from(-1234)),
        BigInt::from(-7006652)
    );
}

#[test]
fn thirty_digit_operands() {
    let x = big("123456789012345678901234567890");
    let y = big("987654321098765432109876543210");
    let expected = big("121932631137021795226185032733622923332237463801111263526900");
    assert_eq!(multiply(&x, &y), expected);
    check(&x, &y);
}

#[test]
fn zero_and_one() {
    let x = big("-31415926535897932384626433832795");
    assert_eq!(multiply(&x, &BigInt::from(0)), BigInt::from(0));
    assert_eq!(multiply(&BigInt::from(0), &x), BigInt::from(0));
    assert_eq!(multiply(&x, &BigInt::from(1)), x);
    assert_eq!(multiply(&BigInt::from(1), &x), x);
}

#[test]
fn operand_order_does_not_matter() {
    let pairs = [
        ("123456", "789"),
        ("-98765432123", "4567"),
        ("100025", "100003"),
        ("99", "123456789"),
    ];
    for (a, b) in pairs.iter() {
        let (x, y) = (big(a), big(b));
        assert_eq!(multiply(&x, &y), multiply(&y, &x));
    }
}

#[test]
fn threshold_boundary() {
    assert_eq!(multiply(&BigInt::from(99), &BigInt::from(12345)), BigInt::from(1222155));
    assert_eq!(multiply(&BigInt::from(100), &BigInt::from(12345)), BigInt::from(1234500));
    assert_eq!(multiply(&BigInt::from(-99), &BigInt::from(-12345)), BigInt::from(1222155));
    assert_eq!(multiply(&BigInt::from(-100), &BigInt::from(-12345)), BigInt::from(1234500));
    assert_eq!(multiply(&BigInt::from(100), &BigInt::from(100)), BigInt::from(10000));
}

#[test]
fn low_halves_with_leading_zeros() {
    assert_eq!(
        multiply(&BigInt::from(100025), &BigInt::from(100003)),
        BigInt::from(10002800075i64)
    );
    check(&big("1000000000000000000007"), &big("2000000000000000000000003"));
}

#[test]
fn odd_and_unequal_lengths() {
    assert_eq!(
        multiply(&BigInt::from(12345), &BigInt::from(1234)),
        BigInt::from(15233730)
    );
    assert_eq!(
        multiply(&BigInt::from(12345), &BigInt::from(12345)),
        BigInt::from(152399025)
    );
    check(&big("-123456789"), &big("987"));
}

#[test]
fn hundreds_of_digits() {
    let mut a = String::new();
    let mut b = String::from("-");
    for i in 0..700 {
        a.push(char::from(b'0' + ((i * 7 + 3) % 10) as u8));
        b.push(char::from(b'1' + ((i * 3 + 1) % 9) as u8));
    }
    let (x, y) = (big(&a), big(&b[..450]));
    check(&x, &y);
    check(&y, &x);
}

#[test]
fn digit_count_ignores_sign() {
    assert_eq!(digit_count(&BigInt::from(-12345)), 5);
    assert_eq!(digit_count(&BigInt::from(100)), 3);
    assert_eq!(digit_count(&BigInt::from(0)), 1);
}
