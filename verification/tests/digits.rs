use schema_diagnostics::digits::{number_of_digits, push_decimal};

#[test]
fn test_number_of_digits() {
    assert_eq!(1, number_of_digits(0));
    assert_eq!(1, number_of_digits(1));
    assert_eq!(1, number_of_digits(4));
    assert_eq!(2, number_of_digits(10));
    assert_eq!(7, number_of_digits(1_000_000));
}

#[test]
fn digits_at_the_powers_of_ten() {
    assert_eq!(1, number_of_digits(9));
    assert_eq!(2, number_of_digits(99));
    assert_eq!(3, number_of_digits(100));
    assert_eq!(3, number_of_digits(999));
    assert_eq!(4, number_of_digits(1000));
    assert_eq!(4, number_of_digits(9999));
    assert_eq!(5, number_of_digits(10_000));
    assert_eq!(10, number_of_digits(4_294_967_295));
}

#[test]
fn digits_agree_with_decimal_text() {
    let samples: [usize; 12] = [0, 1, 9, 10, 11, 99, 100, 101, 12345, 999_999, 1_000_000, usize::MAX];
    for n in samples {
        assert_eq!(n.to_string().len(), number_of_digits(n));
        let mut text = String::from("n = ");
        push_decimal(&mut text, n);
        assert_eq!(format!("n = {}", n), text);
    }
}

#[test]
fn decimal_text_has_no_leading_zeros() {
    let mut text = String::new();
    push_decimal(&mut text, 0);
    assert_eq!("0", text);
    push_decimal(&mut text, 7);
    assert_eq!("07", text);
    push_decimal(&mut text, 1000);
    assert_eq!("071000", text);
    push_decimal(&mut text, 90210);
    assert_eq!("07100090210", text);
}
