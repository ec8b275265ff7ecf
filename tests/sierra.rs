use sierra_numbers::{add_check_digit, get_check_digit, is_numeric, validate, InvalidSierraNumber};

#[test]
fn test_get_check_digit() {
    // This is an example from the Sierra documentation
    assert_eq!(get_check_digit("1024364"), "1");

    // Test the case where the remainder is an 'x'
    assert_eq!(get_check_digit("1026579"), "x");
}

#[test]
fn test_validate() {
    assert_eq!(validate("10243641"), true);
    assert_eq!(validate("10243642"), false);

    // With a record type prefix
    assert_eq!(validate("b10243641"), true);
    assert_eq!(validate("b10243642"), false);
    assert_eq!(validate("i10243641"), true);
    assert_eq!(validate("i10243642"), false);

    assert_eq!(validate("short"), false);
    assert_eq!(validate("a too long string"), false);
    assert_eq!(validate("nonumber"), false);
}

fn seven_digits(k: u32) -> String {
    format!("{:07}", k)
}

fn sample_numbers() -> Vec<String> {
    let mut v = Vec::new();
    let mut k: u32 = 0;
    while k < 10_000_000 {
        v.push(seven_digits(k));
        k += 104_729;
    }
    v.push(String::from("0000000"));
    v.push(String::from("9999999"));
    v.push(String::from("1024364"));
    v.push(String::from("1026579"));
    v
}

#[test]
fn check_digit_is_a_digit_or_x_and_stable() {
    for n in sample_numbers() {
        let d = get_check_digit(&n);
        assert_eq!(d.chars().count(), 1);
        let c = d.chars().next().unwrap();
        assert!(c.is_ascii_digit() || c == 'x', "{} gave {}", n, d);
        assert_eq!(get_check_digit(&n), d);
    }
}

#[test]
fn check_digit_weighted_sum_values() {
    // 8*0 + 7*0 + ... + 2*1 = 2
    assert_eq!(get_check_digit("0000001"), "2");
    // 8*1 = 8
    assert_eq!(get_check_digit("1000000"), "8");
    // 9 * (8+7+6+5+4+3+2) = 315, 315 mod 11 = 7
    assert_eq!(get_check_digit("9999999"), "7");
    assert_eq!(get_check_digit("0000000"), "0");
    // 2*5 = 10
    assert_eq!(get_check_digit("0000005"), "x");
}

#[test]
fn round_trip_with_every_trailing_character() {
    let candidates = ['0', '1', '2', '3', '4', '5', '6', '7', '8', '9', 'x', 'X', 'a', ' '];
    for n in sample_numbers() {
        let d = get_check_digit(&n);
        assert!(validate(&format!("{}{}", n, d)), "{}{}", n, d);
        for c in candidates {
            if c.to_string() != d {
                assert!(!validate(&format!("{}{}", n, c)), "{}{}", n, c);
            }
        }
    }
}

#[test]
fn uppercase_x_is_not_a_check_digit() {
    assert_eq!(get_check_digit("1026579"), "x");
    assert!(validate("1026579x"));
    assert!(!validate("1026579X"));
    assert!(validate("b1026579x"));
    assert!(!validate("b1026579X"));
}

#[test]
fn prefix_identity_is_not_checked() {
    for p in ['b', 'i', 'c', 'a', 'z', '7', '#'] {
        assert!(validate(&format!("{}10243641", p)));
        assert!(!validate(&format!("{}10243642", p)));
    }
}

#[test]
fn validate_other_lengths() {
    assert!(!validate(""));
    assert!(!validate("1024364"));
    assert!(!validate("1024364 "));
    assert!(!validate("bb10243641"));
    assert!(!validate("102436411"));
    assert!(!validate("1024a641"));
}

#[test]
fn validate_counts_bytes() {
    // A prefix that takes two bytes makes the string ten bytes long.
    assert!(!validate("\u{e9}10243641"));
    // Eight bytes, but only seven characters.
    assert!(!validate("\u{e9}102436"));
}

#[test]
fn add_check_digit_examples() {
    assert_eq!(add_check_digit("1024364"), Ok(String::from("10243641")));
    assert_eq!(add_check_digit("b1024364"), Ok(String::from("b10243641")));
    assert_eq!(add_check_digit("1026579"), Ok(String::from("1026579x")));
    assert_eq!(add_check_digit("i1026579"), Ok(String::from("i1026579x")));
}

#[test]
fn add_check_digit_takes_any_leading_character_as_prefix() {
    // 0*8 + 2*7 + 4*6 + 3*5 + 6*4 + 4*3 + 1*2 = 91, 91 mod 11 = 3
    assert_eq!(add_check_digit("10243641"), Ok(String::from("102436413")));
}

#[test]
fn add_check_digit_rejects_other_shapes() {
    for bad in ["bad", "", "102436", "b10243641", "10a4364", "bb024364", "\u{e9}123456"] {
        assert_eq!(
            add_check_digit(bad),
            Err(InvalidSierraNumber { number: String::from(bad) })
        );
    }
}

#[test]
fn added_check_digit_validates() {
    for n in sample_numbers() {
        let full = add_check_digit(&n).unwrap();
        assert!(validate(&full));
        let prefixed = add_check_digit(&format!("b{}", n)).unwrap();
        assert!(validate(&prefixed));
        assert_eq!(prefixed, format!("b{}", full));
    }
}

#[test]
fn is_numeric_cases() {
    assert!(is_numeric(""));
    assert!(is_numeric("0123456789"));
    assert!(!is_numeric("12a4"));
    assert!(!is_numeric("x"));
    assert!(!is_numeric("\u{661}"));
}
