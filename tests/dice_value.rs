use patclib::dice_value::DiceValue;

#[test]
fn full_parse() {
    let parsed: DiceValue = "2d6+4".into();
    let expected = DiceValue { dice: 2, constant: 4 };
    assert!(parsed == expected);
}

#[test]
fn dice_parse() {
    let parsed: DiceValue = "4d6".into();
    let expected = DiceValue { dice: 4, constant: 0 };
    assert!(parsed == expected);
}

#[test]
fn const_parse() {
    let parsed: DiceValue = "5".into();
    let expected = DiceValue { dice: 0, constant: 5 };
    assert!(parsed == expected);
}

#[test]
fn empty_parse() {
    let parsed: DiceValue = "".into();
    let expected = DiceValue::default();
    assert!(parsed == expected);
}

#[test]
fn full_parse_double_digits() {
    let parsed: DiceValue = "20d6+40".into();
    let expected = DiceValue { dice: 20, constant: 40 };
    assert!(parsed == expected);
}

#[test]
fn dice_parse_double_digits() {
    let parsed: DiceValue = "40d6".into();
    let expected = DiceValue { dice: 40, constant: 0 };
    assert!(parsed == expected);
}

#[test]
fn const_parse_double_digits() {
    let parsed: DiceValue = "50".into();
    let expected = DiceValue { dice: 0, constant: 50 };
    assert!(parsed == expected);
}

#[test]
fn full_parse_negative() {
    let parsed: DiceValue = "20d6-40".into();
    let expected = DiceValue { dice: 20, constant: -40 };
    assert!(parsed == expected);
}

#[test]
fn const_parse_negative() {
    let parsed: DiceValue = "-50".into();
    let expected = DiceValue { dice: 0, constant: -50 };
    assert!(parsed == expected);
}

#[test]
fn text_round_trip_for_listed_values() {
    let values: [u32; 6] = [0, 1, 2, 5, 20, 40];
    for n in values {
        for k in values {
            let text = format!("{}d6+{}", n, k);
            let parsed = DiceValue::parse(&text);
            assert_eq!(parsed, DiceValue { dice: n, constant: k as i32 });
            assert_eq!(parsed.as_string(), text);
        }
    }
}

#[test]
fn as_string_writes_negative_constant() {
    let v = DiceValue { dice: 3, constant: -7 };
    assert_eq!(v.as_string(), "3d6+-7");
    assert_eq!(DiceValue { dice: 0, constant: 0 }.as_string(), "0d6+0");
}

#[test]
fn lenient_parse_of_unreadable_text() {
    assert_eq!(DiceValue::parse("abc"), DiceValue { dice: 0, constant: 0 });
    assert_eq!(DiceValue::parse("d6+4"), DiceValue { dice: 0, constant: 0 });
    assert_eq!(DiceValue::parse("2d6x"), DiceValue { dice: 2, constant: 0 });
    assert_eq!(DiceValue::parse("+-3"), DiceValue { dice: 0, constant: 0 });
    assert_eq!(DiceValue::parse("+12"), DiceValue { dice: 0, constant: 12 });
    assert_eq!(DiceValue::parse("2d64"), DiceValue { dice: 2, constant: 4 });
}

#[test]
fn parse_of_numbers_too_large_gives_zero() {
    assert_eq!(DiceValue::parse("99999999999d6+3"), DiceValue { dice: 0, constant: 3 });
    assert_eq!(DiceValue::parse("2147483648"), DiceValue { dice: 0, constant: 0 });
    assert_eq!(DiceValue::parse("-2147483648"), DiceValue { dice: 0, constant: i32::MIN });
    assert_eq!(DiceValue::parse("4294967295d6"), DiceValue { dice: u32::MAX, constant: 0 });
}

#[test]
fn theoretical_limit_values() {
    assert_eq!(DiceValue { dice: 2, constant: 4 }.theoretical_limit(), 16);
    assert_eq!(DiceValue { dice: 0, constant: 5 }.theoretical_limit(), 5);
    assert_eq!(DiceValue { dice: 20, constant: -40 }.theoretical_limit(), 80);
}

#[test]
fn roll_stays_within_limit() {
    let v = DiceValue { dice: 3, constant: 2 };
    let mut seen_other_than_floor = false;
    for _ in 0..500 {
        let r = v.roll();
        assert!(r >= 5 && r <= v.theoretical_limit());
        if r != 5 {
            seen_other_than_floor = true;
        }
    }
    assert!(seen_other_than_floor);
    let one_die = DiceValue { dice: 1, constant: 0 };
    for _ in 0..200 {
        let r = one_die.roll();
        assert!((1..=6).contains(&r));
    }
}

#[test]
fn roll_with_given_faces() {
    let v = DiceValue { dice: 3, constant: 4 };
    assert_eq!(v.roll_with(&vec![1, 6, 3]), 14);
    assert_eq!(DiceValue { dice: 0, constant: 9 }.roll_with(&vec![]), 9);
}

#[test]
fn drain_with_given_faces() {
    let v = DiceValue { dice: 5, constant: 2 };
    // deficit 10 - 2 = 8: faces 3, 4 leave 1, the third die covers it
    assert_eq!(v.drained_with(10, &vec![3, 4, 2, 6, 6]), Some(DiceValue { dice: 2, constant: 2 }));
    // covered by the constant alone
    assert_eq!(v.drained_with(2, &vec![1, 1, 1, 1, 1]), Some(v));
    // all five dice fall short
    assert_eq!(v.drained_with(20, &vec![1, 2, 3, 4, 5]), None);
    // exactly covered by the last die
    assert_eq!(v.drained_with(17, &vec![1, 2, 3, 4, 5]), Some(DiceValue { dice: 0, constant: 2 }));
}

#[test]
fn drain_to_match_bounds() {
    let v = DiceValue { dice: 5, constant: 0 };
    assert_eq!(v.drained_to_match(0), Some(v));
    assert_eq!(v.drained_to_match(31), None);
    for _ in 0..200 {
        match v.drained_to_match(10) {
            Some(left) => {
                assert_eq!(left.constant, 0);
                assert!(left.dice <= 3);
            }
            // five dice may show as little as five in total
            None => {}
        }
    }
}

#[test]
fn add_and_sub_assign() {
    let mut v = DiceValue { dice: 2, constant: 3 };
    v.add_assign(DiceValue { dice: 1, constant: -5 });
    assert_eq!(v, DiceValue { dice: 3, constant: -2 });
    v.sub_assign(DiceValue { dice: 3, constant: 1 });
    assert_eq!(v, DiceValue { dice: 0, constant: -3 });
}
