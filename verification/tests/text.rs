use tendermint_rpc::text::{digit, join, push_decimal, push_signed_decimal};

#[test]
fn join_puts_the_separator_between() {
    assert_eq!("", join(", ", &vec![]));
    assert_eq!("a", join(", ", &vec!["a".to_string()]));
    assert_eq!(
        "a, b, c",
        join(", ", &vec!["a".to_string(), "b".to_string(), "c".to_string()])
    );
    assert_eq!("ab", join("", &vec!["a".to_string(), "b".to_string()]));
    assert_eq!(
        " AND x",
        join(" AND ", &vec!["".to_string(), "x".to_string()])
    );
}

#[test]
fn decimal_is_appended() {
    let mut out = String::from("n=");
    push_decimal(&mut out, 0);
    push_decimal(&mut out, 907);
    assert_eq!("n=0907", out);
    let mut out = String::new();
    push_decimal(&mut out, u128::MAX);
    assert_eq!("340282366920938463463374607431768211455", out);
    let mut out = String::new();
    push_signed_decimal(&mut out, -120);
    push_signed_decimal(&mut out, 5);
    assert_eq!("-1205", out);
}

#[test]
fn digits_are_spelled() {
    assert_eq!('0', digit(0));
    assert_eq!('5', digit(5));
    assert_eq!('9', digit(9));
}
