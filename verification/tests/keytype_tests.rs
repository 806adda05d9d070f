use std::cmp::Ordering;
use tw_components::keytype::KeyType;

#[test]
fn string_keys_compare_lexicographically() {
    let a = KeyType::String("Amy".to_string());
    let b = KeyType::String("Bob".to_string());
    assert_eq!(a.compare(&b), Ordering::Less);
    assert_eq!(b.compare(&a), Ordering::Greater);
    assert_eq!(a.compare(&a.clone()), Ordering::Equal);
}

#[test]
fn string_prefix_comes_first() {
    let a = KeyType::String("ab".to_string());
    let b = KeyType::String("abc".to_string());
    assert_eq!(a.compare(&b), Ordering::Less);
    assert_eq!(b.compare(&a), Ordering::Greater);
}

#[test]
fn empty_string_comes_first() {
    let a = KeyType::String(String::new());
    let b = KeyType::String("a".to_string());
    assert_eq!(a.compare(&b), Ordering::Less);
    assert_eq!(a.compare(&a.clone()), Ordering::Equal);
}

#[test]
fn integer_keys_compare_reversed() {
    let five = KeyType::Integer(5);
    let three = KeyType::Integer(3);
    assert_eq!(five.compare(&three), Ordering::Less);
    assert_eq!(three.compare(&five), Ordering::Greater);
    assert_eq!(five.compare(&five.clone()), Ordering::Equal);
    assert!(five < three);
}

#[test]
fn unsigned_keys_compare_reversed() {
    let big = KeyType::UnsignedInteger(9000);
    let small = KeyType::UnsignedInteger(1);
    assert_eq!(big.compare(&small), Ordering::Less);
    assert_eq!(small.compare(&big), Ordering::Greater);
}

#[test]
fn cross_variant_keys_compare_equal() {
    let s = KeyType::String("10".to_string());
    let n = KeyType::Integer(10);
    let u = KeyType::UnsignedInteger(10);
    let a = KeyType::Absent;
    assert_eq!(s.compare(&n), Ordering::Equal);
    assert_eq!(n.compare(&u), Ordering::Equal);
    assert_eq!(a.compare(&s), Ordering::Equal);
    assert_eq!(a.compare(&a.clone()), Ordering::Equal);
}

#[test]
fn object_keys_delegate_to_wrapped_key() {
    let x = KeyType::Object(Box::new(KeyType::Integer(7)));
    let y = KeyType::Object(Box::new(KeyType::Integer(2)));
    assert_eq!(x.compare(&y), Ordering::Less);
    let p = KeyType::Object(Box::new(KeyType::String("a".to_string())));
    let q = KeyType::Object(Box::new(KeyType::String("b".to_string())));
    assert_eq!(p.compare(&q), Ordering::Less);
}

#[test]
fn equality_is_per_variant() {
    assert_eq!(KeyType::Integer(4), KeyType::Integer(4));
    assert_ne!(KeyType::Integer(4), KeyType::Integer(5));
    assert_ne!(KeyType::Integer(4), KeyType::UnsignedInteger(4));
    assert_eq!(
        KeyType::String("x".to_string()),
        KeyType::String("x".to_string())
    );
    assert_ne!(KeyType::String("x".to_string()), KeyType::Absent);
    assert_eq!(KeyType::Absent, KeyType::Absent);
    assert_eq!(
        KeyType::Object(Box::new(KeyType::Integer(1))),
        KeyType::Object(Box::new(KeyType::Integer(1)))
    );
    assert_ne!(
        KeyType::Object(Box::new(KeyType::Integer(1))),
        KeyType::Object(Box::new(KeyType::Integer(2)))
    );
}

#[test]
fn display_absent_is_none() {
    assert_eq!(KeyType::Absent.display_string(), "None");
}

#[test]
fn display_string_is_text() {
    let k = KeyType::String("hello world".to_string());
    assert_eq!(k.display_string(), "hello world");
}

#[test]
fn display_integers_in_decimal() {
    assert_eq!(KeyType::Integer(0).display_string(), "0");
    assert_eq!(KeyType::Integer(42).display_string(), "42");
    assert_eq!(KeyType::Integer(-42).display_string(), "-42");
    assert_eq!(KeyType::Integer(-7).display_string(), "-7");
    assert_eq!(KeyType::UnsignedInteger(0).display_string(), "0");
    assert_eq!(KeyType::UnsignedInteger(1234567890).display_string(), "1234567890");
}

#[test]
fn display_integer_extremes() {
    assert_eq!(
        KeyType::Integer(i128::MIN).display_string(),
        "-170141183460469231731687303715884105728"
    );
    assert_eq!(
        KeyType::Integer(i128::MAX).display_string(),
        "170141183460469231731687303715884105727"
    );
    assert_eq!(
        KeyType::UnsignedInteger(u128::MAX).display_string(),
        "340282366920938463463374607431768211455"
    );
}

#[test]
fn display_object_shows_wrapped_key() {
    let k = KeyType::Object(Box::new(KeyType::Integer(-3)));
    assert_eq!(k.display_string(), "-3");
}

#[test]
fn from_conversions_pick_the_right_variant() {
    assert!(matches!(KeyType::from("abc"), KeyType::String(s) if s == "abc"));
    assert!(matches!(KeyType::from("xyz".to_string()), KeyType::String(s) if s == "xyz"));
    assert!(matches!(KeyType::from(1i8), KeyType::Integer(1)));
    assert!(matches!(KeyType::from(2i16), KeyType::Integer(2)));
    assert!(matches!(KeyType::from(3i32), KeyType::Integer(3)));
    assert!(matches!(KeyType::from(4i64), KeyType::Integer(4)));
    assert!(matches!(KeyType::from(5i128), KeyType::Integer(5)));
    assert!(matches!(KeyType::from(1u8), KeyType::UnsignedInteger(1)));
    assert!(matches!(KeyType::from(2u16), KeyType::UnsignedInteger(2)));
    assert!(matches!(KeyType::from(3u32), KeyType::UnsignedInteger(3)));
    assert!(matches!(KeyType::from(4u64), KeyType::UnsignedInteger(4)));
    assert!(matches!(KeyType::from(5u128), KeyType::UnsignedInteger(5)));
    assert!(matches!(KeyType::from(-9i64), KeyType::Integer(-9)));
}

#[test]
fn clone_preserves_the_key() {
    let k = KeyType::Object(Box::new(KeyType::String("deep".to_string())));
    let c = k.clone();
    assert_eq!(k, c);
}
