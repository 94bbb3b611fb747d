use package_registry::text::{chars_le, chars_of, decimal_string, owned, replace_all, signed_decimal_string, string_of};

#[test]
fn decimal_notation() {
    assert_eq!(decimal_string(0), "0");
    assert_eq!(decimal_string(7), "7");
    assert_eq!(decimal_string(20), "20");
    assert_eq!(decimal_string(1234567890), "1234567890");
    assert_eq!(decimal_string(u128::MAX), u128::MAX.to_string());
}

#[test]
fn decimal_reads_back() {
    for n in [0u128, 9, 10, 99, 100, 65535, 4000000000] {
        assert_eq!(decimal_string(n).parse::<u128>().unwrap(), n);
    }
}

#[test]
fn signed_decimal_notation() {
    assert_eq!(signed_decimal_string(-5), "-5");
    assert_eq!(signed_decimal_string(0), "0");
    assert_eq!(signed_decimal_string(42), "42");
    assert_eq!(signed_decimal_string(i128::MIN), i128::MIN.to_string());
}

#[test]
fn characters_round_trip() {
    let v = chars_of("héllo");
    assert_eq!(v, vec!['h', 'é', 'l', 'l', 'o']);
    assert_eq!(string_of(&v), "héllo");
    assert_eq!(owned("x"), "x");
}

#[test]
fn lexicographic_order() {
    assert!(chars_le(&['a'], &['b']));
    assert!(!chars_le(&['b'], &['a']));
    assert!(chars_le(&['a'], &['a', 'b']));
    assert!(!chars_le(&['a', 'b'], &['a']));
    assert!(chars_le(&[], &[]));
    assert!(chars_le(&['B'], &['a']));
    assert!(chars_le(&['a', 'b'], &['a', 'b']));
}

#[test]
fn replace_matches_std() {
    let cases = [
        ("https://www.npmjs.com/package/postcss", "https://www.npmjs.com/package/", "https://registry.npmjs.org/"),
        ("aaaa", "aa", "b"),
        ("abcabc", "bc", ""),
        ("nothing here", "zz", "y"),
        ("", "a", "b"),
        ("ab", "", "x"),
        ("", "", "x"),
    ];
    for (s, p, r) in cases {
        assert_eq!(replace_all(s, p, r), s.replace(p, r));
    }
    assert_eq!(replace_all("aaaa", "aa", "b"), "bb");
}
