use std::collections::BTreeMap;
use sudodb::float::{float_equal, float_less};
use sudodb::date::instant_before;
use sudodb::strmap::StrMap;
use sudodb::text::{chars_of, text_contains, text_ends_with, text_equals, text_lt, text_starts_with};

#[test]
fn strmap_keeps_keys_in_string_order() {
    let keys = ["pear", "apple", "", "Apple", "äpfel", "apples", "b", "apple", "zz", "日本"];
    let mut m = StrMap::new();
    let mut reference = BTreeMap::new();
    for (i, k) in keys.iter().enumerate() {
        m.insert(k.to_string(), i);
        reference.insert(k.to_string(), i);
    }
    assert_eq!(m.len(), reference.len());
    for (i, (k, v)) in reference.iter().enumerate() {
        assert_eq!(m.key_at(i), k);
        assert_eq!(m.value_at(i), v);
    }
}

#[test]
fn strmap_read_after_write() {
    let mut m = StrMap::new();
    m.insert("a".to_string(), 1);
    m.insert("b".to_string(), 2);
    assert_eq!(m.get("a"), Some(&1));
    m.insert("a".to_string(), 10);
    assert_eq!(m.get("a"), Some(&10));
    assert_eq!(m.get("b"), Some(&2));
    assert_eq!(m.get("c"), None);
    assert_eq!(m.len(), 2);
}

#[test]
fn empty_strmap() {
    let m: StrMap<u8> = StrMap::new();
    assert_eq!(m.len(), 0);
    assert_eq!(m.get(""), None);
}

#[test]
fn text_predicates_agree_with_std() {
    let samples = ["", "x", "xy", "yx", "xyx", "ü", "üx", "x\u{10FFFF}", "\u{7F}", "\u{80}"];
    for a in samples {
        assert_eq!(chars_of(a), a.chars().collect::<Vec<char>>());
        for b in samples {
            assert_eq!(text_equals(a, b), a == b);
            assert_eq!(text_lt(a, b), a < b);
            assert_eq!(text_contains(a, b), a.contains(b));
            assert_eq!(text_starts_with(a, b), a.starts_with(b));
            assert_eq!(text_ends_with(a, b), a.ends_with(b));
        }
    }
}

#[test]
fn float_bits_comparison_examples() {
    assert!(float_less((-2.0f32).to_bits(), (-1.0f32).to_bits()));
    assert!(float_less((-0.0f32).to_bits(), 1e-45f32.to_bits()));
    assert!(!float_less(0.0f32.to_bits(), (-0.0f32).to_bits()));
    assert!(float_equal(0.0f32.to_bits(), (-0.0f32).to_bits()));
    assert!(!float_equal(f32::NAN.to_bits(), f32::NAN.to_bits()));
    assert!(float_less(f32::MAX.to_bits(), f32::INFINITY.to_bits()));
}

#[test]
fn instant_order_examples() {
    assert!(instant_before((0, 1), (0, 2)));
    assert!(instant_before((-5, 999_999_999), (-4, 0)));
    assert!(!instant_before((3, 0), (3, 0)));
}
