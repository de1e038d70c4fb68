use arcrelay_web_gateway::numbers::{
    hex_text, number_between, push_decimal, push_hex, push_hex_fixed,
};
use arcrelay_web_gateway::order::{is_before, sorted_distinct};
use arcrelay_web_gateway::text::{
    chars_of, ends_in, is_control, is_white_space, matches_at, split_on, to_lower,
};
use arcrelay_web_gateway::vec_map::VecMap;

#[test]
fn character_classes_are_those_of_unicode() {
    for c in '\0'..=char::MAX {
        assert_eq!(is_white_space(c), c.is_whitespace(), "{c:?}");
        assert_eq!(is_control(c), c.is_control(), "{c:?}");
        assert_eq!(to_lower(c), c.to_ascii_lowercase(), "{c:?}");
    }
}

#[test]
fn numbers_are_written_as_digits() {
    for n in [0u64, 7, 10, 15, 16, 255, 4096, 123_456_789, u64::MAX] {
        let mut decimal = String::from(">");
        push_decimal(&mut decimal, n);
        assert_eq!(decimal, format!(">{n}"));
        let mut hex = String::new();
        push_hex(&mut hex, n);
        assert_eq!(hex, format!("{n:x}"));
        let mut fixed = String::new();
        push_hex_fixed(&mut fixed, u128::from(n), 32);
        assert_eq!(fixed, format!("{n:032x}"));
    }
    assert_eq!(hex_text(&[0, 1, 0xab, 0xff]), "0001abff");
}

#[test]
fn numbers_are_read_as_std_reads_them() {
    for text in [
        "",
        "0",
        "7",
        "+7",
        "-7",
        "+",
        "++1",
        "007",
        "18446744073709551615",
        "18446744073709551616",
        "99999999999999999999999",
        "1 ",
        "1a",
        "١",
    ] {
        let chars = chars_of(text);
        assert_eq!(
            number_between(&chars, 0, chars.len()),
            text.parse::<u64>().ok(),
            "{text}"
        );
    }
}

#[test]
fn texts_are_split_as_std_splits_them() {
    for text in ["", "/", "a", "a/b", "/a//b/", "é/ü"] {
        assert_eq!(split_on(text, '/'), text.split('/').collect::<Vec<_>>());
    }
    assert!(ends_in("box.local", ".local"));
    assert!(!ends_in("local", ".local"));
    assert!(matches_at(&chars_of("abc"), 1, "bc"));
    assert!(!matches_at(&chars_of("abc"), 1, "bcd"));
}

#[test]
fn texts_are_ordered_as_std_orders_them() {
    let texts = ["", "a", "ab", "b", "Z", "é", "\u{ffff}", "\u{10000}"];
    for a in texts {
        for b in texts {
            assert_eq!(is_before(a, b), a < b, "{a} {b}");
        }
    }
    let mut list: Vec<String> = ["b", "a", "b", "", "a"].iter().map(|t| t.to_string()).collect();
    let sorted = sorted_distinct(&list);
    list.sort();
    list.dedup();
    assert_eq!(sorted, list);
}

#[test]
fn maps_hold_one_value_for_each_key() {
    let mut map: VecMap<String, u32> = VecMap::new();
    map.insert("a".to_string(), 1);
    map.insert("b".to_string(), 2);
    map.insert("a".to_string(), 3);
    assert_eq!(map.len(), 2);
    assert_eq!(map.get(&"a".to_string()), Some(&3));
    assert!(map.remove(&"a".to_string()));
    assert!(!map.remove(&"a".to_string()));
    assert!(!map.contains(&"a".to_string()));
    *map.value_at_mut(0) = 9;
    assert_eq!(map.get(&"b".to_string()), Some(&9));
    map.clear();
    assert_eq!(map.len(), 0);
}
