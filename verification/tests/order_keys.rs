use quadratic_core::names::{name_in, unused_name};
use quadratic_core::order::{accept_key, check_key_text, key_between};
use quadratic_core::text::{joined, numeral_string, str_eq, str_lt};

fn key(s: &str) -> Option<String> {
    Some(s.to_string())
}

#[test]
fn key_between_two_keys_sorts_between_them() {
    let k = key_between(&key("a0"), &key("a1")).unwrap();
    assert_eq!(k, "a0V");
    assert!("a0" < k.as_str() && k.as_str() < "a1");

    let k = key_between(&key("a0"), &key("a0V")).unwrap();
    assert!("a0" < k.as_str() && k.as_str() < "a0V");

    let k = key_between(&key("Zz"), &key("a1")).unwrap();
    assert!("Zz" < k.as_str() && k.as_str() < "a1");
}

#[test]
fn key_between_with_one_bound_sorts_on_the_right_side_of_it() {
    assert_eq!(key_between(&None, &None), key("a0"));

    let after = key_between(&key("a0"), &None).unwrap();
    assert_eq!(after, "a1");
    assert!(after.as_str() > "a0");

    let before = key_between(&None, &key("a0")).unwrap();
    assert_eq!(before, "Zz");
    assert!(before.as_str() < "a0");
}

#[test]
fn repeated_insertion_at_the_same_place_keeps_giving_keys() {
    let lower = "a0".to_string();
    let mut upper = "a1".to_string();
    for _ in 0..200 {
        let k = key_between(&Some(lower.clone()), &Some(upper.clone())).unwrap();
        assert!(lower.as_str() < k.as_str() && k.as_str() < upper.as_str());
        upper = k;
    }
    // 200 insertions grow the key by well under one character each
    assert!(upper.len() < 60);
}

#[test]
fn key_between_gives_no_key_for_bad_bounds() {
    // out of order, or equal
    assert_eq!(key_between(&key("a1"), &key("a0")), None);
    assert_eq!(key_between(&key("a0"), &key("a0")), None);
    // not key texts
    assert_eq!(key_between(&key(""), &None), None);
    assert_eq!(key_between(&key("a 0"), &None), None);
    assert_eq!(key_between(&None, &key("a\u{e9}")), None);
    // key texts that are not keys: a head that is a digit, a missing digit
    assert_eq!(key_between(&key("0a"), &None), None);
    assert_eq!(key_between(&key("b0"), &None), None);
    assert!(check_key_text("b0"));
    assert!(!check_key_text(""));
    assert!(!check_key_text("a-0"));
}

#[test]
fn accept_key_keeps_only_what_lies_between() {
    assert_eq!(accept_key(&key("a"), key("b"), &key("c")), key("b"));
    assert_eq!(accept_key(&key("a"), key("a"), &key("c")), None);
    assert_eq!(accept_key(&key("a"), key("c"), &key("c")), None);
    assert_eq!(accept_key(&key("a"), key("d"), &key("c")), None);
    assert_eq!(accept_key(&None, key("d"), &None), key("d"));
    assert_eq!(accept_key(&None, None, &None), None);
}

#[test]
fn strings_sort_character_by_character() {
    assert!(str_lt("", "a"));
    assert!(str_lt("a", "ab"));
    assert!(str_lt("ab", "b"));
    assert!(str_lt("Zz", "a0"));
    assert!(!str_lt("a", "a"));
    assert!(!str_lt("b", "ab"));
    assert!(str_lt("z", "\u{e9}"));
    assert!(str_eq("abc", "abc"));
    assert!(!str_eq("abc", "abd"));
    assert!(!str_eq("abc", "ab"));
    assert_eq!(joined("ab", "cd"), "abcd");
}

#[test]
fn numerals_are_written_without_leading_zeros() {
    assert_eq!(numeral_string(0), "0");
    assert_eq!(numeral_string(7), "7");
    assert_eq!(numeral_string(10), "10");
    assert_eq!(numeral_string(1234567890), "1234567890");
    assert_eq!(
        numeral_string(u128::MAX),
        "340282366920938463463374607431768211455"
    );
}

#[test]
fn unused_name_is_the_first_free_numbered_name() {
    let used: Vec<String> = vec![];
    assert_eq!(unused_name("Sheet", &used), "Sheet 1");
    let used = vec!["Sheet 1".to_string(), "Sheet 3".to_string()];
    assert_eq!(unused_name("Sheet", &used), "Sheet 2");
    let used = vec![
        "Sheet 2".to_string(),
        "Sheet 1".to_string(),
        "x".to_string(),
    ];
    assert_eq!(unused_name("Sheet", &used), "Sheet 3");
    assert!(name_in(&used, "x"));
    assert!(!name_in(&used, "Sheet 3"));
}

/// Order keys of many shapes, in order.
fn order_keys() -> Vec<String> {
    let z26 = "z".repeat(26);
    let zeros25 = "0".repeat(25);
    vec![
        format!("A{}V", "0".repeat(26)),
        format!("A{}1", "0".repeat(25)),
        format!("A{}", z26),
        format!("B{}", zeros25),
        format!("B{}01", zeros25),
        "Y00".to_string(),
        "Yzz".to_string(),
        "YzzV".to_string(),
        "Z0".to_string(),
        "Z0001".to_string(),
        "Zz".to_string(),
        "Zzz".to_string(),
        "a0".to_string(),
        "a0001".to_string(),
        "a001".to_string(),
        "a00V".to_string(),
        "a0V".to_string(),
        "a0z".to_string(),
        "a0zz".to_string(),
        "a1".to_string(),
        "a11".to_string(),
        "a2".to_string(),
        "az".to_string(),
        "azz".to_string(),
        "b00".to_string(),
        "b005".to_string(),
        "b01".to_string(),
        "bzz".to_string(),
        "c000".to_string(),
        format!("y{}", "0".repeat(25)),
        format!("z{}", "0".repeat(26)),
        format!("z{}", z26),
        format!("z{}1", z26),
        format!("z{}z", z26),
        format!("z{}zV", z26),
    ]
}

#[test]
fn between_any_two_order_keys_in_order_there_is_a_key() {
    let keys = order_keys();
    for i in 0..keys.len() {
        let below = key_between(&None, &Some(keys[i].clone()));
        assert!(
            matches!(&below, Some(k) if k.as_str() < keys[i].as_str()),
            "before {}: {:?}",
            keys[i],
            below
        );
        let above = key_between(&Some(keys[i].clone()), &None);
        assert!(
            matches!(&above, Some(k) if k.as_str() > keys[i].as_str()),
            "after {}: {:?}",
            keys[i],
            above
        );
        for j in i + 1..keys.len() {
            assert!(keys[i] < keys[j], "{} and {} are out of order", keys[i], keys[j]);
            let k = key_between(&Some(keys[i].clone()), &Some(keys[j].clone()));
            assert!(
                matches!(&k, Some(k) if keys[i].as_str() < k.as_str() && k.as_str() < keys[j].as_str()),
                "between {} and {}: {:?}",
                keys[i],
                keys[j],
                k
            );
        }
    }
}

#[test]
fn keys_that_are_given_are_order_keys_again() {
    // a key can be put between a key and any key that was given for it
    let mut lower = "a0".to_string();
    let mut upper = key_between(&Some(lower.clone()), &None).unwrap();
    for round in 0..300 {
        let k = key_between(&Some(lower.clone()), &Some(upper.clone())).unwrap();
        assert!(lower < k && k < upper);
        if round % 3 == 0 {
            lower = k;
        } else {
            upper = k;
        }
    }
    let mut first = "a0".to_string();
    for _ in 0..100 {
        let k = key_between(&None, &Some(first.clone())).unwrap();
        assert!(k < first);
        first = k;
    }
    let mut last = "a0".to_string();
    for _ in 0..100 {
        let k = key_between(&Some(last.clone()), &None).unwrap();
        assert!(k > last);
        last = k;
    }
}
