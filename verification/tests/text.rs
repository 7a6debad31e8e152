use lambda_cli::order::{numbers_standing, Standing};
use lambda_cli::text::{decimal_text, given_text, is_white_space, join_texts, text_standing, trim};
use lambda_cli::version::version_key;
use std::cmp::Ordering;

fn strings(items: &[&str]) -> Vec<String> {
    items.iter().map(|s| s.to_string()).collect()
}

#[test]
fn white_space_is_that_of_char() {
    for c in '\0'..=char::MAX {
        assert_eq!(is_white_space(c), c.is_whitespace(), "{:?}", c);
    }
}

#[test]
fn trimming_agrees_with_str() {
    for text in [
        "",
        " ",
        "key",
        "  key\n",
        "\u{3000}k e y\u{85}\t",
        "\r\n\u{a0}",
        "é \u{2028}",
        "\u{200b}x\u{200b}",
    ] {
        assert_eq!(trim(text), text.trim());
    }
}

#[test]
fn blank_text_is_not_given() {
    assert_eq!(given_text(None), None);
    assert_eq!(given_text(Some("")), None);
    assert_eq!(given_text(Some(" \t\n")), None);
    assert_eq!(given_text(Some("  ubuntu ")), Some("ubuntu"));
}

#[test]
fn texts_are_ordered_like_str() {
    let texts = ["", "a", "ab", "b", "B", "é", "\u{ffff}", "\u{10000}", "a\u{10000}"];
    for a in texts {
        for b in texts {
            let expected = match a.cmp(b) {
                Ordering::Less => Standing::Before,
                Ordering::Equal => Standing::Same,
                Ordering::Greater => Standing::After,
            };
            assert_eq!(text_standing(a, b), expected, "{:?} {:?}", a, b);
        }
    }
}

#[test]
fn numbers_are_ordered_like_vec() {
    let lists: [Vec<u64>; 6] =
        [vec![], vec![0], vec![1], vec![1, 0], vec![1, u64::MAX], vec![2]];
    for a in &lists {
        for b in &lists {
            let expected = match a.cmp(b) {
                Ordering::Less => Standing::Before,
                Ordering::Equal => Standing::Same,
                Ordering::Greater => Standing::After,
            };
            assert_eq!(numbers_standing(a, b), expected);
        }
    }
}

#[test]
fn joining_separates_with_comma_and_blank() {
    assert_eq!(join_texts(&strings(&[])), "");
    assert_eq!(join_texts(&strings(&["a"])), "a");
    assert_eq!(join_texts(&strings(&["a", "", "b"])), "a, , b");
}

#[test]
fn decimals_are_written_out() {
    for n in [0, 7, 10, 99, 100, 1_000_000_007, u64::MAX] {
        assert_eq!(decimal_text(n), format!("{}", n));
    }
}

#[test]
fn version_fields_are_runs_of_digits() {
    assert_eq!(version_key(""), Vec::<u64>::new());
    assert_eq!(version_key("v1..2-rc3"), vec![1, 2, 3]);
    assert_eq!(version_key("007.0"), vec![7, 0]);
    assert_eq!(version_key("22.4.5-20250702"), vec![22, 4, 5, 20250702]);
    assert_eq!(version_key("1\u{663}2"), vec![1, 2]);
}

#[test]
fn version_field_beyond_u64_is_left_out() {
    assert_eq!(version_key("18446744073709551615"), vec![u64::MAX]);
    assert_eq!(version_key("1.18446744073709551616.2"), vec![1, 2]);
    assert_eq!(version_key("00000000000000000000000000000001"), vec![1]);
}

#[test]
fn separator_splits_a_version() {
    for (front, tail) in [("24.4", "10-2141"), ("", "7"), ("v1", ""), ("1-", "-2")] {
        let whole = version_key(&format!("{}_{}", front, tail));
        let mut parts = version_key(front);
        parts.extend(version_key(tail));
        assert_eq!(whole, parts);
    }
}

#[test]
fn longer_version_is_newer() {
    assert!(version_key("24.4.0") > version_key("24.4"));
    assert!(version_key("24.5") > version_key("24.4.99"));
}
