use cmonitor::names::{add_name, has_name, read_names, same_names, split_commas, text_precedes};
use cmonitor::text::{is_white_space, same_text, to_lower, trim};
use cmonitor::token::to_hex;

#[test]
fn trimming_agrees_with_std() {
    for s in ["", " ", "a", "  a b \t", "\u{3000}x\u{a0}", "\u{200b}x", "\n\r\u{85}\u{1680}\u{2028}é\u{205f}"] {
        assert_eq!(trim(s), s.trim());
    }
}

#[test]
fn white_space_agrees_with_std() {
    for c in '\0'..=char::MAX {
        assert_eq!(is_white_space(c), c.is_whitespace());
    }
}

#[test]
fn lowering_agrees_with_std() {
    for s in ["", "AZ az @[`{ 09", "ÄÖÜ ß İ", "MiXeD-42"] {
        assert_eq!(to_lower(s), s.to_ascii_lowercase());
    }
}

#[test]
fn splitting_agrees_with_std() {
    for s in ["", ",", "a", "a,b", ",a,,b,", "é,ü"] {
        assert_eq!(split_commas(s), s.split(',').collect::<Vec<_>>());
    }
}

#[test]
fn order_agrees_with_std() {
    let words = ["", "a", "ab", "b", "B", "é", "\u{ffff}", "\u{10000}", "z"];
    for a in words {
        for b in words {
            assert_eq!(text_precedes(a, b), a < b);
            assert_eq!(same_text(a, b), a == b);
        }
    }
}

#[test]
fn names_are_sorted_without_repetitions() {
    for s in ["", " , ,", "b,a,b", "Zoe, adam ,ZOE,  ,eve", "ü,u,U,ä"] {
        let mut expected: Vec<String> =
            s.split(',').map(|v| v.trim().to_ascii_lowercase()).filter(|v| !v.is_empty()).collect();
        expected.sort();
        expected.dedup();
        assert_eq!(read_names(s), expected);
    }
    let mut list = vec!["a".to_owned(), "c".to_owned()];
    add_name(&mut list, "b".to_owned());
    add_name(&mut list, "c".to_owned());
    assert_eq!(list, vec!["a", "b", "c"]);
    assert!(has_name(&list, "b"));
    assert!(!has_name(&list, "d"));
    assert!(same_names(&list, &read_names("C,B,A")));
    assert!(!same_names(&list, &read_names("a,b")));
    assert!(!same_names(&list, &read_names("a,b,d")));
}

#[test]
fn bytes_are_written_in_hexadecimal() {
    assert_eq!(to_hex(&[]), "");
    assert_eq!(to_hex(&[0, 9, 10, 15, 16, 171, 255]), "00090a0f10abff");
}
