use lucide_slint::text::{chars_to_string, lex_compare, str_chars, LexOrder};

#[test]
fn compare_orders_strings() {
    assert!(matches!(lex_compare("anchor", "bell"), LexOrder::Less));
    assert!(matches!(lex_compare("bell", "anchor"), LexOrder::Greater));
    assert!(matches!(lex_compare("bell", "bell"), LexOrder::Equal));
    assert!(matches!(lex_compare("a", "ab"), LexOrder::Less));
    assert!(matches!(lex_compare("ab", "a"), LexOrder::Greater));
    assert!(matches!(lex_compare("", ""), LexOrder::Equal));
    assert!(matches!(lex_compare("", "a"), LexOrder::Less));
}

#[test]
fn chars_round_trip() {
    let v = str_chars("a-arrow \u{e9}");
    assert_eq!(chars_to_string(&v), "a-arrow \u{e9}");
}
