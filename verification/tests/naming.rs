use lucide_slint::name::{icon_component_name, to_pascal_case};

#[test]
fn pascal_case_kebab() {
    assert_eq!(to_pascal_case("a-arrow-down"), "AArrowDown");
}

#[test]
fn pascal_case_snake() {
    assert_eq!(to_pascal_case("arrow_left_right"), "ArrowLeftRight");
}

#[test]
fn pascal_case_only_spaces() {
    assert_eq!(to_pascal_case("  "), "");
}

#[test]
fn pascal_case_single_letter() {
    assert_eq!(to_pascal_case("x"), "X");
}

#[test]
fn pascal_case_empty() {
    assert_eq!(to_pascal_case(""), "");
}

#[test]
fn pascal_case_mixed_separators() {
    assert_eq!(to_pascal_case("badge-swiss_franc"), "BadgeSwissFranc");
}

#[test]
fn pascal_case_keeps_inner_case() {
    assert_eq!(to_pascal_case("aArrow-bX"), "AArrowBX");
}

#[test]
fn component_name_has_icon_suffix() {
    assert_eq!(icon_component_name("play"), "PlayIcon");
    assert_eq!(icon_component_name("a-arrow-down"), "AArrowDownIcon");
}
