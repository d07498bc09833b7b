use lucide_slint::num::{fmt_coord, fmt_frac, fmt_i64, fmt_u64, Frac, COORD_SCALE};
use lucide_slint::text::chars_to_string;

fn scale(v: i64) -> i64 {
    v * COORD_SCALE as i64
}

fn coord_text(v: i64) -> String {
    let mut out: Vec<char> = Vec::new();
    fmt_coord(v, &mut out);
    chars_to_string(&out)
}

#[test]
fn coord_integer_values() {
    assert_eq!(coord_text(0), "0");
    assert_eq!(coord_text(scale(24)), "24");
    assert_eq!(coord_text(scale(-3)), "-3");
}

#[test]
fn coord_fractional_values() {
    assert_eq!(coord_text(scale(10) + 500000), "10.5");
    assert_eq!(coord_text(-(scale(0) + 500000)), "-0.5");
    assert_eq!(coord_text(scale(2) + 625000), "2.625");
    assert_eq!(coord_text(1), "0.000001");
}

#[test]
fn unsigned_decimal() {
    let mut out: Vec<char> = Vec::new();
    fmt_u64(9007199254740993, &mut out);
    assert_eq!(chars_to_string(&out), "9007199254740993");
}

#[test]
fn signed_decimal() {
    let mut out: Vec<char> = Vec::new();
    fmt_i64(-42, &mut out);
    assert_eq!(chars_to_string(&out), "-42");
}

#[test]
fn fraction_text() {
    let mut out: Vec<char> = Vec::new();
    fmt_frac(&Frac { num: -2000000, den: 24000000 }, &mut out);
    assert_eq!(chars_to_string(&out), "-2000000/24000000");
}
