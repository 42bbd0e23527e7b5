use sierpinski::ColorNote;
use sierpinski::Rgb;
use sierpinski::get_color;

fn rgb(r: u8, g: u8, b: u8) -> Rgb {
    Rgb { r, g, b }
}

#[test]
fn no_color_resolves_to_white() {
    assert_eq!(get_color(None), (rgb(255, 255, 255), ColorNote::Missing));
}

#[test]
fn empty_color_resolves_to_white_with_warning() {
    assert_eq!(get_color(Some("")), (rgb(255, 255, 255), ColorNote::Empty));
}

#[test]
fn shorthand_white() {
    assert_eq!(get_color(Some("fff")), (rgb(255, 255, 255), ColorNote::Valid));
}

#[test]
fn shorthand_red_with_hash() {
    assert_eq!(get_color(Some("#f00")), (rgb(255, 0, 0), ColorNote::Valid));
}

#[test]
fn full_green() {
    assert_eq!(get_color(Some("00ff00")), (rgb(0, 255, 0), ColorNote::Valid));
}

#[test]
fn full_blue_with_hash() {
    assert_eq!(get_color(Some("#0000ff")), (rgb(0, 0, 255), ColorNote::Valid));
}

#[test]
fn illegal_characters_resolve_to_white() {
    assert_eq!(get_color(Some("zzzzzz")), (rgb(255, 255, 255), ColorNote::IllegalChar));
}

#[test]
fn wrong_length_resolves_to_white() {
    assert_eq!(get_color(Some("12")), (rgb(255, 255, 255), ColorNote::BadLength));
}

#[test]
fn shorthand_expands_each_digit_twice() {
    // "abc" -> "aabbcc"
    assert_eq!(get_color(Some("abc")), (rgb(0xaa, 0xbb, 0xcc), ColorNote::Valid));
}

#[test]
fn uppercase_digits_are_accepted() {
    assert_eq!(get_color(Some("#ABCDEF")), (rgb(0xab, 0xcd, 0xef), ColorNote::Valid));
}

#[test]
fn mixed_case_full_form() {
    assert_eq!(get_color(Some("1A2b3C")), (rgb(0x1a, 0x2b, 0x3c), ColorNote::Valid));
}

#[test]
fn lone_hash_is_a_length_error() {
    assert_eq!(get_color(Some("#")), (rgb(255, 255, 255), ColorNote::BadLength));
}

#[test]
fn four_characters_are_a_length_error() {
    assert_eq!(get_color(Some("1234")), (rgb(255, 255, 255), ColorNote::BadLength));
}

#[test]
fn seven_characters_are_a_length_error() {
    assert_eq!(get_color(Some("#1234567")), (rgb(255, 255, 255), ColorNote::BadLength));
}

#[test]
fn illegal_character_in_shorthand() {
    assert_eq!(get_color(Some("12g")), (rgb(255, 255, 255), ColorNote::IllegalChar));
}

#[test]
fn sign_characters_are_illegal() {
    assert_eq!(get_color(Some("+a0b0c")), (rgb(255, 255, 255), ColorNote::IllegalChar));
    assert_eq!(get_color(Some("-10000")), (rgb(255, 255, 255), ColorNote::IllegalChar));
}

#[test]
fn only_the_first_hash_is_stripped() {
    // one '#' is removed; the five characters left are a length error
    assert_eq!(get_color(Some("##ff00")), (rgb(255, 255, 255), ColorNote::BadLength));
}

#[test]
fn hash_inside_the_digits_is_illegal() {
    assert_eq!(get_color(Some("ff#f00")), (rgb(255, 255, 255), ColorNote::IllegalChar));
}
