use openclip::prefs::{count_from_field, login_item_script, parse_count};

#[test]
fn counts_parse_like_std() {
    let samples = [
        "0", "42", "+7", "-1", "", "+", "-", " 5", "5 ", "007", "1_000", "١٢", "12a",
        "18446744073709551615", "18446744073709551616", "99999999999999999999999", "+0",
        "4294967296",
    ];
    for s in samples {
        assert_eq!(parse_count(s), s.parse::<usize>().ok(), "input {:?}", s);
    }
}

#[test]
fn count_values() {
    assert_eq!(parse_count("80"), Some(80));
    assert_eq!(parse_count("+3"), Some(3));
    assert_eq!(parse_count("abc"), None);
}

#[test]
fn field_keeps_value_until_it_holds_a_count() {
    assert_eq!(count_from_field("25", 80), 25);
    assert_eq!(count_from_field("", 80), 80);
    assert_eq!(count_from_field("2x", 80), 80);
}

#[test]
fn login_scripts() {
    assert_eq!(
        login_item_script(true, "/Applications/OpenClip.app"),
        "tell application \"System Events\" to make login item at end with properties {path:\"/Applications/OpenClip.app\", hidden:false}"
    );
    assert_eq!(
        login_item_script(false, "/ignored"),
        "tell application \"System Events\" to delete login item \"OpenClip\""
    );
}
