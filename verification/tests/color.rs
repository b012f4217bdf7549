use tauri_shell::color::{parse_hex_color, Color};

#[test]
fn long_form_is_read() {
    assert_eq!(parse_hex_color("#1e1e1e"), Some(Color(30, 30, 30, 255)));
    assert_eq!(parse_hex_color("#00FFa7"), Some(Color(0, 255, 167, 255)));
}

#[test]
fn short_form_doubles_its_digits() {
    assert_eq!(parse_hex_color("#0fA"), Some(Color(0, 255, 170, 255)));
    assert_eq!(parse_hex_color("#0fA"), parse_hex_color("#00ffAA"));
}

#[test]
fn signs_are_no_digits() {
    for value in ["#+a+b+c", "#+1+2+3", "#+ab", "#a+b+c+", "#-a-b-c"] {
        assert_eq!(parse_hex_color(value), None);
    }
}

#[test]
fn malformed_colors_are_none() {
    for value in ["", "#", "1e1e1e", "#12", "#1234", "#12345", "#1234567", "#ggg", "#12345g", " #fff"] {
        assert_eq!(parse_hex_color(value), None);
    }
}

#[test]
fn characters_outside_ascii_are_malformed() {
    // In UTF-8 these take as many bytes after the hash sign as a colour would.
    assert_eq!(parse_hex_color("#é1"), None);
    assert_eq!(parse_hex_color("#1€23"), None);
    assert_eq!(parse_hex_color("#é€é"), None);
}
