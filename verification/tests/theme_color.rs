use zlaunch::theme_color::{parse_hex_color, theme_hex_cuts_inside_character, HexColorError};

#[test]
fn theme_hex_forms() {
    assert_eq!(parse_hex_color("#3fc3aa"), Ok((0x3f, 0xc3, 0xaa, 255)));
    assert_eq!(parse_hex_color("#3fc3aa45"), Ok((0x3f, 0xc3, 0xaa, 0x45)));
    assert_eq!(parse_hex_color("##abc"), Ok((0xaa, 0xbb, 0xcc, 255)));
    assert_eq!(parse_hex_color("abcd"), Ok((0xaa, 0xbb, 0xcc, 0xdd)));
}

#[test]
fn theme_hex_errors() {
    let e = parse_hex_color("#12345").unwrap_err();
    assert_eq!(e, HexColorError::InvalidLength(5));
    assert_eq!(e.message(), "Invalid hex color length: 5");
    let e = parse_hex_color("#zzz").unwrap_err();
    assert_eq!(e, HexColorError::InvalidDigit);
    assert_eq!(e.message(), "Invalid hex color: invalid digit found in string");
    assert_eq!(
        parse_hex_color("#0123456789").unwrap_err().message(),
        "Invalid hex color length: 10"
    );
}

#[test]
fn theme_hex_slicing_check() {
    // 'é' takes two bytes: "aé" has three bytes and the second slice would cut it
    assert!(theme_hex_cuts_inside_character("#aé"));
    assert!(!theme_hex_cuts_inside_character("#abc"));
    // the first component fails before any cut is reached
    assert!(!theme_hex_cuts_inside_character("#zé"));
}
