use switchbot::cli::{parse_brightness, parse_hex, parse_temperature};

#[test]
fn color_uppercase_ok() {
    assert_eq!(parse_hex("FEDFE1").unwrap(), (0xFE, 0xDF, 0xE1));
}

#[test]
fn color_lowercase_ok() {
    assert_eq!(parse_hex("fedfe1").unwrap(), (0xFE, 0xDF, 0xE1));
}

#[test]
fn color_with_hash_rejected() {
    assert!(parse_hex("#FEDFE1").is_err());
}

#[test]
fn color_short_rejected() {
    assert!(parse_hex("FED").is_err());
}

#[test]
fn color_non_hex_rejected() {
    assert!(parse_hex("ZZZZZZ").is_err());
}

#[test]
fn bright_max_means_100() {
    assert_eq!(parse_brightness("max").unwrap(), 100);
}

#[test]
fn bright_50_ok() {
    assert_eq!(parse_brightness("50").unwrap(), 50);
}

#[test]
fn bright_zero_rejected() {
    assert!(parse_brightness("0").is_err());
}

#[test]
fn bright_101_rejected() {
    assert!(parse_brightness("101").is_err());
}

#[test]
fn temp_3000_ok() {
    assert_eq!(parse_temperature("3000").unwrap(), 3000);
}

#[test]
fn temp_2699_rejected() {
    assert!(parse_temperature("2699").is_err());
}

#[test]
fn temp_6501_rejected() {
    assert!(parse_temperature("6501").is_err());
}
