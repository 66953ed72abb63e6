use switchbot::api::{BulbStatus, Device, Power};
use switchbot::cli::BumpAxis;
use switchbot::commands::{
    axis_delta, axis_label, bump_brightness, bump_rgb_channel, bump_temperature,
    format_devices_toml, format_status_json, infer_mode_from_status, require_mode,
    sanitize_section_key, unique_key, AxisDelta,
};
use switchbot::config::Mode;

#[test]
fn bump_rgb_within_range() {
    assert_eq!(bump_rgb_channel(100, 16), 116);
    assert_eq!(bump_rgb_channel(100, -16), 84);
}

#[test]
fn bump_rgb_clamps_at_max() {
    assert_eq!(bump_rgb_channel(250, 16), 255);
    assert_eq!(bump_rgb_channel(255, 16), 255);
}

#[test]
fn bump_rgb_clamps_at_zero() {
    assert_eq!(bump_rgb_channel(10, -16), 0);
    assert_eq!(bump_rgb_channel(0, -16), 0);
}

#[test]
fn bump_brightness_clamps_at_one() {
    assert_eq!(bump_brightness(5, -10), 1);
    assert_eq!(bump_brightness(1, -10), 1);
}

#[test]
fn bump_brightness_clamps_at_100() {
    assert_eq!(bump_brightness(95, 10), 100);
    assert_eq!(bump_brightness(100, 10), 100);
}

#[test]
fn bump_temperature_within_range() {
    assert_eq!(bump_temperature(3000, 100), 3100);
    assert_eq!(bump_temperature(3000, -100), 2900);
}

#[test]
fn bump_temperature_clamps() {
    assert_eq!(bump_temperature(2750, -100), 2700);
    assert_eq!(bump_temperature(6450, 100), 6500);
    assert_eq!(bump_temperature(2700, -100), 2700);
    assert_eq!(bump_temperature(6500, 100), 6500);
}

#[test]
fn axis_delta_mapping() {
    assert_eq!(axis_delta(BumpAxis::RPlus), AxisDelta::Red(16));
    assert_eq!(axis_delta(BumpAxis::RMinus), AxisDelta::Red(-16));
    assert_eq!(axis_delta(BumpAxis::BrightPlus), AxisDelta::Brightness(10));
    assert_eq!(axis_delta(BumpAxis::TempMinus), AxisDelta::Temperature(-100));
}

#[test]
fn axis_label_uses_user_facing_labels() {
    assert_eq!(axis_label(BumpAxis::RPlus), "R+");
    assert_eq!(axis_label(BumpAxis::RMinus), "R-");
    assert_eq!(axis_label(BumpAxis::BrightPlus), "bright+");
    assert_eq!(axis_label(BumpAxis::TempMinus), "temp-");
}

#[test]
fn require_mode_matches() {
    assert!(require_mode(Some(Mode::Rgb), Mode::Rgb).is_ok());
    assert!(require_mode(Some(Mode::Temp), Mode::Temp).is_ok());
}

#[test]
fn require_mode_mismatch_rgb_expected() {
    let err = require_mode(Some(Mode::Temp), Mode::Rgb).unwrap_err();
    let msg = err.message();
    assert!(msg.contains("温度モード"));
    assert!(msg.contains("switchbot color"));
}

#[test]
fn require_mode_mismatch_temp_expected() {
    let err = require_mode(Some(Mode::Rgb), Mode::Temp).unwrap_err();
    let msg = err.message();
    assert!(msg.contains("RGB モード"));
    assert!(msg.contains("switchbot temp"));
}

#[test]
fn require_mode_none_errors() {
    let err = require_mode(None, Mode::Rgb).unwrap_err();
    assert!(err.message().contains("モードが未設定"));
}

#[test]
fn sanitize_key_basic() {
    assert_eq!(sanitize_section_key("Living Bulb"), "living-bulb");
    assert_eq!(sanitize_section_key("Bedroom Plug Mini"), "bedroom-plug-mini");
    assert_eq!(sanitize_section_key("  Hi  "), "hi");
}

#[test]
fn sanitize_key_collapses_separators() {
    assert_eq!(sanitize_section_key("A!!B__C"), "a-b-c");
}

#[test]
fn sanitize_key_empty_falls_back() {
    assert_eq!(sanitize_section_key("---"), "device");
    assert_eq!(sanitize_section_key(""), "device");
}

fn device(id: &str, name: &str, kind: &str) -> Device {
    Device { id: id.to_string(), name: name.to_string(), kind: kind.to_string() }
}

#[test]
fn format_devices_single_uses_default() {
    let devices = vec![device("01-x", "Living Bulb", "Color Bulb")];
    let out = format_devices_toml(&devices);
    assert!(out.contains("[default]"));
    assert!(out.contains("id = \"01-x\""));
    assert!(out.contains("type = \"Color Bulb\""));
    assert!(out.contains("name = \"Living Bulb\""));
    assert!(!out.contains("[living-bulb]"));
}

#[test]
fn format_devices_multi_uses_sanitized_keys() {
    let devices = vec![
        device("01-x", "Living Bulb", "Color Bulb"),
        device("02-y", "Bedroom Plug", "Plug Mini"),
    ];
    let out = format_devices_toml(&devices);
    assert!(out.contains("[living-bulb]"));
    assert!(out.contains("[bedroom-plug]"));
    assert!(!out.contains("[default]"));
}

#[test]
fn format_devices_escapes_special_characters() {
    let devices = vec![device("01-x", "Living \"Smart\" Bulb\nNew Line", "Color Bulb")];
    let out = format_devices_toml(&devices);
    let parsed: toml::Value =
        toml::from_str(&out).expect("format_devices_toml must produce valid TOML");
    let name = parsed["default"]["name"].as_str().expect("name must be a string");
    assert_eq!(name, "Living \"Smart\" Bulb\nNew Line");
}

#[test]
fn format_devices_unique_keys_on_collision() {
    let devices = vec![device("01", "Bulb", "Color Bulb"), device("02", "Bulb", "Color Bulb")];
    let out = format_devices_toml(&devices);
    assert!(out.contains("[bulb]"), "first should be [bulb]: {}", out);
    assert!(out.contains("[bulb-2]"), "second should be [bulb-2]: {}", out);
}

#[test]
fn unique_key_increments_indefinitely() {
    let mut seen: Vec<String> = Vec::new();
    seen.push("base".to_string());
    seen.push("base-2".to_string());
    seen.push("base-3".to_string());
    let key = unique_key("base", &mut seen);
    assert_eq!(key, "base-4");
}

#[test]
fn unique_key_handles_collision_chain() {
    let mut seen: Vec<String> = Vec::new();
    seen.push("base".to_string());
    for n in 2..=1000 {
        seen.push(format!("base-{}", n));
    }
    let key = unique_key("base", &mut seen);
    assert_eq!(key, "base-1001");
}

fn make_status(color: &str, color_temperature: u32) -> BulbStatus {
    BulbStatus {
        power: Power::On,
        brightness: 50,
        color: color.to_string(),
        color_temperature,
    }
}

#[test]
fn infer_mode_zero_temperature_is_rgb() {
    let s = make_status("255:128:0", 0);
    assert_eq!(infer_mode_from_status(&s), Mode::Rgb);
}

#[test]
fn infer_mode_positive_temperature_is_temp() {
    let s = make_status("0:0:0", 3000);
    assert_eq!(infer_mode_from_status(&s), Mode::Temp);
}

#[test]
fn infer_mode_zero_color_with_temp_is_temp() {
    let s = make_status("0:0:0", 4500);
    assert_eq!(infer_mode_from_status(&s), Mode::Temp);
}

#[test]
fn format_status_json_rgb_mode() {
    let s = make_status("255:128:0", 0);
    let out = format_status_json(&s).unwrap();
    assert!(out.contains("\"power\":\"on\""));
    assert!(out.contains("\"brightness\":50"));
    assert!(out.contains("\"color\":\"255:128:0\""));
    assert!(out.contains("\"color_temperature\":0"));
    assert!(out.contains("\"mode\":\"rgb\""));
}

#[test]
fn format_status_json_temp_mode() {
    let s = make_status("0:0:0", 3000);
    let out = format_status_json(&s).unwrap();
    assert!(out.contains("\"color_temperature\":3000"));
    assert!(out.contains("\"mode\":\"temp\""));
}

#[test]
fn format_status_json_is_single_line() {
    let s = make_status("255:0:0", 0);
    let out = format_status_json(&s).unwrap();
    assert!(!out.contains('\n'), "JSON should be single line, got: {}", out);
}
