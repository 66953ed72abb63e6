use std::path::PathBuf;
use switchbot::api::{
    commands_url, devices_from_response, status_from_response, status_url, ApiResponse,
    BulbStatus, Device, DeviceCommand, DeviceList, Power,
};
use switchbot::cli::{parse_brightness, parse_hex, BumpAxis, Command};
use switchbot::commands::{handle, section_keys, Action, Event, Progress};
use switchbot::config::{
    credentials_from_op_output, env_permissions_too_open, mode_file_content, mode_from_label,
    next_setup_action, plan_credentials, select_default_device, Context, CredentialError,
    CredentialPlan, Credentials, DefaultDevice, DeviceState, LoadContextError, Mode,
    SetupAction, SetupProgress,
};
use switchbot::feedback::notification_script;
use switchbot::signing::{sign_payload, uppercase_ascii};

fn ctx(device: DeviceState) -> Context {
    Context {
        credentials: Credentials { token: "tok".to_string(), secret: "sec".to_string() },
        device,
        mode_path: PathBuf::from("/nonexistent/mode"),
        log_path: PathBuf::from("/nonexistent/log"),
    }
}

fn configured() -> DeviceState {
    DeviceState::Configured(DefaultDevice {
        id: "dev-1".to_string(),
        kind: "Color Bulb".to_string(),
        name: "Bulb".to_string(),
    })
}

fn status(color: &str, brightness: u32, color_temperature: u32) -> BulbStatus {
    BulbStatus { power: Power::On, brightness, color: color.to_string(), color_temperature }
}

/// Runs a command against scripted outcomes; returns the actions taken and the result.
fn run(
    command: Command,
    device: DeviceState,
    local_mode: Option<Mode>,
    st: Option<BulbStatus>,
) -> (Vec<String>, Result<String, String>) {
    let c = ctx(device);
    let mut p = Progress::new();
    let mut log = Vec::new();
    for _ in 0..10 {
        match handle(&command, &c, &p) {
            Action::ReadMode => {
                log.push("read-mode".to_string());
                p.record(Event::ModeRead(local_mode));
            }
            Action::FetchStatus { device_id } => {
                log.push(format!("status {}", device_id));
                p.record(Event::StatusFetched(st.clone().expect("status needed")));
            }
            Action::FetchDevices => {
                log.push("devices".to_string());
                p.record(Event::DevicesFetched(vec![]));
            }
            Action::Send { device_id, command } => {
                log.push(format!("send {} {} {}", device_id, command.name(), command.parameter()));
                p.record(Event::Sent);
            }
            Action::WriteMode(m) => {
                log.push(format!("write {}", m.as_str()));
                p.record(Event::ModeWritten);
            }
            Action::Finish(r) => return (log, r.map_err(|e| e.message())),
        }
    }
    panic!("command did not finish");
}

#[test]
fn color_sends_then_records_rgb() {
    let (log, r) = run(Command::Color { rgb: (0xFE, 0xDF, 0xE1) }, configured(), None, None);
    assert_eq!(log, vec!["send dev-1 setColor 254:223:225", "write rgb"]);
    assert_eq!(r.unwrap(), "color FEDFE1 ok");
}

#[test]
fn temp_sends_then_records_temp() {
    let (log, r) = run(Command::Temp { kelvin: 3000 }, configured(), None, None);
    assert_eq!(log, vec!["send dev-1 setColorTemperature 3000", "write temp"]);
    assert_eq!(r.unwrap(), "temp 3000 ok");
}

#[test]
fn bright_on_off_send_once() {
    let (log, r) = run(Command::Bright { value: 50 }, configured(), None, None);
    assert_eq!(log, vec!["send dev-1 setBrightness 50"]);
    assert_eq!(r.unwrap(), "bright 50 ok");
    let (log, r) = run(Command::On, configured(), None, None);
    assert_eq!(log, vec!["send dev-1 turnOn default"]);
    assert_eq!(r.unwrap(), "on ok");
    let (_, r) = run(Command::Off, configured(), None, None);
    assert_eq!(r.unwrap(), "off ok");
}

#[test]
fn mode_prefers_local_file() {
    let (log, r) = run(Command::Mode, configured(), Some(Mode::Temp), None);
    assert_eq!(log, vec!["read-mode"]);
    assert_eq!(r.unwrap(), "temp");
}

#[test]
fn mode_falls_back_to_status() {
    let (log, r) = run(Command::Mode, configured(), None, Some(status("255:0:0", 50, 0)));
    assert_eq!(log, vec!["read-mode", "status dev-1"]);
    assert_eq!(r.unwrap(), "rgb");
}

#[test]
fn status_prints_json_line() {
    let (_, r) = run(Command::Status, configured(), None, Some(status("255:0:0", 50, 0)));
    assert_eq!(
        r.unwrap(),
        r#"{"brightness":50,"color":"255:0:0","color_temperature":0,"mode":"rgb","power":"on"}"#
    );
}

#[test]
fn status_json_escapes_quotes() {
    let (_, r) = run(Command::Status, configured(), None, Some(status("a\"b", 1, 3000)));
    assert!(r.unwrap().contains(r#""color":"a\"b""#));
}

#[test]
fn sync_writes_mode_from_status() {
    let (log, r) = run(Command::Sync, configured(), None, Some(status("0:0:0", 50, 3100)));
    assert_eq!(log, vec!["status dev-1", "write temp"]);
    assert_eq!(r.unwrap(), "sync ok (temp)");
}

#[test]
fn bump_without_local_mode_infers_rgb() {
    let (log, r) = run(
        Command::Bump { axis: BumpAxis::RMinus },
        configured(),
        None,
        Some(status("255:0:0", 50, 0)),
    );
    assert_eq!(log, vec!["read-mode", "status dev-1", "send dev-1 setColor 239:0:0"]);
    assert_eq!(r.unwrap(), "bump R- ok (239:0:0)");
}

#[test]
fn bump_rgb_refused_in_temp_mode() {
    let (log, r) = run(
        Command::Bump { axis: BumpAxis::RPlus },
        configured(),
        Some(Mode::Temp),
        Some(status("0:0:0", 50, 3000)),
    );
    assert_eq!(log, vec!["read-mode".to_string()]);
    assert!(r.unwrap_err().contains("現在 温度モードです"));
}

#[test]
fn bump_temp_refused_in_rgb_mode() {
    let (_, r) = run(
        Command::Bump { axis: BumpAxis::TempPlus },
        configured(),
        None,
        Some(status("255:0:0", 50, 0)),
    );
    assert!(r.unwrap_err().contains("現在 RGB モードです"));
}

#[test]
fn bump_brightness_and_temperature_messages() {
    let (_, r) = run(
        Command::Bump { axis: BumpAxis::BrightPlus },
        configured(),
        Some(Mode::Temp),
        Some(status("0:0:0", 95, 3000)),
    );
    assert_eq!(r.unwrap(), "bump bright+ ok (100)");
    let (log, r) = run(
        Command::Bump { axis: BumpAxis::TempPlus },
        configured(),
        Some(Mode::Temp),
        Some(status("0:0:0", 50, 3000)),
    );
    assert_eq!(log[2], "send dev-1 setColorTemperature 3100");
    assert_eq!(r.unwrap(), "bump temp+ ok (3100K)");
}

#[test]
fn bump_with_bad_color_fails() {
    let (_, r) = run(
        Command::Bump { axis: BumpAxis::GPlus },
        configured(),
        Some(Mode::Rgb),
        Some(status("1:2", 50, 0)),
    );
    assert_eq!(r.unwrap_err(), "invalid color string '1:2': expected 'R:G:B'");
}

#[test]
fn commands_need_a_device() {
    let (log, r) = run(Command::On, DeviceState::Unconfigured, None, None);
    assert!(log.is_empty());
    assert!(r.unwrap_err().contains("デバイスが未設定です"));
    let (_, r) = run(Command::Status, DeviceState::Malformed("bad toml".to_string()), None, None);
    assert!(r.unwrap_err().contains("解析に失敗しました: bad toml\n"));
}

#[test]
fn list_needs_no_device() {
    let (log, r) = run(Command::List, DeviceState::Unconfigured, None, None);
    assert_eq!(log, vec!["devices"]);
    assert_eq!(r.unwrap(), "");
}

#[test]
fn section_keys_stay_distinct() {
    let d = |id: &str| Device { id: id.to_string(), name: "Bulb".to_string(), kind: "x".to_string() };
    let keys = section_keys(&[d("1"), d("2"), d("3")]);
    assert_eq!(keys, vec!["bulb", "bulb-2", "bulb-3"]);
    let keys = section_keys(&[d("1")]);
    assert_eq!(keys, vec!["default"]);
}

#[test]
fn first_run_asks_to_edit_env() {
    let mut p = SetupProgress::new();
    assert!(matches!(next_setup_action(&p, "/h/.switchbot/.env"), SetupAction::CreateDir));
    p.dir = Some(Ok(()));
    p.env_template = Some(Ok(true));
    p.devices_template = Some(Ok(true));
    match next_setup_action(&p, "/h/.switchbot/.env") {
        SetupAction::Fail(e) => {
            assert!(!e.should_notify());
            assert_eq!(e.message(), "/h/.switchbot/.env を編集してください");
        }
        other => panic!("unexpected {:?}", other),
    }
}

#[test]
fn malformed_devices_do_not_fail_setup() {
    let mut p = SetupProgress::new();
    p.dir = Some(Ok(()));
    p.env_template = Some(Ok(false));
    p.devices_template = Some(Ok(false));
    assert!(matches!(next_setup_action(&p, "e"), SetupAction::EnforcePermissions));
    p.permissions = Some(Ok(()));
    p.credentials = Some(Ok(Credentials { token: "t".to_string(), secret: "s".to_string() }));
    assert!(matches!(next_setup_action(&p, "e"), SetupAction::LoadDevices));
    p.devices = Some(Err("bad".to_string()));
    match next_setup_action(&p, "e") {
        SetupAction::Ready { credentials, device: DeviceState::Malformed(m) } => {
            assert_eq!(credentials.token, "t");
            assert_eq!(m, "bad");
        }
        other => panic!("unexpected {:?}", other),
    }
}

#[test]
fn credential_failures_are_runtime_errors() {
    let mut p = SetupProgress::new();
    p.dir = Some(Ok(()));
    p.env_template = Some(Ok(false));
    p.devices_template = Some(Ok(false));
    p.permissions = Some(Ok(()));
    p.credentials = Some(Err("op failed".to_string()));
    match next_setup_action(&p, "e") {
        SetupAction::Fail(e) => {
            assert!(e.should_notify());
            assert!(matches!(e, LoadContextError::Runtime(_)));
        }
        other => panic!("unexpected {:?}", other),
    }
}

#[test]
fn credentials_plans() {
    match plan_credentials("SWITCHBOT_TOKEN=tok\nSWITCHBOT_SECRET=sec\n").unwrap() {
        CredentialPlan::Ready(c) => {
            assert_eq!(c.token, "tok");
            assert_eq!(c.secret, "sec");
        }
        other => panic!("unexpected {:?}", other),
    }
    assert!(matches!(
        plan_credentials("SWITCHBOT_TOKEN=op://a/b/c\nSWITCHBOT_SECRET=x\n").unwrap(),
        CredentialPlan::ResolveWithOp
    ));
    let e = plan_credentials("SWITCHBOT_SECRET=sec\n").unwrap_err();
    assert_eq!(e.message("/p/.env"), "SWITCHBOT_TOKEN is empty or missing in /p/.env");
    let e = plan_credentials("SWITCHBOT_TOKEN=\nSWITCHBOT_SECRET=sec\n").unwrap_err();
    assert!(matches!(e, CredentialError::MissingToken));
    let e = plan_credentials("SWITCHBOT_TOKEN=t\n").unwrap_err();
    assert!(matches!(e, CredentialError::MissingSecret));
    let e = plan_credentials("oops\n").unwrap_err();
    assert_eq!(e.message("/p/.env"), "failed to parse /p/.env");
    let e = credentials_from_op_output("oops\n").unwrap_err();
    assert_eq!(e.message("/p/.env"), "invalid .env line 1 (no '=' separator): oops");
    let c = credentials_from_op_output("SWITCHBOT_TOKEN=a\nSWITCHBOT_SECRET=b").unwrap();
    assert_eq!((c.token.as_str(), c.secret.as_str()), ("a", "b"));
}

#[test]
fn default_device_id_is_trimmed() {
    let d = |id: &str| DefaultDevice { id: id.to_string(), kind: String::new(), name: String::new() };
    assert_eq!(select_default_device(Some(d("  abc  "))).unwrap().id, "abc");
    assert!(select_default_device(Some(d("   "))).is_none());
    assert!(select_default_device(Some(d(""))).is_none());
    assert!(select_default_device(None).is_none());
}

#[test]
fn mode_file_round_trip() {
    assert_eq!(mode_file_content(Mode::Rgb), "mode = \"rgb\"\n");
    assert_eq!(mode_file_content(Mode::Temp), "mode = \"temp\"\n");
    assert_eq!(mode_from_label(Mode::Rgb.as_str()).unwrap(), Mode::Rgb);
    assert_eq!(mode_from_label(Mode::Temp.as_str()).unwrap(), Mode::Temp);
    let e = mode_from_label("unknown").unwrap_err();
    assert_eq!(e.message(), "invalid mode value 'unknown': expected 'rgb' or 'temp'");
}

#[test]
fn permission_check() {
    assert!(env_permissions_too_open(0o100644));
    assert!(env_permissions_too_open(0o640));
    assert!(!env_permissions_too_open(0o100600));
    assert!(!env_permissions_too_open(0o700));
}

#[test]
fn replies_without_body_are_errors() {
    let r: ApiResponse<DeviceList> =
        ApiResponse { status_code: 100, message: "success".to_string(), body: None };
    assert_eq!(devices_from_response(r).unwrap_err().message(), "empty body in list_devices");
    let r: ApiResponse<BulbStatus> =
        ApiResponse { status_code: 100, message: "success".to_string(), body: None };
    assert_eq!(status_from_response(r).unwrap_err().message(), "empty body in get_status");
    let r: ApiResponse<BulbStatus> =
        ApiResponse { status_code: 190, message: "bad".to_string(), body: None };
    assert_eq!(status_from_response(r).unwrap_err().message(), "API error: bad (statusCode=190)");
}

#[test]
fn headers_refuse_control_characters() {
    assert!(switchbot::api::build_headers("to\nk", 1, "n", "S").is_err());
    assert!(switchbot::api::auth_headers("tok", "sec", -5, "n\r").is_err());
    let h = switchbot::api::auth_headers("tok", "sec", -5, "nonce").unwrap();
    assert_eq!(h[2].1, "-5");
    assert_eq!(h[1].1.len(), 44);
}

#[test]
fn command_fields_and_urls() {
    let c = DeviceCommand::SetColor { r: 254, g: 223, b: 225 };
    assert_eq!(c.name(), "setColor");
    assert_eq!(c.parameter(), "254:223:225");
    assert_eq!(DeviceCommand::TurnOff.parameter(), "default");
    assert_eq!(status_url("abc"), "https://api.switch-bot.com/v1.1/devices/abc/status");
    assert_eq!(commands_url("abc"), "https://api.switch-bot.com/v1.1/devices/abc/commands");
}

#[test]
fn sign_parts() {
    assert_eq!(sign_payload("tok", -12, "n"), "tok-12n");
    assert_eq!(sign_payload("tok", 1635146797241, ""), "tok1635146797241");
    assert_eq!(uppercase_ascii("aZ+/éx"), "AZ+/éX");
}

#[test]
fn argument_edge_cases() {
    assert_eq!(parse_brightness("+7").unwrap(), 7);
    assert!(parse_brightness("-7").is_err());
    assert_eq!(parse_brightness("x").unwrap_err(), "整数または 'max' を指定してください (got 'x')");
    assert_eq!(parse_brightness("4294967296").unwrap_err(), "整数または 'max' を指定してください (got '4294967296')");
    assert_eq!(parse_brightness("101").unwrap_err(), "明るさは 1-100 の範囲です (got 101)");
    assert_eq!(parse_hex("FED").unwrap_err(), "hex は 6 桁である必要があります (got 3 桁)");
    assert_eq!(parse_hex("ZZZZZZ").unwrap_err(), "hex は 16 進数である必要があります (got 'ZZZZZZ')");
    assert_eq!(switchbot::api::parse_color_str("+1:02:3").unwrap(), (1, 2, 3));
    assert!(switchbot::api::parse_color_str(" 1:2:3").is_err());
}

#[test]
fn notification_script_escapes() {
    assert_eq!(
        notification_script("say \"hi\"\nnow"),
        "display notification \"say \\\"hi\\\" now\" with title \"switchbot\""
    );
}

#[test]
fn color_parameter_parses_back() {
    for &(r, g, b) in &[(0u8, 0u8, 0u8), (254, 223, 225), (255, 9, 10)] {
        let p = DeviceCommand::SetColor { r, g, b }.parameter();
        assert_eq!(switchbot::api::parse_color_str(&p).unwrap(), (r, g, b));
    }
}

#[test]
fn hex_reply_parses_back() {
    let run = run_color_reply(0xFE, 0x0A, 0xE1);
    assert_eq!(run, "color FE0AE1 ok");
    assert_eq!(parse_hex("FE0AE1").unwrap(), (0xFE, 0x0A, 0xE1));
}

fn run_color_reply(r: u8, g: u8, b: u8) -> String {
    let c = ctx(configured());
    let mut p = Progress::new();
    p.record(Event::Sent);
    p.record(Event::ModeWritten);
    match handle(&Command::Color { rgb: (r, g, b) }, &c, &p) {
        Action::Finish(Ok(s)) => s,
        other => panic!("unexpected action {:?}", other),
    }
}

#[test]
fn number_parameters_parse_back() {
    let p = DeviceCommand::SetBrightness { value: 100 }.parameter();
    assert_eq!(parse_brightness(&p).unwrap(), 100);
    let k = DeviceCommand::SetColorTemperature { kelvin: 2700 }.parameter();
    assert_eq!(switchbot::cli::parse_temperature(&k).unwrap(), 2700);
}

#[test]
fn log_line_is_one_line() {
    let line = switchbot::feedback::format_log_line("2026-05-04T12:34:56+09:00", "ERROR", "a\r\nb\nc");
    assert_eq!(line, "2026-05-04T12:34:56+09:00 ERROR a\n");
    let line = switchbot::feedback::format_log_line("T", "INFO", "");
    assert_eq!(line, "T INFO  \n");
    assert_eq!(line.matches('\n').count(), 1);
}

#[test]
fn notification_script_is_one_line() {
    let s = notification_script("x\r\ny\\z");
    assert!(!s.contains('\n') && !s.contains('\r'));
    assert_eq!(s, "display notification \"x y\\\\z\" with title \"switchbot\"");
}

#[test]
fn join_sections_separates_with_blank_line() {
    let parts = vec!["[a]\nid = \"1\"\n".to_string(), "[b]\nid = \"2\"\n".to_string()];
    assert_eq!(
        switchbot::listing::join_sections(&parts),
        "[a]\nid = \"1\"\n\n[b]\nid = \"2\"\n"
    );
    assert_eq!(switchbot::listing::join_sections(&Vec::new()), "");
}

#[test]
fn success_output_per_command() {
    assert_eq!(switchbot::commands::success_output(&Command::List, "[default]\n"), (Some("[default]\n".to_string()), "list ok".to_string()));
    assert_eq!(switchbot::commands::success_output(&Command::Status, "{}"), (Some("{}\n".to_string()), "status ok".to_string()));
    assert_eq!(switchbot::commands::success_output(&Command::Mode, "rgb"), (Some("rgb\n".to_string()), "mode ok (rgb)".to_string()));
    assert_eq!(switchbot::commands::success_output(&Command::On, "on ok"), (None, "on ok".to_string()));
}

#[test]
fn log_levels() {
    assert_eq!(switchbot::feedback::log_info("T", "hello"), "T INFO  hello\n");
    assert_eq!(switchbot::feedback::log_error("T", "bad\nmore"), "T ERROR bad\n");
}

#[test]
fn command_bodies() {
    assert_eq!(
        DeviceCommand::SetColor { r: 254, g: 223, b: 225 }.body(),
        "{\"command\":\"setColor\",\"commandType\":\"command\",\"parameter\":\"254:223:225\"}"
    );
    assert_eq!(
        DeviceCommand::TurnOn.body(),
        "{\"command\":\"turnOn\",\"commandType\":\"command\",\"parameter\":\"default\"}"
    );
}

#[test]
fn command_body_matches_serde_json_object() {
    let mut map = serde_json::Map::new();
    map.insert("command".to_string(), serde_json::Value::String("setBrightness".to_string()));
    map.insert("parameter".to_string(), serde_json::Value::String("50".to_string()));
    map.insert("commandType".to_string(), serde_json::Value::String("command".to_string()));
    let expected = serde_json::to_string(&serde_json::Value::Object(map)).unwrap();
    assert_eq!(DeviceCommand::SetBrightness { value: 50 }.body(), expected);
}

#[test]
fn http_errors_carry_status_and_message() {
    let e = switchbot::api::send_command_reply::<()>(429, Some("Too Many Requests".to_string()), None)
        .unwrap_err();
    assert_eq!(e.message(), "HTTP 429 error: Too Many Requests");
    let e = switchbot::api::get_status_reply(500, None, None).unwrap_err();
    assert_eq!(e.message(), "HTTP 500 error");
    let ok = ApiResponse { status_code: 100, message: "success".to_string(), body: Some(()) };
    let e = switchbot::api::send_command_reply(401, Some("Unauthorized".to_string()), Some(ok))
        .unwrap_err();
    assert_eq!(e.message(), "HTTP 401 error: Unauthorized");
    let e = switchbot::api::list_devices_reply(200, None, None).unwrap_err();
    assert_eq!(e.message(), "failed to decode list_devices JSON");
    let bad = ApiResponse::<()> { status_code: 190, message: "bad".to_string(), body: None };
    let e = switchbot::api::send_command_reply(200, Some("bad".to_string()), Some(bad)).unwrap_err();
    assert_eq!(e.message(), "API error: bad (statusCode=190)");
    let ok = ApiResponse::<()> { status_code: 100, message: "success".to_string(), body: None };
    assert!(switchbot::api::send_command_reply(200, Some("success".to_string()), Some(ok)).is_ok());
    let list = ApiResponse {
        status_code: 100,
        message: "success".to_string(),
        body: Some(DeviceList { device_list: vec![Device { id: "a".to_string(), name: "n".to_string(), kind: "Color Bulb".to_string() }] }),
    };
    let devices = switchbot::api::list_devices_reply(204, None, Some(list)).unwrap();
    assert_eq!(devices.len(), 1);
    assert_eq!(devices[0].id, "a");
}

#[test]
fn three_log_calls_give_three_lines() {
    let mut log = String::new();
    log.push_str(&switchbot::feedback::log_info("T1", "first message"));
    log.push_str(&switchbot::feedback::log_info("T2", "second message\nignored"));
    log.push_str(&switchbot::feedback::log_error("T3", "third message"));
    let lines: Vec<&str> = log.lines().collect();
    assert_eq!(lines, vec!["T1 INFO  first message", "T2 INFO  second message", "T3 ERROR third message"]);
}

#[test]
fn applescript_escape_reads_back() {
    let msg = "a \"q\" \\ b\r\nc\nd";
    let escaped = switchbot::feedback::escape_for_applescript(msg);
    let mut decoded = String::new();
    let mut chars = escaped.chars();
    while let Some(c) = chars.next() {
        assert_ne!(c, '"', "unescaped quote in {:?}", escaped);
        if c == '\\' {
            decoded.push(chars.next().expect("lone backslash"));
        } else {
            decoded.push(c);
        }
    }
    assert_eq!(decoded, msg.replace('\r', "").replace('\n', " "));
    assert!(!escaped.contains('\n') && !escaped.contains('\r'));
}

/// Loading with an existing `.env` holding plain credentials, for each outcome of the devices file.
#[test]
fn plain_env_loads_for_every_devices_outcome() {
    let creds = match plan_credentials("SWITCHBOT_TOKEN=tok\nSWITCHBOT_SECRET=sec\n").unwrap() {
        CredentialPlan::Ready(c) => c,
        other => panic!("unexpected {:?}", other),
    };
    let outcomes: Vec<Result<Option<DefaultDevice>, String>> = vec![
        Ok(Some(DefaultDevice { id: "abc-123".to_string(), kind: "Color Bulb".to_string(), name: String::new() })),
        Ok(None),
        Err("failed to parse devices file".to_string()),
    ];
    for (n, devices) in outcomes.into_iter().enumerate() {
        let mut p = SetupProgress::new();
        p.dir = Some(Ok(()));
        p.env_template = Some(Ok(false));
        p.devices_template = Some(Ok(false));
        p.permissions = Some(Ok(()));
        p.credentials = Some(Ok(creds.clone()));
        p.devices = Some(devices);
        match next_setup_action(&p, "/h/.switchbot/.env") {
            SetupAction::Ready { credentials, device } => {
                assert_eq!((credentials.token.as_str(), credentials.secret.as_str()), ("tok", "sec"));
                match (n, device) {
                    (0, DeviceState::Configured(d)) => assert_eq!(d.id, "abc-123"),
                    (1, DeviceState::Unconfigured) => {}
                    (2, DeviceState::Malformed(_)) => {}
                    (_, other) => panic!("unexpected device {:?}", other),
                }
            }
            other => panic!("unexpected {:?}", other),
        }
    }
}

#[test]
fn env_first_bad_line_and_last_value() {
    let e = parse_env_content_for_test("# c\nA = 1\n\nnope\nB\n");
    assert_eq!(e, Err((4, "nope".to_string())));
    let ok = switchbot::config::parse_env_content(" K = a=b \nK=c\n").unwrap();
    assert_eq!(ok.get("K").map(|s| s.as_str()), Some("c"));
    let ok = switchbot::config::parse_env_content("K = \"a=b\" \n").unwrap();
    assert_eq!(ok.get("K").map(|s| s.as_str()), Some("\"a=b\""));
}

fn parse_env_content_for_test(s: &str) -> Result<(), (usize, String)> {
    switchbot::config::parse_env_content(s).map(|_| ()).map_err(|e| (e.line, e.content))
}

#[test]
fn section_key_is_a_fixed_point() {
    for name in ["Living Bulb", "  --ab__CD--9 ", "日本語", "device", "A"] {
        let k = switchbot::commands::sanitize_section_key(name);
        assert_eq!(switchbot::commands::sanitize_section_key(&k), k);
    }
    assert_eq!(switchbot::commands::sanitize_section_key("日本語 !"), "device");
    assert_eq!(switchbot::commands::sanitize_section_key("--ab__CD--9 "), "ab-cd-9");
}

#[test]
fn unique_key_keeps_seen_distinct() {
    let mut seen: Vec<String> = Vec::new();
    for base in ["a", "a", "a-2", "a", "b"] {
        switchbot::commands::unique_key(base, &mut seen);
    }
    assert_eq!(seen, vec!["a", "a-2", "a-2-2", "a-3", "b"]);
}
