//! The commands: bump arithmetic, mode checks, the status JSON line, the
//! devices listing, and the decisions of each command.
use vstd::prelude::*;
pub use crate::listing::{format_devices_toml, sanitize_section_key, section_keys, unique_key};
pub use crate::status_json::format_status_json;
use crate::api::{
    color_error_text, color_value, command_name, command_parameter, parse_color_str, BulbStatus,
    ColorErrorKind, ColorParseError, Device, DeviceCommand,
};
use crate::cli::{BumpAxis, Command};
use crate::config::{mode_label, Context, DeviceState, Mode};
use crate::listing::{assigned_keys, devices_text};
use crate::status_json::{status_json, StatusFormatError};
use crate::text::{decimal, hex_byte, push_char, push_decimal, push_hex_byte};

verus! {

/// The step of `bump R±`, `G±` and `B±`.
pub const RGB_STEP: i32 = 16;

/// The step of `bump bright±`.
pub const BRIGHT_STEP: i32 = 10;

/// The step of `bump temp±`, in kelvin.
pub const TEMP_STEP: i32 = 100;

/// `v` limited to `lo..=hi`.
pub open spec fn clamp(v: int, lo: int, hi: int) -> int {
    if v < lo {
        lo
    } else if v > hi {
        hi
    } else {
        v
    }
}

/// `v` reduced into the range of `i32` by two's complement wrap-around
/// (for `v` within one wrap of that range).
pub open spec fn wrap_i32(v: int) -> int {
    if v > i32::MAX {
        v - 0x1_0000_0000
    } else if v < i32::MIN {
        v + 0x1_0000_0000
    } else {
        v
    }
}

/// `a + b` on `i32` as a release build computes it: exact when the sum fits,
/// wrapped around otherwise.
fn add_i32(a: i32, b: i32) -> (r: i32)
    ensures
        r == wrap_i32(a + b),
{
    let s: i64 = a as i64 + b as i64;
    if s > 0x7fff_ffff {
        (s - 0x1_0000_0000) as i32
    } else if s < -0x8000_0000 {
        (s + 0x1_0000_0000) as i32
    } else {
        s as i32
    }
}

/// `x as i32` for a `u32`: the same bits read as two's complement.
fn u32_as_i32(x: u32) -> (r: i32)
    ensures
        r == wrap_i32(x as int),
{
    if x > 0x7fff_ffff {
        ((x as i64) - 0x1_0000_0000) as i32
    } else {
        x as i32
    }
}

fn clamp_i32(v: i32, lo: i32, hi: i32) -> (r: i32)
    requires
        lo <= hi,
    ensures
        r == clamp(v as int, lo as int, hi as int),
{
    if v < lo {
        lo
    } else if v > hi {
        hi
    } else {
        v
    }
}

/// One RGB channel moved by `delta` and limited to 0 to 255.
pub fn bump_rgb_channel(current: u8, delta: i32) -> (r: u8)
    ensures
        r == clamp(wrap_i32(current + delta), 0, 255),
{
    clamp_i32(add_i32(current as i32, delta), 0, 255) as u8
}

/// The brightness moved by `delta` and limited to 1 to 100.
pub fn bump_brightness(current: u32, delta: i32) -> (r: u32)
    ensures
        r == clamp(wrap_i32(wrap_i32(current as int) + delta), 1, 100),
{
    clamp_i32(add_i32(u32_as_i32(current), delta), 1, 100) as u32
}

/// The colour temperature moved by `delta` and limited to 2700 to 6500 K.
pub fn bump_temperature(current: u32, delta: i32) -> (r: u32)
    ensures
        r == clamp(wrap_i32(wrap_i32(current as int) + delta), 2700, 6500),
{
    clamp_i32(add_i32(u32_as_i32(current), delta), 2700, 6500) as u32
}

/// What a bump moves, and by how much.
#[derive(Debug, Clone, Copy, PartialEq, Eq, Structural)]
pub enum AxisDelta {
    Red(i32),
    Green(i32),
    Blue(i32),
    Brightness(i32),
    Temperature(i32),
}

/// The channel and signed step of each bump axis.
pub open spec fn axis_delta_of(axis: BumpAxis) -> AxisDelta {
    match axis {
        BumpAxis::RPlus => AxisDelta::Red(RGB_STEP),
        BumpAxis::RMinus => AxisDelta::Red((-RGB_STEP) as i32),
        BumpAxis::GPlus => AxisDelta::Green(RGB_STEP),
        BumpAxis::GMinus => AxisDelta::Green((-RGB_STEP) as i32),
        BumpAxis::BPlus => AxisDelta::Blue(RGB_STEP),
        BumpAxis::BMinus => AxisDelta::Blue((-RGB_STEP) as i32),
        BumpAxis::BrightPlus => AxisDelta::Brightness(BRIGHT_STEP),
        BumpAxis::BrightMinus => AxisDelta::Brightness((-BRIGHT_STEP) as i32),
        BumpAxis::TempPlus => AxisDelta::Temperature(TEMP_STEP),
        BumpAxis::TempMinus => AxisDelta::Temperature((-TEMP_STEP) as i32),
    }
}

/// The channel and signed step of a bump axis.
pub fn axis_delta(axis: BumpAxis) -> (d: AxisDelta)
    ensures
        d == axis_delta_of(axis),
{
    match axis {
        BumpAxis::RPlus => AxisDelta::Red(RGB_STEP),
        BumpAxis::RMinus => AxisDelta::Red(-RGB_STEP),
        BumpAxis::GPlus => AxisDelta::Green(RGB_STEP),
        BumpAxis::GMinus => AxisDelta::Green(-RGB_STEP),
        BumpAxis::BPlus => AxisDelta::Blue(RGB_STEP),
        BumpAxis::BMinus => AxisDelta::Blue(-RGB_STEP),
        BumpAxis::BrightPlus => AxisDelta::Brightness(BRIGHT_STEP),
        BumpAxis::BrightMinus => AxisDelta::Brightness(-BRIGHT_STEP),
        BumpAxis::TempPlus => AxisDelta::Temperature(TEMP_STEP),
        BumpAxis::TempMinus => AxisDelta::Temperature(-TEMP_STEP),
    }
}

/// The label the user types for each axis.
pub open spec fn axis_text(axis: BumpAxis) -> Seq<char> {
    match axis {
        BumpAxis::RPlus => "R+"@,
        BumpAxis::RMinus => "R-"@,
        BumpAxis::GPlus => "G+"@,
        BumpAxis::GMinus => "G-"@,
        BumpAxis::BPlus => "B+"@,
        BumpAxis::BMinus => "B-"@,
        BumpAxis::BrightPlus => "bright+"@,
        BumpAxis::BrightMinus => "bright-"@,
        BumpAxis::TempPlus => "temp+"@,
        BumpAxis::TempMinus => "temp-"@,
    }
}

/// The label the user types for an axis (`R+`, `bright-`, ...).
pub fn axis_label(axis: BumpAxis) -> (s: &'static str)
    ensures
        s@ == axis_text(axis),
{
    match axis {
        BumpAxis::RPlus => "R+",
        BumpAxis::RMinus => "R-",
        BumpAxis::GPlus => "G+",
        BumpAxis::GMinus => "G-",
        BumpAxis::BPlus => "B+",
        BumpAxis::BMinus => "B-",
        BumpAxis::BrightPlus => "bright+",
        BumpAxis::BrightMinus => "bright-",
        BumpAxis::TempPlus => "temp+",
        BumpAxis::TempMinus => "temp-",
    }
}

/// The mode a status reveals: the bulb zeroes the inactive mode's value, so a
/// colour temperature of 0 means RGB mode and any other means temperature mode.
pub open spec fn inferred_mode(color_temperature: u32) -> Mode {
    if color_temperature == 0 {
        Mode::Rgb
    } else {
        Mode::Temp
    }
}

/// The mode that a status reveals (see `inferred_mode`).
pub fn infer_mode_from_status(status: &BulbStatus) -> (m: Mode)
    ensures
        m == inferred_mode(status.color_temperature),
{
    if status.color_temperature == 0 {
        Mode::Rgb
    } else {
        Mode::Temp
    }
}

/// The public label of a mode (`rgb` / `temp`).
pub fn mode_to_str(mode: Mode) -> (s: &'static str)
    ensures
        s@ == mode_label(mode),
{
    match mode {
        Mode::Rgb => "rgb",
        Mode::Temp => "temp",
    }
}

/// Why a command that needs a mode refused to run.
#[derive(Debug, Clone, Copy, PartialEq, Eq, Structural)]
pub enum ModeError {
    /// No mode is known.
    Unset,
    /// The bulb is in the other mode; `expected` is the one the command needs.
    Mismatch { expected: Mode },
}

/// The text of a mode error.
pub open spec fn mode_error_text(e: ModeError) -> Seq<char> {
    match e {
        ModeError::Unset => "モードが未設定です。先に switchbot color <hex> または switchbot temp <K> を実行してください。"@,
        ModeError::Mismatch { expected: Mode::Rgb } => "現在 温度モードです。switchbot color <hex> を先に実行してください。"@,
        ModeError::Mismatch { expected: Mode::Temp } => "現在 RGB モードです。switchbot temp <K> を先に実行してください。"@,
    }
}

impl ModeError {
    /// The error's message.
    pub fn message(&self) -> (m: String)
        ensures
            m@ == mode_error_text(*self),
    {
        match self {
            ModeError::Unset => String::from_str(
                "モードが未設定です。先に switchbot color <hex> または switchbot temp <K> を実行してください。",
            ),
            ModeError::Mismatch { expected: Mode::Rgb } => String::from_str(
                "現在 温度モードです。switchbot color <hex> を先に実行してください。",
            ),
            ModeError::Mismatch { expected: Mode::Temp } => String::from_str(
                "現在 RGB モードです。switchbot temp <K> を先に実行してください。",
            ),
        }
    }
}

/// Accepts exactly when the actual mode is the expected one.
pub fn require_mode(actual: Option<Mode>, expected: Mode) -> (r: Result<(), ModeError>)
    ensures
        r is Ok <==> actual == Some(expected),
        actual is None ==> r == Err::<(), ModeError>(ModeError::Unset),
        (actual matches Some(m) && m != expected) ==> r == Err::<(), ModeError>(
            ModeError::Mismatch { expected },
        ),
{
    match actual {
        None => Err(ModeError::Unset),
        Some(m) => if m == expected {
            Ok(())
        } else {
            Err(ModeError::Mismatch { expected })
        },
    }
}


// ----------------------------------------------------------------- commands

/// Why a command refused to run or failed in its own logic.
#[derive(Debug)]
pub enum CommandError {
    /// The devices file names no device.
    DeviceUnconfigured,
    /// The devices file is not valid TOML; the message says why.
    DeviceMalformed(String),
    /// The bulb is in the wrong mode for the command.
    Mode(ModeError),
    /// The bulb reported a colour that is not `R:G:B`.
    Color(ColorParseError),
    /// The status could not be written as JSON.
    StatusFormat(StatusFormatError),
}

/// The text of the unconfigured-device error.
pub open spec fn unconfigured_text() -> Seq<char> {
    "デバイスが未設定です。`switchbot list > ~/.switchbot/devices` を実行し、使うデバイスのセクション名を [default] にしてください (デバイスが 1 台のみなら自動で [default] になります)。"@
}

/// The text of the malformed-devices-file error.
pub open spec fn malformed_text(msg: Seq<char>) -> Seq<char> {
    "~/.switchbot/devices の解析に失敗しました: "@ + msg
        + "\n`switchbot list > ~/.switchbot/devices` で再生成できます。"@
}

/// The text of a command error.
pub open spec fn command_error_text(e: CommandError) -> Seq<char> {
    match e {
        CommandError::DeviceUnconfigured => unconfigured_text(),
        CommandError::DeviceMalformed(m) => malformed_text(m@),
        CommandError::Mode(m) => mode_error_text(m),
        CommandError::Color(c) => color_error_text(c.kind, c.input@),
        CommandError::StatusFormat(_) => "failed to serialize status JSON"@,
    }
}

impl CommandError {
    /// The error's message.
    pub fn message(&self) -> (m: String)
        ensures
            m@ == command_error_text(*self),
    {
        match self {
            CommandError::DeviceUnconfigured => String::from_str(
                "デバイスが未設定です。`switchbot list > ~/.switchbot/devices` を実行し、使うデバイスのセクション名を [default] にしてください (デバイスが 1 台のみなら自動で [default] になります)。",
            ),
            CommandError::DeviceMalformed(msg) => {
                let mut m = String::from_str("~/.switchbot/devices の解析に失敗しました: ");
                m.append(msg.as_str());
                m.append("\n`switchbot list > ~/.switchbot/devices` で再生成できます。");
                m
            },
            CommandError::Mode(e) => e.message(),
            CommandError::Color(e) => e.message(),
            CommandError::StatusFormat(_) => String::from_str("failed to serialize status JSON"),
        }
    }
}

/// The configured device, or the error that says why there is none.
pub fn require_device(ctx: &Context) -> (r: Result<&crate::config::DefaultDevice, CommandError>)
    ensures
        match ctx.device {
            DeviceState::Configured(d) => r == Ok::<&crate::config::DefaultDevice, CommandError>(
                &d,
            ),
            DeviceState::Unconfigured => r matches Err(CommandError::DeviceUnconfigured),
            DeviceState::Malformed(m) => r matches Err(CommandError::DeviceMalformed(e)) && e@
                == m@,
        },
{
    match &ctx.device {
        DeviceState::Configured(d) => Ok(d),
        DeviceState::Unconfigured => Err(CommandError::DeviceUnconfigured),
        DeviceState::Malformed(m) => Err(CommandError::DeviceMalformed(m.clone())),
    }
}

/// What a command has learnt and done so far.
#[derive(Debug)]
pub struct Progress {
    /// The local mode file, once read (`Some(None)`: no file).
    pub local_mode: Option<Option<Mode>>,
    /// The bulb's status, once fetched.
    pub status: Option<BulbStatus>,
    /// The account's devices, once fetched.
    pub devices: Option<Vec<Device>>,
    /// Whether the device command was sent.
    pub sent: bool,
    /// Whether the local mode file was written.
    pub mode_written: bool,
}

/// The outcome of an action that the caller performed.
#[derive(Debug)]
pub enum Event {
    ModeRead(Option<Mode>),
    StatusFetched(BulbStatus),
    DevicesFetched(Vec<Device>),
    Sent,
    ModeWritten,
}

impl Progress {
    /// Nothing learnt, nothing done.
    pub fn new() -> (p: Progress)
        ensures
            p.local_mode is None,
            p.status is None,
            p.devices is None,
            !p.sent,
            !p.mode_written,
    {
        Progress { local_mode: None, status: None, devices: None, sent: false, mode_written: false }
    }

    /// Records the outcome of an action.
    pub fn record(&mut self, event: Event)
        ensures
            match event {
                Event::ModeRead(m) => *final(self) == Progress { local_mode: Some(m), ..*old(self) },
                Event::StatusFetched(s) => *final(self) == Progress {
                    status: Some(s),
                    ..*old(self)
                },
                Event::DevicesFetched(d) => *final(self) == Progress {
                    devices: Some(d),
                    ..*old(self)
                },
                Event::Sent => *final(self) == Progress { sent: true, ..*old(self) },
                Event::ModeWritten => *final(self) == Progress { mode_written: true, ..*old(self) },
            },
    {
        match event {
            Event::ModeRead(m) => self.local_mode = Some(m),
            Event::StatusFetched(s) => self.status = Some(s),
            Event::DevicesFetched(d) => self.devices = Some(d),
            Event::Sent => self.sent = true,
            Event::ModeWritten => self.mode_written = true,
        }
    }
}

/// What the caller does next for a command.
#[derive(Debug)]
pub enum Action {
    /// Read the local mode file; answer with `Event::ModeRead`.
    ReadMode,
    /// Fetch the device's status; answer with `Event::StatusFetched`.
    FetchStatus { device_id: String },
    /// Fetch the account's devices; answer with `Event::DevicesFetched`.
    FetchDevices,
    /// Send a command to the device; answer with `Event::Sent`.
    Send { device_id: String, command: DeviceCommand },
    /// Write the local mode file; answer with `Event::ModeWritten`.
    WriteMode(Mode),
    /// The command is over: its output, or why it failed.
    Finish(Result<String, CommandError>),
}

/// An action as text.
pub enum Step {
    ReadMode,
    FetchStatus(Seq<char>),
    FetchDevices,
    Send(Seq<char>, DeviceCommand),
    WriteMode(Mode),
    Reply(Seq<char>),
    Fail(Seq<char>),
}

/// An action as text.
pub open spec fn action_step(a: Action) -> Step {
    match a {
        Action::ReadMode => Step::ReadMode,
        Action::FetchStatus { device_id } => Step::FetchStatus(device_id@),
        Action::FetchDevices => Step::FetchDevices,
        Action::Send { device_id, command } => Step::Send(device_id@, command),
        Action::WriteMode(m) => Step::WriteMode(m),
        Action::Finish(Ok(s)) => Step::Reply(s@),
        Action::Finish(Err(e)) => Step::Fail(command_error_text(e)),
    }
}

/// The mode that a bump of this kind needs: RGB for a colour channel,
/// temperature mode for the colour temperature, none for brightness.
pub open spec fn needed_mode(d: AxisDelta) -> Option<Mode> {
    match d {
        AxisDelta::Brightness(_) => None,
        AxisDelta::Temperature(_) => Some(Mode::Temp),
        _ => Some(Mode::Rgb),
    }
}

fn axis_needed_mode(d: AxisDelta) -> (m: Option<Mode>)
    ensures
        m == needed_mode(d),
{
    match d {
        AxisDelta::Brightness(_) => None,
        AxisDelta::Temperature(_) => Some(Mode::Temp),
        _ => Some(Mode::Rgb),
    }
}

/// The mode a bump goes by: the local mode when there is one, else the mode
/// the status reveals.
pub open spec fn effective_mode(local: Option<Mode>, status: BulbStatus) -> Mode {
    match local {
        Some(m) => m,
        None => inferred_mode(status.color_temperature),
    }
}

/// `bump R/G/B`: the new colour, with one channel moved.
pub open spec fn bumped_color(delta: AxisDelta, c: (u8, u8, u8)) -> (u8, u8, u8) {
    match delta {
        AxisDelta::Red(d) => (clamp(wrap_i32(c.0 + d), 0, 255) as u8, c.1, c.2),
        AxisDelta::Green(d) => (c.0, clamp(wrap_i32(c.1 + d), 0, 255) as u8, c.2),
        AxisDelta::Blue(d) => (c.0, c.1, clamp(wrap_i32(c.2 + d), 0, 255) as u8),
        _ => c,
    }
}

/// The next step of `bump` once the local mode and the status are known.
pub open spec fn bump_step(
    axis: BumpAxis,
    mode: Mode,
    status: BulbStatus,
    id: Seq<char>,
    sent: bool,
) -> Step {
    let delta = axis_delta_of(axis);
    match delta {
        AxisDelta::Brightness(d) => {
            let v = clamp(wrap_i32(wrap_i32(status.brightness as int) + d), 1, 100) as u32;
            if !sent {
                Step::Send(id, DeviceCommand::SetBrightness { value: v })
            } else {
                Step::Reply("bump "@ + axis_text(axis) + " ok ("@ + decimal(v as nat) + ")"@)
            }
        },
        AxisDelta::Temperature(d) => if mode != Mode::Temp {
            Step::Fail(mode_error_text(ModeError::Mismatch { expected: Mode::Temp }))
        } else {
            let k = clamp(wrap_i32(wrap_i32(status.color_temperature as int) + d), 2700, 6500) as u32;
            if !sent {
                Step::Send(id, DeviceCommand::SetColorTemperature { kelvin: k })
            } else {
                Step::Reply("bump "@ + axis_text(axis) + " ok ("@ + decimal(k as nat) + "K)"@)
            }
        },
        _ => if mode != Mode::Rgb {
            Step::Fail(mode_error_text(ModeError::Mismatch { expected: Mode::Rgb }))
        } else {
            match color_value(status.color@) {
                Err(kind) => Step::Fail(color_error_text(kind, status.color@)),
                Ok(c) => {
                    let n = bumped_color(delta, c);
                    if !sent {
                        Step::Send(id, DeviceCommand::SetColor { r: n.0, g: n.1, b: n.2 })
                    } else {
                        Step::Reply(
                            "bump "@ + axis_text(axis) + " ok ("@ + decimal(n.0 as nat) + ":"@
                                + decimal(n.1 as nat) + ":"@ + decimal(n.2 as nat) + ")"@,
                        )
                    }
                },
            }
        },
    }
}

/// The next step of a command on the configured device `id`.
pub open spec fn device_step(command: Command, id: Seq<char>, p: Progress) -> Step {
    match command {
        Command::Color { rgb: (r, g, b) } => if !p.sent {
            Step::Send(id, DeviceCommand::SetColor { r, g, b })
        } else if !p.mode_written {
            Step::WriteMode(Mode::Rgb)
        } else {
            Step::Reply("color "@ + hex_byte(r) + hex_byte(g) + hex_byte(b) + " ok"@)
        },
        Command::Bright { value } => if !p.sent {
            Step::Send(id, DeviceCommand::SetBrightness { value })
        } else {
            Step::Reply("bright "@ + decimal(value as nat) + " ok"@)
        },
        Command::Temp { kelvin } => if !p.sent {
            Step::Send(id, DeviceCommand::SetColorTemperature { kelvin })
        } else if !p.mode_written {
            Step::WriteMode(Mode::Temp)
        } else {
            Step::Reply("temp "@ + decimal(kelvin as nat) + " ok"@)
        },
        Command::On => if !p.sent {
            Step::Send(id, DeviceCommand::TurnOn)
        } else {
            Step::Reply("on ok"@)
        },
        Command::Off => if !p.sent {
            Step::Send(id, DeviceCommand::TurnOff)
        } else {
            Step::Reply("off ok"@)
        },
        Command::Mode => match p.local_mode {
            None => Step::ReadMode,
            Some(Some(m)) => Step::Reply(mode_label(m)),
            Some(None) => match p.status {
                None => Step::FetchStatus(id),
                Some(st) => Step::Reply(mode_label(inferred_mode(st.color_temperature))),
            },
        },
        Command::Status => match p.status {
            None => Step::FetchStatus(id),
            Some(st) => Step::Reply(status_json(st)),
        },
        Command::Sync => match p.status {
            None => Step::FetchStatus(id),
            Some(st) => if !p.mode_written {
                Step::WriteMode(inferred_mode(st.color_temperature))
            } else {
                Step::Reply(
                    "sync ok ("@ + mode_label(inferred_mode(st.color_temperature)) + ")"@,
                )
            },
        },
        Command::Bump { axis } => match p.local_mode {
            None => Step::ReadMode,
            Some(local) => match (local, needed_mode(axis_delta_of(axis))) {
                (Some(m), Some(need)) if m != need => Step::Fail(
                    mode_error_text(ModeError::Mismatch { expected: need }),
                ),
                _ => match p.status {
                    None => Step::FetchStatus(id),
                    Some(st) => bump_step(axis, effective_mode(local, st), st, id, p.sent),
                },
            },
        },
        Command::List => Step::FetchDevices,
    }
}

/// The next step of a command: `list` needs no device; every other command
/// first needs a configured device. `None` only for a listing of so many
/// devices that unique keys might come from random UUIDs.
pub open spec fn next_step(command: Command, device: DeviceState, p: Progress) -> Option<Step> {
    match command {
        Command::List => match p.devices {
            None => Some(Step::FetchDevices),
            Some(ds) => if ds@.len() + 2 <= u32::MAX {
                Some(
                    Step::Reply(
                        devices_text(ds@, assigned_keys(ds@, ds@.len() as int), ds@.len() as int),
                    ),
                )
            } else {
                None
            },
        },
        _ => match device {
            DeviceState::Unconfigured => Some(Step::Fail(unconfigured_text())),
            DeviceState::Malformed(m) => Some(Step::Fail(malformed_text(m@))),
            DeviceState::Configured(d) => Some(device_step(command, d.id@, p)),
        },
    }
}

fn reply_with_number(head: &str, n: u64, tail: &str) -> (s: String)
    ensures
        s@ == head@ + decimal(n as nat) + tail@,
{
    let mut s = String::from_str(head);
    push_decimal(&mut s, n);
    s.append(tail);
    s
}

fn bump_action(axis: BumpAxis, mode: Mode, status: &BulbStatus, id: &String, sent: bool) -> (a:
    Action)
    ensures
        action_step(a) == bump_step(axis, mode, *status, id@, sent),
{
    let delta = axis_delta(axis);
    match delta {
        AxisDelta::Brightness(d) => {
            let v = bump_brightness(status.brightness, d);
            if !sent {
                Action::Send {
                    device_id: id.clone(),
                    command: DeviceCommand::SetBrightness { value: v },
                }
            } else {
                let mut head = String::from_str("bump ");
                head.append(axis_label(axis));
                head.append(" ok (");
                Action::Finish(Ok(reply_with_number(head.as_str(), v as u64, ")")))
            }
        },
        AxisDelta::Temperature(d) => {
            if mode != Mode::Temp {
                return Action::Finish(
                    Err(CommandError::Mode(ModeError::Mismatch { expected: Mode::Temp })),
                );
            }
            let k = bump_temperature(status.color_temperature, d);
            if !sent {
                Action::Send {
                    device_id: id.clone(),
                    command: DeviceCommand::SetColorTemperature { kelvin: k },
                }
            } else {
                let mut head = String::from_str("bump ");
                head.append(axis_label(axis));
                head.append(" ok (");
                Action::Finish(Ok(reply_with_number(head.as_str(), k as u64, "K)")))
            }
        },
        _ => {
            if mode != Mode::Rgb {
                return Action::Finish(
                    Err(CommandError::Mode(ModeError::Mismatch { expected: Mode::Rgb })),
                );
            }
            match parse_color_str(status.color.as_str()) {
                Err(e) => Action::Finish(Err(CommandError::Color(e))),
                Ok((r0, g0, b0)) => {
                    let (r, g, b) = match delta {
                        AxisDelta::Red(d) => (bump_rgb_channel(r0, d), g0, b0),
                        AxisDelta::Green(d) => (r0, bump_rgb_channel(g0, d), b0),
                        AxisDelta::Blue(d) => (r0, g0, bump_rgb_channel(b0, d)),
                        _ => (r0, g0, b0),
                    };
                    assert((r, g, b) == bumped_color(delta, (r0, g0, b0)));
                    if !sent {
                        Action::Send {
                            device_id: id.clone(),
                            command: DeviceCommand::SetColor { r, g, b },
                        }
                    } else {
                        let mut s = String::from_str("bump ");
                        s.append(axis_label(axis));
                        s.append(" ok (");
                        push_decimal(&mut s, r as u64);
                        push_char(&mut s, ':');
                        push_decimal(&mut s, g as u64);
                        push_char(&mut s, ':');
                        push_decimal(&mut s, b as u64);
                        push_char(&mut s, ')');
                        proof {
                            reveal_strlit(":");
                            reveal_strlit(")");
                        }
                        assert(s@ =~= "bump "@ + axis_text(axis) + " ok ("@ + decimal(r as nat)
                            + ":"@ + decimal(g as nat) + ":"@ + decimal(b as nat) + ")"@);
                        Action::Finish(Ok(s))
                    }
                },
            }
        },
    }
}

fn device_action(command: &Command, id: &String, p: &Progress) -> (a: Action)
    ensures
        action_step(a) == device_step(*command, id@, *p),
{
    match command {
        Command::Color { rgb: (r, g, b) } => {
            if !p.sent {
                Action::Send {
                    device_id: id.clone(),
                    command: DeviceCommand::SetColor { r: *r, g: *g, b: *b },
                }
            } else if !p.mode_written {
                Action::WriteMode(Mode::Rgb)
            } else {
                let mut s = String::from_str("color ");
                push_hex_byte(&mut s, *r);
                push_hex_byte(&mut s, *g);
                push_hex_byte(&mut s, *b);
                s.append(" ok");
                Action::Finish(Ok(s))
            }
        },
        Command::Bright { value } => {
            if !p.sent {
                Action::Send {
                    device_id: id.clone(),
                    command: DeviceCommand::SetBrightness { value: *value },
                }
            } else {
                Action::Finish(Ok(reply_with_number("bright ", *value as u64, " ok")))
            }
        },
        Command::Temp { kelvin } => {
            if !p.sent {
                Action::Send {
                    device_id: id.clone(),
                    command: DeviceCommand::SetColorTemperature { kelvin: *kelvin },
                }
            } else if !p.mode_written {
                Action::WriteMode(Mode::Temp)
            } else {
                Action::Finish(Ok(reply_with_number("temp ", *kelvin as u64, " ok")))
            }
        },
        Command::On => {
            if !p.sent {
                Action::Send { device_id: id.clone(), command: DeviceCommand::TurnOn }
            } else {
                Action::Finish(Ok(String::from_str("on ok")))
            }
        },
        Command::Off => {
            if !p.sent {
                Action::Send { device_id: id.clone(), command: DeviceCommand::TurnOff }
            } else {
                Action::Finish(Ok(String::from_str("off ok")))
            }
        },
        Command::Mode => match &p.local_mode {
            None => Action::ReadMode,
            Some(Some(m)) => Action::Finish(Ok(String::from_str(mode_to_str(*m)))),
            Some(None) => match &p.status {
                None => Action::FetchStatus { device_id: id.clone() },
                Some(st) => Action::Finish(
                    Ok(String::from_str(mode_to_str(infer_mode_from_status(st)))),
                ),
            },
        },
        Command::Status => match &p.status {
            None => Action::FetchStatus { device_id: id.clone() },
            Some(st) => match format_status_json(st) {
                Ok(s) => Action::Finish(Ok(s)),
                Err(e) => Action::Finish(Err(CommandError::StatusFormat(e))),
            },
        },
        Command::Sync => match &p.status {
            None => Action::FetchStatus { device_id: id.clone() },
            Some(st) => {
                let m = infer_mode_from_status(st);
                if !p.mode_written {
                    Action::WriteMode(m)
                } else {
                    let mut s = String::from_str("sync ok (");
                    s.append(mode_to_str(m));
                    s.append(")");
                    Action::Finish(Ok(s))
                }
            },
        },
        Command::Bump { axis } => match &p.local_mode {
            None => Action::ReadMode,
            Some(local) => {
                if let (Some(m), Some(need)) = (*local, axis_needed_mode(axis_delta(*axis))) {
                    if let Err(e) = require_mode(Some(m), need) {
                        return Action::Finish(Err(CommandError::Mode(e)));
                    }
                }
                match &p.status {
                    None => Action::FetchStatus { device_id: id.clone() },
                    Some(st) => {
                        let mode = match local {
                            Some(m) => *m,
                            None => infer_mode_from_status(st),
                        };
                        bump_action(*axis, mode, st, id, p.sent)
                    },
                }
            },
        },
        Command::List => Action::FetchDevices,
    }
}

/// Decides the next action of `command` from what has been learnt and done
/// so far (see `next_step`). The caller performs the action, records its
/// outcome with `Progress::record`, and asks again until `Action::Finish`.
pub fn handle(command: &Command, ctx: &Context, progress: &Progress) -> (a: Action)
    ensures
        next_step(*command, ctx.device, *progress) matches Some(s) ==> action_step(a) == s,
        next_step(*command, ctx.device, *progress) is None ==> a matches Action::Finish(Ok(_)),
{
    match command {
        Command::List => match &progress.devices {
            None => Action::FetchDevices,
            Some(ds) => Action::Finish(Ok(format_devices_toml(ds.as_slice()))),
        },
        _ => match require_device(ctx) {
            Err(e) => Action::Finish(Err(e)),
            Ok(d) => device_action(command, &d.id, progress),
        },
    }
}


/// What a successful command prints on standard output: the listing as it
/// is, the status line and the mode with a newline; nothing for the others.
pub open spec fn success_stdout(command: Command, msg: Seq<char>) -> Option<Seq<char>> {
    match command {
        Command::List => Some(msg),
        Command::Status => Some(msg + seq!['\n']),
        Command::Mode => Some(msg + seq!['\n']),
        _ => None,
    }
}

/// What the log records (as `INFO`) for a successful command.
pub open spec fn success_log(command: Command, msg: Seq<char>) -> Seq<char> {
    match command {
        Command::List => "list ok"@,
        Command::Status => "status ok"@,
        Command::Mode => "mode ok ("@ + msg + ")"@,
        _ => msg,
    }
}

/// The output of a command that finished with `msg`: what goes to standard
/// output, if anything, and the message that the log records.
pub fn success_output(command: &Command, msg: &str) -> (out: (Option<String>, String))
    ensures
        match success_stdout(*command, msg@) {
            Some(s) => out.0 matches Some(o) && o@ == s,
            None => out.0 is None,
        },
        out.1@ == success_log(*command, msg@),
{
    match command {
        Command::List => (Some(String::from_str(msg)), String::from_str("list ok")),
        Command::Status => {
            let mut s = String::from_str(msg);
            push_char(&mut s, '\n');
            (Some(s), String::from_str("status ok"))
        },
        Command::Mode => {
            let mut s = String::from_str(msg);
            push_char(&mut s, '\n');
            let mut l = String::from_str("mode ok (");
            l.append(msg);
            l.append(")");
            (Some(s), l)
        },
        _ => (None, String::from_str(msg)),
    }
}


// --------------------------------------------------------------------- laws

/// Every action other than `Finish` asks for something not yet learnt or
/// done, so recording its outcome fills one more of the five slots of the
/// progress: a command finishes after at most five actions.
pub proof fn law_each_action_fills_a_gap(command: Command, device: DeviceState, p: Progress)
    ensures
        next_step(command, device, p) matches Some(Step::ReadMode) ==> p.local_mode is None,
        next_step(command, device, p) matches Some(Step::FetchStatus(_)) ==> p.status is None,
        next_step(command, device, p) matches Some(Step::FetchDevices) ==> p.devices is None,
        next_step(command, device, p) matches Some(Step::Send(_, _)) ==> !p.sent,
        next_step(command, device, p) matches Some(Step::WriteMode(_)) ==> !p.mode_written,
{
}

/// Every command but `list` refuses to run without a configured device.
pub proof fn law_device_required(command: Command, device: DeviceState, p: Progress)
    requires
        !(command is List),
        !(device is Configured),
    ensures
        next_step(command, device, p) matches Some(Step::Fail(_)),
{
}

/// `mode` answers the local mode when the mode file holds one, without
/// asking the bulb.
pub proof fn law_mode_prefers_local(d: crate::config::DefaultDevice, p: Progress, m: Mode)
    requires
        p.local_mode == Some(Some(m)),
    ensures
        next_step(Command::Mode, DeviceState::Configured(d), p) == Some(Step::Reply(mode_label(m))),
{
}

/// Without a mode file, `mode` answers the mode that the bulb's status reveals.
pub proof fn law_mode_falls_back_to_status(d: crate::config::DefaultDevice, p: Progress, st: BulbStatus)
    requires
        p.local_mode == Some(None::<Mode>),
        p.status == Some(st),
    ensures
        next_step(Command::Mode, DeviceState::Configured(d), p) == Some(
            Step::Reply(mode_label(inferred_mode(st.color_temperature))),
        ),
{
}

/// `color` sends `setColor` and then records RGB mode; `temp` sends
/// `setColorTemperature` and then records temperature mode.
pub proof fn law_set_commands_record_mode(
    d: crate::config::DefaultDevice,
    p: Progress,
    rgb: (u8, u8, u8),
    kelvin: u32,
)
    requires
        p.sent,
        !p.mode_written,
    ensures
        next_step(Command::Color { rgb }, DeviceState::Configured(d), p) == Some(
            Step::WriteMode(Mode::Rgb),
        ),
        next_step(Command::Temp { kelvin }, DeviceState::Configured(d), p) == Some(
            Step::WriteMode(Mode::Temp),
        ),
{
}

/// `sync` writes the mode that the bulb's status reveals.
pub proof fn law_sync_writes_inferred_mode(d: crate::config::DefaultDevice, p: Progress, st: BulbStatus)
    requires
        p.status == Some(st),
        !p.mode_written,
    ensures
        next_step(Command::Sync, DeviceState::Configured(d), p) == Some(
            Step::WriteMode(inferred_mode(st.color_temperature)),
        ),
{
}

/// Without a local mode, `bump` goes by the mode the status reveals: a bulb
/// in RGB mode (colour temperature 0) with a valid colour gets the moved
/// colour for `R±/G±/B±`, and a bulb in temperature mode gets the moved
/// temperature for `temp±`.
pub proof fn law_bump_infers_mode(
    d: crate::config::DefaultDevice,
    p: Progress,
    st: BulbStatus,
    axis: BumpAxis,
)
    requires
        p.local_mode == Some(None::<Mode>),
        p.status == Some(st),
        !p.sent,
    ensures
        st.color_temperature == 0 && color_value(st.color@) is Ok && (axis_delta_of(axis) is Red
            || axis_delta_of(axis) is Green || axis_delta_of(axis) is Blue) ==> next_step(
            Command::Bump { axis },
            DeviceState::Configured(d),
            p,
        ) matches Some(Step::Send(_, DeviceCommand::SetColor { .. })),
        st.color_temperature != 0 && axis_delta_of(axis) is Temperature ==> next_step(
            Command::Bump { axis },
            DeviceState::Configured(d),
            p,
        ) matches Some(Step::Send(_, DeviceCommand::SetColorTemperature { .. })),
{
}

/// `bump bright±` works in either mode: it always sends the moved brightness.
pub proof fn law_bump_brightness_any_mode(
    d: crate::config::DefaultDevice,
    p: Progress,
    st: BulbStatus,
    axis: BumpAxis,
    local: Option<Mode>,
)
    requires
        p.local_mode == Some(local),
        p.status == Some(st),
        !p.sent,
        axis_delta_of(axis) is Brightness,
    ensures
        next_step(Command::Bump { axis }, DeviceState::Configured(d), p) matches Some(
            Step::Send(_, DeviceCommand::SetBrightness { .. }),
        ),
{
}

/// `bump` refuses a colour axis in temperature mode and a temperature axis
/// in RGB mode.
pub proof fn law_bump_checks_mode(
    d: crate::config::DefaultDevice,
    p: Progress,
    st: BulbStatus,
    axis: BumpAxis,
    local: Option<Mode>,
)
    requires
        p.local_mode == Some(local),
        p.status == Some(st),
    ensures
        (axis_delta_of(axis) is Red || axis_delta_of(axis) is Green || axis_delta_of(axis) is Blue)
            && effective_mode(local, st) == Mode::Temp ==> next_step(
            Command::Bump { axis },
            DeviceState::Configured(d),
            p,
        ) == Some(Step::Fail(mode_error_text(ModeError::Mismatch { expected: Mode::Rgb }))),
        axis_delta_of(axis) is Temperature && effective_mode(local, st) == Mode::Rgb ==> next_step(
            Command::Bump { axis },
            DeviceState::Configured(d),
            p,
        ) == Some(Step::Fail(mode_error_text(ModeError::Mismatch { expected: Mode::Temp }))),
{
}

/// With a mode file whose mode does not fit the axis, `bump` fails before
/// asking the bulb anything.
pub proof fn law_bump_local_mismatch_fails_early(
    d: crate::config::DefaultDevice,
    p: Progress,
    axis: BumpAxis,
    m: Mode,
)
    requires
        p.local_mode == Some(Some(m)),
        needed_mode(axis_delta_of(axis)) matches Some(need) && need != m,
    ensures
        next_step(Command::Bump { axis }, DeviceState::Configured(d), p) == Some(
            Step::Fail(
                mode_error_text(ModeError::Mismatch { expected: needed_mode(axis_delta_of(axis))->0 }),
            ),
        ),
{
}

/// What `bump` sends stays in range: brightness 1 to 100, colour temperature
/// 2700 to 6500 K.
pub proof fn law_bump_sends_in_range(command: Command, device: DeviceState, p: Progress)
    requires
        command is Bump,
    ensures
        next_step(command, device, p) matches Some(
            Step::Send(_, DeviceCommand::SetBrightness { value }),
        ) ==> 1 <= value <= 100,
        next_step(command, device, p) matches Some(
            Step::Send(_, DeviceCommand::SetColorTemperature { kelvin }),
        ) ==> 2700 <= kelvin <= 6500,
{
}

/// The bump arithmetic stays in range for every input.
pub proof fn law_bump_ranges(current: u32, delta: i32)
    ensures
        1 <= clamp(wrap_i32(wrap_i32(current as int) + delta), 1, 100) <= 100,
        2700 <= clamp(wrap_i32(wrap_i32(current as int) + delta), 2700, 6500) <= 6500,
        0 <= clamp(wrap_i32(current + delta), 0, 255) <= 255,
{
}

/// Each bump axis moves its own channel by its step, in its own direction:
/// `R±`, `G±`, `B±` move that colour channel by 16, `bright±` the brightness
/// by 10, `temp±` the colour temperature by 100 K (where the result stays
/// within range, so that no clamping happens), and nothing else changes.
pub proof fn law_bump_moves_one_step(
    d: crate::config::DefaultDevice,
    p: Progress,
    st: BulbStatus,
    axis: BumpAxis,
    local: Option<Mode>,
    c: (u8, u8, u8),
)
    requires
        p.local_mode == Some(local),
        p.status == Some(st),
        !p.sent,
    ensures
        ({
            let step = next_step(Command::Bump { axis }, DeviceState::Configured(d), p);
            let rgb_mode = local == Some(Mode::Rgb) || (local is None && st.color_temperature == 0);
            let temp_mode = local == Some(Mode::Temp) || (local is None && st.color_temperature != 0);
            let colour = rgb_mode && color_value(st.color@) == Ok::<(u8, u8, u8), ColorErrorKind>(c);
            let (r, g, b) = c;
            let br = st.brightness;
            let k = st.color_temperature;
            &&& axis == BumpAxis::BrightMinus && 11 <= br <= 100 ==> step == Some(
                Step::Send(d.id@, DeviceCommand::SetBrightness { value: (br - 10) as u32 }),
            )
            &&& axis == BumpAxis::BrightPlus && 1 <= br <= 90 ==> step == Some(
                Step::Send(d.id@, DeviceCommand::SetBrightness { value: (br + 10) as u32 }),
            )
            &&& axis == BumpAxis::TempMinus && temp_mode && 2800 <= k <= 6500 ==> step == Some(
                Step::Send(d.id@, DeviceCommand::SetColorTemperature { kelvin: (k - 100) as u32 }),
            )
            &&& axis == BumpAxis::TempPlus && temp_mode && 2700 <= k <= 6400 ==> step == Some(
                Step::Send(d.id@, DeviceCommand::SetColorTemperature { kelvin: (k + 100) as u32 }),
            )
            &&& axis == BumpAxis::RMinus && colour && r >= 16 ==> step == Some(
                Step::Send(d.id@, DeviceCommand::SetColor { r: (r - 16) as u8, g, b }),
            )
            &&& axis == BumpAxis::RPlus && colour && r <= 239 ==> step == Some(
                Step::Send(d.id@, DeviceCommand::SetColor { r: (r + 16) as u8, g, b }),
            )
            &&& axis == BumpAxis::GMinus && colour && g >= 16 ==> step == Some(
                Step::Send(d.id@, DeviceCommand::SetColor { r, g: (g - 16) as u8, b }),
            )
            &&& axis == BumpAxis::GPlus && colour && g <= 239 ==> step == Some(
                Step::Send(d.id@, DeviceCommand::SetColor { r, g: (g + 16) as u8, b }),
            )
            &&& axis == BumpAxis::BMinus && colour && b >= 16 ==> step == Some(
                Step::Send(d.id@, DeviceCommand::SetColor { r, g, b: (b - 16) as u8 }),
            )
            &&& axis == BumpAxis::BPlus && colour && b <= 239 ==> step == Some(
                Step::Send(d.id@, DeviceCommand::SetColor { r, g, b: (b + 16) as u8 }),
            )
        }),
{
}

/// `color`, `bright`, `temp`, `on` and `off` send exactly the command they
/// name, with the user's value, to the configured device (`off` sends
/// `turnOff`, never `turnOn`), and once it is sent reply with what was set.
pub proof fn law_set_commands_send_their_command(
    d: crate::config::DefaultDevice,
    p: Progress,
    rgb: (u8, u8, u8),
    value: u32,
    kelvin: u32,
)
    requires
        !p.sent,
    ensures
        next_step(Command::Color { rgb }, DeviceState::Configured(d), p) == Some(
            Step::Send(d.id@, DeviceCommand::SetColor { r: rgb.0, g: rgb.1, b: rgb.2 }),
        ),
        next_step(Command::Bright { value }, DeviceState::Configured(d), p) == Some(
            Step::Send(d.id@, DeviceCommand::SetBrightness { value }),
        ),
        next_step(Command::Temp { kelvin }, DeviceState::Configured(d), p) == Some(
            Step::Send(d.id@, DeviceCommand::SetColorTemperature { kelvin }),
        ),
        next_step(Command::On, DeviceState::Configured(d), p) == Some(
            Step::Send(d.id@, DeviceCommand::TurnOn),
        ),
        next_step(Command::Off, DeviceState::Configured(d), p) == Some(
            Step::Send(d.id@, DeviceCommand::TurnOff),
        ),
        command_name(DeviceCommand::TurnOn) == "turnOn"@,
        command_name(DeviceCommand::TurnOff) == "turnOff"@,
        command_parameter(DeviceCommand::TurnOff) == "default"@,
        command_parameter(DeviceCommand::TurnOn) == "default"@,
{
}

/// After the command is sent, `on` and `off` reply with their own name.
pub proof fn law_on_off_replies(d: crate::config::DefaultDevice, p: Progress)
    requires
        p.sent,
    ensures
        next_step(Command::On, DeviceState::Configured(d), p) == Some(Step::Reply("on ok"@)),
        next_step(Command::Off, DeviceState::Configured(d), p) == Some(Step::Reply("off ok"@)),
{
}

/// A bump that would leave the range stops at its edge: colour channels at
/// 0 and 255, brightness at 1 and 100, colour temperature at 2700 and 6500 K.
pub proof fn law_bump_stops_at_edges(
    d: crate::config::DefaultDevice,
    p: Progress,
    st: BulbStatus,
    axis: BumpAxis,
    local: Option<Mode>,
    c: (u8, u8, u8),
)
    requires
        p.local_mode == Some(local),
        p.status == Some(st),
        !p.sent,
    ensures
        ({
            let step = next_step(Command::Bump { axis }, DeviceState::Configured(d), p);
            let rgb_mode = local == Some(Mode::Rgb) || (local is None && st.color_temperature == 0);
            let temp_mode = local == Some(Mode::Temp) || (local is None && st.color_temperature != 0);
            let colour = rgb_mode && color_value(st.color@) == Ok::<(u8, u8, u8), ColorErrorKind>(c);
            let (r, g, b) = c;
            let br = st.brightness;
            let k = st.color_temperature;
            &&& axis == BumpAxis::BrightMinus && br <= 11 ==> step == Some(
                Step::Send(d.id@, DeviceCommand::SetBrightness { value: 1 }),
            )
            &&& axis == BumpAxis::BrightPlus && 90 <= br <= 0x7fff_fff5 ==> step == Some(
                Step::Send(d.id@, DeviceCommand::SetBrightness { value: 100 }),
            )
            &&& axis == BumpAxis::TempMinus && temp_mode && k <= 2800 ==> step == Some(
                Step::Send(d.id@, DeviceCommand::SetColorTemperature { kelvin: 2700 }),
            )
            &&& axis == BumpAxis::TempPlus && temp_mode && 6400 <= k <= 0x7fff_ff9b ==> step
                == Some(Step::Send(d.id@, DeviceCommand::SetColorTemperature { kelvin: 6500 }))
            &&& axis == BumpAxis::RMinus && colour && r < 16 ==> step == Some(
                Step::Send(d.id@, DeviceCommand::SetColor { r: 0, g, b }),
            )
            &&& axis == BumpAxis::RPlus && colour && r > 239 ==> step == Some(
                Step::Send(d.id@, DeviceCommand::SetColor { r: 255, g, b }),
            )
        }),
{
}

/// The bulb's API commands, as the command table gives them: `turnOn` and
/// `turnOff` with `default`, `setColor` with `R:G:B` in decimal,
/// `setBrightness` and `setColorTemperature` with the decimal value.
pub proof fn law_command_table(r: u8, g: u8, b: u8, value: u32, kelvin: u32)
    ensures
        command_name(DeviceCommand::SetColor { r, g, b }) == "setColor"@,
        command_parameter(DeviceCommand::SetColor { r, g, b }) == decimal(r as nat) + seq![':']
            + decimal(g as nat) + seq![':'] + decimal(b as nat),
        command_name(DeviceCommand::SetBrightness { value }) == "setBrightness"@,
        command_parameter(DeviceCommand::SetBrightness { value }) == decimal(value as nat),
        command_name(DeviceCommand::SetColorTemperature { kelvin }) == "setColorTemperature"@,
        command_parameter(DeviceCommand::SetColorTemperature { kelvin }) == decimal(kelvin as nat),
        command_name(DeviceCommand::TurnOn) == "turnOn"@,
        command_name(DeviceCommand::TurnOff) == "turnOff"@,
        command_parameter(DeviceCommand::TurnOn) == "default"@,
        command_parameter(DeviceCommand::TurnOff) == "default"@,
{
    reveal_strlit(":");
}

/// The mode that a status reveals, and its public label: a colour
/// temperature of 0 means RGB mode, shown as `rgb`; any other means
/// temperature mode, shown as `temp`.
pub proof fn law_inferred_mode(color_temperature: u32)
    ensures
        color_temperature == 0 ==> inferred_mode(color_temperature) == Mode::Rgb,
        color_temperature != 0 ==> inferred_mode(color_temperature) == Mode::Temp,
        mode_label(Mode::Rgb) == "rgb"@,
        mode_label(Mode::Temp) == "temp"@,
{
}

} // verus!
