//! The command line: the commands, the axes that `bump` moves, and the
//! validation of the `color`, `bright` and `temp` arguments.
use vstd::prelude::*;
use vstd::string::StrSliceExecFns;
use vstd::utf8::{encode_utf8, is_ascii_chars, is_ascii_chars_encode_utf8};
use crate::api::{command_parameter, DeviceCommand};
use crate::text::{
    chars_of, decimal, decimal_string, hex_byte, hex_upper_digit, lemma_decimal_digits,
    lemma_parse_unsigned_decimal, parse_unsigned, parse_unsigned_chars, same_text,
};

verus! {

/// The parsed command line.
#[derive(Debug)]
pub struct Cli {
    pub command: Command,
}

/// A subcommand.
#[derive(Debug, Clone, Copy, PartialEq, Eq)]
pub enum Command {
    /// Set an RGB colour (the bulb enters RGB mode).
    Color { rgb: (u8, u8, u8) },
    /// Set the brightness, 1 to 100.
    Bright { value: u32 },
    /// Set a colour temperature in kelvin, 2700 to 6500 (the bulb enters temperature mode).
    Temp { kelvin: u32 },
    /// Move one axis by one step.
    Bump { axis: BumpAxis },
    On,
    Off,
    /// List the account's devices as a devices file.
    List,
    /// Print the current mode.
    Mode,
    /// Print the bulb's state as one line of JSON.
    Status,
    /// Overwrite the local mode with the one the bulb reports.
    Sync,
}

/// An axis of `bump` and its direction.
#[derive(Debug, Clone, Copy, PartialEq, Eq, Structural)]
pub enum BumpAxis {
    RPlus,
    RMinus,
    GPlus,
    GMinus,
    BPlus,
    BMinus,
    BrightPlus,
    BrightMinus,
    TempPlus,
    TempMinus,
}

/// A hexadecimal digit.
pub open spec fn is_hex_digit(c: char) -> bool {
    ('0' <= c <= '9') || ('a' <= c <= 'f') || ('A' <= c <= 'F')
}

/// The value of a hexadecimal digit.
pub open spec fn hex_digit_value(c: char) -> int {
    if '0' <= c <= '9' {
        c as int - 48
    } else if 'a' <= c <= 'f' {
        c as int - 87
    } else {
        c as int - 55
    }
}

/// What the `color` argument denotes: six hexadecimal digits `RRGGBB`
/// (either case, no `#`), or the message that refuses it.
pub open spec fn hex_color_value(s: Seq<char>) -> Result<(u8, u8, u8), Seq<char>> {
    if encode_utf8(s).len() != 6 {
        Err("hex は 6 桁である必要があります (got "@ + decimal(encode_utf8(s).len()) + " 桁)"@)
    } else if !(forall|i: int| 0 <= i < s.len() ==> is_hex_digit(#[trigger] s[i])) {
        Err("hex は 16 進数である必要があります (got '"@ + s + "')"@)
    } else {
        Ok(
            (
                (hex_digit_value(s[0]) * 16 + hex_digit_value(s[1])) as u8,
                (hex_digit_value(s[2]) * 16 + hex_digit_value(s[3])) as u8,
                (hex_digit_value(s[4]) * 16 + hex_digit_value(s[5])) as u8,
            ),
        )
    }
}

fn hex_value(c: char) -> (v: u8)
    requires
        is_hex_digit(c),
    ensures
        v == hex_digit_value(c),
{
    if '0' <= c && c <= '9' {
        ((c as u32) - 48) as u8
    } else if 'a' <= c && c <= 'f' {
        ((c as u32) - 87) as u8
    } else {
        ((c as u32) - 55) as u8
    }
}

/// Reads the `color` argument: `RRGGBB` in hexadecimal.
pub fn parse_hex(s: &str) -> (r: Result<(u8, u8, u8), String>)
    ensures
        match r {
            Ok(c) => hex_color_value(s@) == Ok::<(u8, u8, u8), Seq<char>>(c),
            Err(m) => hex_color_value(s@) == Err::<(u8, u8, u8), Seq<char>>(m@),
        },
{
    let n = s.as_bytes().len();
    if n != 6 {
        let mut m = String::from_str("hex は 6 桁である必要があります (got ");
        let d = decimal_string(n as u64);
        m.append(d.as_str());
        m.append(" 桁)");
        return Err(m);
    }
    let v = chars_of(s);
    for i in 0..v.len()
        invariant
            v@ == s@,
            encode_utf8(s@).len() == 6,
            forall|k: int| 0 <= k < i ==> is_hex_digit(#[trigger] v@[k]),
    {
        let c = v[i];
        if !(('0' <= c && c <= '9') || ('a' <= c && c <= 'f') || ('A' <= c && c <= 'F')) {
            let mut m = String::from_str("hex は 16 進数である必要があります (got '");
            m.append(s);
            m.append("')");
            assert(!is_hex_digit(s@[i as int]));
            return Err(m);
        }
    }
    proof {
        assert(is_ascii_chars(s@));
        is_ascii_chars_encode_utf8(s@);
    }
    let r = hex_value(v[0]) * 16 + hex_value(v[1]);
    let g = hex_value(v[2]) * 16 + hex_value(v[3]);
    let b = hex_value(v[4]) * 16 + hex_value(v[5]);
    Ok((r, g, b))
}

proof fn lemma_hex_digit_round_trip(d: int)
    requires
        0 <= d < 16,
    ensures
        is_hex_digit(hex_upper_digit(d)),
        hex_digit_value(hex_upper_digit(d)) == d,
        '0' <= hex_upper_digit(d) <= 'F',
{
    if d < 10 {
        assert(hex_upper_digit(d) as int == 48 + d);
    } else {
        assert(hex_upper_digit(d) as int == 55 + d);
    }
}

/// The hexadecimal colour that the `color` reply prints (`RRGGBB`, upper
/// case) is read back by `parse_hex` as the same colour.
pub proof fn law_hex_round_trip(r: u8, g: u8, b: u8)
    ensures
        hex_color_value(hex_byte(r) + hex_byte(g) + hex_byte(b)) == Ok::<(u8, u8, u8), Seq<char>>(
            (r, g, b),
        ),
{
    let s = hex_byte(r) + hex_byte(g) + hex_byte(b);
    lemma_hex_digit_round_trip(r as int / 16);
    lemma_hex_digit_round_trip(r as int % 16);
    lemma_hex_digit_round_trip(g as int / 16);
    lemma_hex_digit_round_trip(g as int % 16);
    lemma_hex_digit_round_trip(b as int / 16);
    lemma_hex_digit_round_trip(b as int % 16);
    assert(s =~= seq![
        hex_upper_digit(r as int / 16),
        hex_upper_digit(r as int % 16),
        hex_upper_digit(g as int / 16),
        hex_upper_digit(g as int % 16),
        hex_upper_digit(b as int / 16),
        hex_upper_digit(b as int % 16),
    ]);
    assert(is_ascii_chars(s));
    is_ascii_chars_encode_utf8(s);
    assert(forall|i: int| 0 <= i < s.len() ==> is_hex_digit(#[trigger] s[i]));
    assert((r as int / 16) * 16 + r as int % 16 == r as int);
    assert((g as int / 16) * 16 + g as int % 16 == g as int);
    assert((b as int / 16) * 16 + b as int % 16 == b as int);
}

/// What the `bright` argument denotes: `max` (100), or a `u32` from 1 to
/// 100, or the message that refuses it.
pub open spec fn brightness_value(s: Seq<char>) -> Result<u32, Seq<char>> {
    if s == "max"@ {
        Ok(100)
    } else {
        match parse_unsigned(s, u32::MAX as nat) {
            None => Err("整数または 'max' を指定してください (got '"@ + s + "')"@),
            Some(n) => if 1 <= n <= 100 {
                Ok(n as u32)
            } else {
                Err("明るさは 1-100 の範囲です (got "@ + decimal(n) + ")"@)
            },
        }
    }
}

/// Reads the `bright` argument: `max` or 1 to 100.
pub fn parse_brightness(s: &str) -> (r: Result<u32, String>)
    ensures
        match r {
            Ok(n) => brightness_value(s@) == Ok::<u32, Seq<char>>(n),
            Err(m) => brightness_value(s@) == Err::<u32, Seq<char>>(m@),
        },
{
    if same_text(s, "max") {
        return Ok(100);
    }
    let v = chars_of(s);
    match parse_unsigned_chars(&v, 0xffff_ffff) {
        None => {
            let mut m = String::from_str("整数または 'max' を指定してください (got '");
            m.append(s);
            m.append("')");
            Err(m)
        },
        Some(n) => {
            if 1 <= n && n <= 100 {
                Ok(n as u32)
            } else {
                let mut m = String::from_str("明るさは 1-100 の範囲です (got ");
                let d = decimal_string(n);
                m.append(d.as_str());
                m.append(")");
                Err(m)
            }
        },
    }
}

/// What the `temp` argument denotes: a `u32` from 2700 to 6500 kelvin, or
/// the message that refuses it.
pub open spec fn temperature_value(s: Seq<char>) -> Result<u32, Seq<char>> {
    match parse_unsigned(s, u32::MAX as nat) {
        None => Err("整数を指定してください (got '"@ + s + "')"@),
        Some(n) => if 2700 <= n <= 6500 {
            Ok(n as u32)
        } else {
            Err("温度は 2700-6500 の範囲です (got "@ + decimal(n) + ")"@)
        },
    }
}

/// Reads the `temp` argument: 2700 to 6500.
pub fn parse_temperature(s: &str) -> (r: Result<u32, String>)
    ensures
        match r {
            Ok(n) => temperature_value(s@) == Ok::<u32, Seq<char>>(n),
            Err(m) => temperature_value(s@) == Err::<u32, Seq<char>>(m@),
        },
{
    let v = chars_of(s);
    match parse_unsigned_chars(&v, 0xffff_ffff) {
        None => {
            let mut m = String::from_str("整数を指定してください (got '");
            m.append(s);
            m.append("')");
            Err(m)
        },
        Some(n) => {
            if 2700 <= n && n <= 6500 {
                Ok(n as u32)
            } else {
                let mut m = String::from_str("温度は 2700-6500 の範囲です (got ");
                let d = decimal_string(n);
                m.append(d.as_str());
                m.append(")");
                Err(m)
            }
        },
    }
}

/// A brightness or colour temperature that the arguments accept is sent as
/// a parameter that the argument parser reads back as the same value.
pub proof fn law_number_parameter_round_trip(value: u32, kelvin: u32)
    ensures
        1 <= value <= 100 ==> brightness_value(
            command_parameter(DeviceCommand::SetBrightness { value }),
        ) == Ok::<u32, Seq<char>>(value),
        2700 <= kelvin <= 6500 ==> temperature_value(
            command_parameter(DeviceCommand::SetColorTemperature { kelvin }),
        ) == Ok::<u32, Seq<char>>(kelvin),
{
    reveal_strlit("max");
    lemma_parse_unsigned_decimal(value as nat, u32::MAX as nat);
    lemma_parse_unsigned_decimal(kelvin as nat, u32::MAX as nat);
    lemma_decimal_digits(value as nat);
    let d = decimal(value as nat);
    if d == "max"@ {
        assert(d[0] == 'm');
    }
}

/// The `bright` argument accepts `max` as 100 and exactly the numbers from 1
/// to 100; the `temp` argument accepts exactly 2700 to 6500 kelvin.
pub proof fn law_argument_ranges(n: u32)
    ensures
        brightness_value("max"@) == Ok::<u32, Seq<char>>(100),
        brightness_value(decimal(n as nat)) is Ok <==> 1 <= n <= 100,
        brightness_value(decimal(n as nat)) matches Ok(v) ==> v == n,
        temperature_value(decimal(n as nat)) is Ok <==> 2700 <= n <= 6500,
        temperature_value(decimal(n as nat)) matches Ok(v) ==> v == n,
{
    reveal_strlit("max");
    lemma_parse_unsigned_decimal(n as nat, u32::MAX as nat);
    lemma_decimal_digits(n as nat);
    let d = decimal(n as nat);
    if d == "max"@ {
        assert(d[0] == 'm');
    }
}

} // verus!
