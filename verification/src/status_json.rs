//! The `status` command's output: the bulb's state as one line of JSON.
use vstd::prelude::*;
use crate::api::{BulbStatus, Power};
use crate::commands::{infer_mode_from_status, inferred_mode, mode_to_str};
use crate::config::mode_label;
use crate::text::{decimal, lemma_decimal_digits, push_decimal};

verus! {

// ---------------------------------------------------------- the status line

/// The lowercase hexadecimal digit of `d` (0 to 15).
pub open spec fn hex_lower_digit(d: int) -> char {
    if d < 10 {
        (48 + d) as char
    } else {
        (87 + d) as char
    }
}

/// How JSON writes one character inside a string (serde_json's escape table):
/// `"` and `\` get a backslash; backspace, form feed, newline, carriage
/// return and tab become `\b`, `\f`, `\n`, `\r`, `\t`; other characters below
/// U+0020 become `\u00XX` with lowercase hex digits; the rest stay.
pub open spec fn json_escape_char(c: char) -> Seq<char> {
    let u = c as u32;
    if c == '"' {
        seq!['\\', '"']
    } else if c == '\\' {
        seq!['\\', '\\']
    } else if u == 8 {
        seq!['\\', 'b']
    } else if u == 12 {
        seq!['\\', 'f']
    } else if c == '\n' {
        seq!['\\', 'n']
    } else if c == '\r' {
        seq!['\\', 'r']
    } else if c == '\t' {
        seq!['\\', 't']
    } else if u < 0x20 {
        seq!['\\', 'u', '0', '0', hex_lower_digit(u as int / 16), hex_lower_digit(u as int % 16)]
    } else {
        seq![c]
    }
}

/// The characters of `s`, each escaped for a JSON string.
pub open spec fn json_escaped(s: Seq<char>) -> Seq<char>
    decreases s.len(),
{
    if s.len() == 0 {
        seq![]
    } else {
        json_escaped(s.drop_last()) + json_escape_char(s.last())
    }
}

/// A JSON string literal of `s`.
pub open spec fn json_string(s: Seq<char>) -> Seq<char> {
    seq!['"'] + json_escaped(s) + seq!['"']
}

/// Calls `serde_json::to_string` on a `&str`. Claimed, as serde_json's
/// `format_escaped_str` and its `ESCAPE` table show: the result is the string
/// in double quotes with `json_escape_char` applied to each character.
/// Writing into a `Vec` cannot fail, so the error arm is never taken.
#[verifier::external_body]
pub(crate) fn json_string_literal(s: &str) -> (r: String)
    ensures
        r@ == json_string(s@),
{
    match serde_json::to_string(s) {
        Ok(t) => t,
        Err(_) => String::new(),
    }
}

/// The JSON label of a power state.
pub open spec fn power_text(p: Power) -> Seq<char> {
    match p {
        Power::On => "on"@,
        Power::Off => "off"@,
    }
}

/// The status as one line of JSON, keys in serde_json's (sorted) order:
/// `{"brightness":B,"color":"C","color_temperature":K,"mode":"M","power":"P"}`.
pub open spec fn status_json(s: BulbStatus) -> Seq<char> {
    "{\"brightness\":"@ + decimal(s.brightness as nat) + ",\"color\":"@ + json_string(s.color@)
        + ",\"color_temperature\":"@ + decimal(s.color_temperature as nat) + ",\"mode\":\""@
        + mode_label(inferred_mode(s.color_temperature)) + "\",\"power\":\""@ + power_text(
        s.power,
    ) + "\"}"@
}

/// A status line that could not be serialised.
#[derive(Debug)]
pub struct StatusFormatError;

/// The bulb's status as one line of JSON, with the inferred mode.
pub fn format_status_json(status: &BulbStatus) -> (r: Result<String, StatusFormatError>)
    ensures
        r matches Ok(t) && t@ == status_json(*status),
{
    let mut out = String::from_str("{\"brightness\":");
    push_decimal(&mut out, status.brightness as u64);
    out.append(",\"color\":");
    let c = json_string_literal(status.color.as_str());
    out.append(c.as_str());
    out.append(",\"color_temperature\":");
    push_decimal(&mut out, status.color_temperature as u64);
    out.append(",\"mode\":\"");
    out.append(mode_to_str(infer_mode_from_status(status)));
    out.append("\",\"power\":\"");
    out.append(
        match status.power {
            Power::On => "on",
            Power::Off => "off",
        },
    );
    out.append("\"}");
    Ok(out)
}

/// The status line holds no line break: newlines and carriage returns inside
/// the colour are escaped.
pub proof fn law_status_json_single_line(s: BulbStatus)
    ensures
        forall|i: int|
            0 <= i < status_json(s).len() ==> #[trigger] status_json(s)[i] != '\n'
                && status_json(s)[i] != '\r',
{
    lemma_json_escaped_no_break(s.color@);
    lemma_decimal_digits(s.brightness as nat);
    lemma_decimal_digits(s.color_temperature as nat);
    let t = status_json(s);
    assert forall|i: int| 0 <= i < t.len() implies #[trigger] t[i] != '\n' && t[i] != '\r' by {
        lemma_status_json_no_break_at(s, i);
    }
}

proof fn lemma_status_json_no_break_at(s: BulbStatus, i: int)
    requires
        0 <= i < status_json(s).len(),
        forall|k: int|
            0 <= k < json_escaped(s.color@).len() ==> #[trigger] json_escaped(s.color@)[k] != '\n'
                && json_escaped(s.color@)[k] != '\r',
        forall|k: int|
            0 <= k < decimal(s.brightness as nat).len() ==> '0' <= #[trigger] decimal(
                s.brightness as nat,
            )[k] <= '9',
        forall|k: int|
            0 <= k < decimal(s.color_temperature as nat).len() ==> '0' <= #[trigger] decimal(
                s.color_temperature as nat,
            )[k] <= '9',
    ensures
        status_json(s)[i] != '\n' && status_json(s)[i] != '\r',
{
    reveal_strlit("{\"brightness\":");
    reveal_strlit(",\"color\":");
    reveal_strlit(",\"color_temperature\":");
    reveal_strlit(",\"mode\":\"");
    reveal_strlit("\",\"power\":\"");
    reveal_strlit("\"}");
    reveal_strlit("rgb");
    reveal_strlit("temp");
    reveal_strlit("on");
    reveal_strlit("off");
    let parts = seq![
        "{\"brightness\":"@,
        decimal(s.brightness as nat),
        ",\"color\":"@,
        json_string(s.color@),
        ",\"color_temperature\":"@,
        decimal(s.color_temperature as nat),
        ",\"mode\":\""@,
        mode_label(inferred_mode(s.color_temperature)),
        "\",\"power\":\""@,
        power_text(s.power),
        "\"}"@,
    ];
    assert forall|j: int, k: int| 0 <= j < parts.len() && 0 <= k < parts[j].len() implies #[trigger] parts[j][k]
        != '\n' && parts[j][k] != '\r' by {
        if j == 3 {
            let js = json_string(s.color@);
            if 0 < k < js.len() - 1 {
                assert(js[k] == json_escaped(s.color@)[k - 1]);
            }
        }
    }
    lemma_concat_no_break(parts);
    reveal_with_fuel(concat_all, 12);
    assert(status_json(s) =~= concat_all(parts));
}

/// The concatenation of a list of texts.
pub open spec fn concat_all(parts: Seq<Seq<char>>) -> Seq<char>
    decreases parts.len(),
{
    if parts.len() == 0 {
        seq![]
    } else {
        concat_all(parts.drop_last()) + parts.last()
    }
}

proof fn lemma_concat_no_break(parts: Seq<Seq<char>>)
    requires
        forall|j: int, k: int|
            0 <= j < parts.len() && 0 <= k < parts[j].len() ==> #[trigger] parts[j][k] != '\n'
                && parts[j][k] != '\r',
    ensures
        forall|i: int|
            0 <= i < concat_all(parts).len() ==> #[trigger] concat_all(parts)[i] != '\n'
                && concat_all(parts)[i] != '\r',
    decreases parts.len(),
{
    if parts.len() > 0 {
        let d = parts.drop_last();
        assert forall|j: int, k: int| 0 <= j < d.len() && 0 <= k < d[j].len() implies #[trigger] d[j][k]
            != '\n' && d[j][k] != '\r' by {
            assert(d[j] == parts[j]);
        }
        lemma_concat_no_break(d);
        let a = concat_all(d);
        let l = parts.last();
        assert forall|i: int| 0 <= i < concat_all(parts).len() implies #[trigger] concat_all(parts)[i]
            != '\n' && concat_all(parts)[i] != '\r' by {
            if i < a.len() {
                assert(concat_all(parts)[i] == a[i]);
            } else {
                assert(concat_all(parts)[i] == l[i - a.len()]);
                assert(l == parts[parts.len() - 1]);
            }
        }
    }
}

proof fn lemma_json_escaped_no_break(s: Seq<char>)
    ensures
        forall|i: int|
            0 <= i < json_escaped(s).len() ==> #[trigger] json_escaped(s)[i] != '\n'
                && json_escaped(s)[i] != '\r',
    decreases s.len(),
{
    if s.len() > 0 {
        lemma_json_escaped_no_break(s.drop_last());
        let a = json_escaped(s.drop_last());
        let e = json_escape_char(s.last());
        assert forall|i: int| 0 <= i < json_escaped(s).len() implies #[trigger] json_escaped(s)[i]
            != '\n' && json_escaped(s)[i] != '\r' by {
            if i < a.len() {
                assert(json_escaped(s)[i] == a[i]);
            } else {
                assert(json_escaped(s)[i] == e[i - a.len()]);
            }
        }
    }
}

/// The status line ends with the bulb's power state as it is: `"power":"on"`
/// for a lit bulb and `"power":"off"` for an unlit one; so two statuses that
/// differ in power never give the same line.
pub proof fn law_status_json_power(s: BulbStatus, t: BulbStatus)
    ensures
        s.power == Power::On ==> status_json(s).len() >= 14 && status_json(s).skip(
            status_json(s).len() - 14,
        ) == ",\"power\":\"on\"}"@,
        s.power == Power::Off ==> status_json(s).len() >= 15 && status_json(s).skip(
            status_json(s).len() - 15,
        ) == ",\"power\":\"off\"}"@,
        status_json(s) == status_json(t) ==> s.power == t.power,
{
    reveal_strlit(",\"power\":\"on\"}");
    reveal_strlit(",\"power\":\"off\"}");
    reveal_strlit("\",\"power\":\"");
    reveal_strlit("\"}");
    reveal_strlit("on");
    reveal_strlit("off");
    lemma_power_suffix(s);
    lemma_power_suffix(t);
    if status_json(s) == status_json(t) && s.power != t.power {
        let a = status_json(s);
        if s.power == Power::On {
            assert(a[a.len() - 3] == 'n');
            assert(a[a.len() - 3] == 'f');
        } else {
            assert(a[a.len() - 3] == 'f');
            assert(a[a.len() - 3] == 'n');
        }
    }
}

proof fn lemma_power_suffix(s: BulbStatus)
    ensures
        s.power == Power::On ==> status_json(s).len() >= 14 && status_json(s).skip(
            status_json(s).len() - 14,
        ) == ",\"power\":\"on\"}"@,
        s.power == Power::Off ==> status_json(s).len() >= 15 && status_json(s).skip(
            status_json(s).len() - 15,
        ) == ",\"power\":\"off\"}"@,
{
    reveal_strlit(",\"power\":\"on\"}");
    reveal_strlit(",\"power\":\"off\"}");
    reveal_strlit("\",\"power\":\"");
    reveal_strlit("\"}");
    reveal_strlit("on");
    reveal_strlit("off");
    let pre = "{\"brightness\":"@ + decimal(s.brightness as nat) + ",\"color\":"@ + json_string(
        s.color@,
    ) + ",\"color_temperature\":"@ + decimal(s.color_temperature as nat) + ",\"mode\":\""@
        + mode_label(inferred_mode(s.color_temperature));
    let tail = "\",\"power\":\""@ + power_text(s.power) + "\"}"@;
    assert(status_json(s) =~= pre + tail);
    assert(pre.len() >= 1) by {
        reveal_strlit("{\"brightness\":");
    }
    let whole = pre + tail;
    if s.power == Power::On {
        assert(tail.len() == 15);
        assert(whole.skip(whole.len() - 14) =~= tail.skip(1));
        assert(tail.skip(1) =~= ",\"power\":\"on\"}"@);
    } else {
        assert(tail.len() == 16);
        assert(whole.skip(whole.len() - 15) =~= tail.skip(1));
        assert(tail.skip(1) =~= ",\"power\":\"off\"}"@);
    }
}

/// The status line opens with the bulb's brightness: `{"brightness":`
/// followed by the brightness in decimal and then the `color` field.
pub proof fn law_status_json_brightness(s: BulbStatus)
    ensures
        status_json(s).take(23 + decimal(s.brightness as nat).len() as int) == "{\"brightness\":"@
            + decimal(s.brightness as nat) + ",\"color\":"@,
{
    reveal_strlit("{\"brightness\":");
    reveal_strlit(",\"color\":");
    let a = "{\"brightness\":"@ + decimal(s.brightness as nat) + ",\"color\":"@;
    let rest = json_string(s.color@) + ",\"color_temperature\":"@ + decimal(
        s.color_temperature as nat,
    ) + ",\"mode\":\""@ + mode_label(inferred_mode(s.color_temperature)) + "\",\"power\":\""@
        + power_text(s.power) + "\"}"@;
    assert(status_json(s) =~= a + rest);
    assert((a + rest).take(a.len() as int) =~= a);
}

/// The colour temperature field holds the bulb's colour temperature, and the
/// mode field says `rgb` exactly when that temperature is 0.
pub proof fn law_status_json_temperature_and_mode(s: BulbStatus)
    ensures
        ({
            let head = "{\"brightness\":"@ + decimal(s.brightness as nat) + ",\"color\":"@
                + json_string(s.color@) + ",\"color_temperature\":"@;
            let field = decimal(s.color_temperature as nat) + ",\"mode\":\""@ + (if s.color_temperature
                == 0 {
                "rgb"@
            } else {
                "temp"@
            }) + "\""@;
            status_json(s).subrange(head.len() as int, (head.len() + field.len()) as int) == field
        }),
{
    reveal_strlit("\"");
    reveal_strlit("\",\"power\":\"");
    let head = "{\"brightness\":"@ + decimal(s.brightness as nat) + ",\"color\":"@ + json_string(
        s.color@,
    ) + ",\"color_temperature\":"@;
    let m = if s.color_temperature == 0 {
        "rgb"@
    } else {
        "temp"@
    };
    let field = decimal(s.color_temperature as nat) + ",\"mode\":\""@ + m + "\""@;
    reveal_strlit(",\"power\":\"");
    reveal_strlit("rgb");
    reveal_strlit("temp");
    assert(mode_label(inferred_mode(s.color_temperature)) == m);
    assert("\",\"power\":\""@ =~= "\""@ + ",\"power\":\""@);
    assert(status_json(s) =~= head + field + ",\"power\":\""@ + power_text(s.power) + "\"}"@);
    let whole = head + field + (",\"power\":\""@ + power_text(s.power) + "\"}"@);
    assert(whole.subrange(head.len() as int, (head.len() + field.len()) as int) =~= field);
}

} // verus!
