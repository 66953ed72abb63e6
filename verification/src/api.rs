//! The data of the SwitchBot Cloud API v1.1 and the computations around its
//! requests and replies: colour strings, reply status, request headers,
//! device commands and endpoint URLs.
use vstd::prelude::*;
use crate::status_json::{json_string, json_string_literal};
use vstd::utf8::{encode_utf8, is_ascii_chars, is_ascii_chars_encode_utf8};
use crate::signing::{
    ascii_upper, ascii_upper_text, base64_encoding, compute_sign, hmac_sha256_of,
    is_base64_text_char, lemma_base64_alphabet, sign_payload_text,
};
use crate::text::{
    chars_of, concat, decimal, decimal_string, lemma_decimal_digits, lemma_parse_unsigned_decimal,
    lemma_split_on_first, lemma_split_on_no_sep, parse_unsigned, parse_unsigned_chars, push_char,
    push_decimal, signed_decimal, signed_decimal_string, split_chars, split_on,
};

verus! {

/// A reply of the API: `statusCode` 100 means success.
#[derive(Debug)]
pub struct ApiResponse<T> {
    pub status_code: i64,
    pub message: String,
    pub body: Option<T>,
}

/// The body of a reply to `GET /v1.1/devices`.
#[derive(Debug)]
pub struct DeviceList {
    pub device_list: Vec<Device>,
}

/// One device of the account.
#[derive(Debug, Clone)]
pub struct Device {
    pub id: String,
    pub name: String,
    pub kind: String,
}

/// Whether the bulb is lit.
#[derive(Debug, Clone, Copy, PartialEq, Eq, Structural)]
pub enum Power {
    On,
    Off,
}

/// The body of a reply to `GET /v1.1/devices/{id}/status` for a Color Bulb.
#[derive(Debug, Clone)]
pub struct BulbStatus {
    pub power: Power,
    pub brightness: u32,
    pub color: String,
    pub color_temperature: u32,
}

/// Which request a reply answers.
#[derive(Debug, Clone, Copy, PartialEq, Eq, Structural)]
pub enum ReplyKind {
    ListDevices,
    GetStatus,
    SendCommand,
}

/// What went wrong with a request or a reply.
#[derive(Debug)]
pub enum ApiError {
    /// The reply's `statusCode` was not 100.
    Status { status_code: i64, message: String },
    /// A successful reply without a body.
    EmptyBody { reply: ReplyKind },
    /// The HTTP status was not 2xx; `message` is the reply's `message` field
    /// when the reply has one.
    Http { http_status: u16, reply_message: Option<String> },
    /// A 2xx reply whose body is not an API reply.
    Undecodable { reply: ReplyKind },
    /// A header value holds a byte that HTTP does not allow.
    InvalidHeaderValue,
}

/// The name of a request in messages.
pub open spec fn reply_kind_text(k: ReplyKind) -> Seq<char> {
    match k {
        ReplyKind::ListDevices => "list_devices"@,
        ReplyKind::GetStatus => "get_status"@,
        ReplyKind::SendCommand => "send_command"@,
    }
}

fn reply_kind_str(k: ReplyKind) -> (s: &'static str)
    ensures
        s@ == reply_kind_text(k),
{
    match k {
        ReplyKind::ListDevices => "list_devices",
        ReplyKind::GetStatus => "get_status",
        ReplyKind::SendCommand => "send_command",
    }
}

/// The text of an HTTP error: the status code, and the reply's message when
/// there is one.
pub open spec fn http_error_text(http_status: int, message: Option<Seq<char>>) -> Seq<char> {
    match message {
        Some(m) => "HTTP "@ + decimal(http_status as nat) + " error: "@ + m,
        None => "HTTP "@ + decimal(http_status as nat) + " error"@,
    }
}

/// The text of an error.
pub open spec fn api_error_text(e: ApiError) -> Seq<char> {
    match e {
        ApiError::Status { status_code, message } => status_error_text(message@, status_code as int),
        ApiError::EmptyBody { reply } => "empty body in "@ + reply_kind_text(reply),
        ApiError::Http { http_status, reply_message } => http_error_text(
            http_status as int,
            match reply_message {
                Some(m) => Some(m@),
                None => None,
            },
        ),
        ApiError::Undecodable { reply } => "failed to decode "@ + reply_kind_text(reply)
            + " JSON"@,
        ApiError::InvalidHeaderValue => "failed to parse header value"@,
    }
}

/// The text of an API status error.
pub open spec fn status_error_text(message: Seq<char>, status_code: int) -> Seq<char> {
    "API error: "@ + message + " (statusCode="@ + signed_decimal(status_code) + ")"@
}

impl ApiError {
    /// The error's message.
    pub fn message(&self) -> (m: String)
        ensures
            m@ == api_error_text(*self),
    {
        match self {
            ApiError::Status { status_code, message } => {
                let mut m = String::from_str("API error: ");
                m.append(message.as_str());
                m.append(" (statusCode=");
                let code = signed_decimal_string(*status_code);
                m.append(code.as_str());
                m.append(")");
                m
            },
            ApiError::EmptyBody { reply } => concat("empty body in ", reply_kind_str(*reply)),
            ApiError::Http { http_status, reply_message } => {
                let mut m = String::from_str("HTTP ");
                push_decimal(&mut m, *http_status as u64);
                match reply_message {
                    Some(text) => {
                        m.append(" error: ");
                        m.append(text.as_str());
                    },
                    None => m.append(" error"),
                }
                m
            },
            ApiError::Undecodable { reply } => {
                let mut m = concat("failed to decode ", reply_kind_str(*reply));
                m.append(" JSON");
                m
            },
            ApiError::InvalidHeaderValue => String::from_str("failed to parse header value"),
        }
    }
}

/// Accepts a reply whose `statusCode` is 100; any other code is an error that
/// carries the code and the reply's message.
pub fn check_status<T>(resp: &ApiResponse<T>) -> (r: Result<(), ApiError>)
    ensures
        r is Ok <==> resp.status_code == 100,
        r matches Err(e) ==> e == (ApiError::Status {
            status_code: resp.status_code,
            message: resp.message,
        }),
{
    if resp.status_code == 100 {
        Ok(())
    } else {
        Err(ApiError::Status { status_code: resp.status_code, message: resp.message.clone() })
    }
}

/// The devices of a reply to `GET /v1.1/devices`: an error unless the status
/// is 100 and the body is present.
pub fn devices_from_response(resp: ApiResponse<DeviceList>) -> (r: Result<Vec<Device>, ApiError>)
    ensures
        resp.status_code != 100 ==> r == Err::<Vec<Device>, ApiError>(
            ApiError::Status { status_code: resp.status_code, message: resp.message },
        ),
        resp.status_code == 100 ==> match resp.body {
            Some(b) => r == Ok::<Vec<Device>, ApiError>(b.device_list),
            None => r == Err::<Vec<Device>, ApiError>(
                ApiError::EmptyBody { reply: ReplyKind::ListDevices },
            ),
        },
{
    match check_status(&resp) {
        Err(e) => Err(e),
        Ok(()) => match resp.body {
            Some(b) => Ok(b.device_list),
            None => Err(ApiError::EmptyBody { reply: ReplyKind::ListDevices }),
        },
    }
}

/// The status of a reply to `GET /v1.1/devices/{id}/status`: an error unless
/// the status is 100 and the body is present.
pub fn status_from_response(resp: ApiResponse<BulbStatus>) -> (r: Result<BulbStatus, ApiError>)
    ensures
        resp.status_code != 100 ==> r == Err::<BulbStatus, ApiError>(
            ApiError::Status { status_code: resp.status_code, message: resp.message },
        ),
        resp.status_code == 100 ==> match resp.body {
            Some(b) => r == Ok::<BulbStatus, ApiError>(b),
            None => r == Err::<BulbStatus, ApiError>(
                ApiError::EmptyBody { reply: ReplyKind::GetStatus },
            ),
        },
{
    match check_status(&resp) {
        Err(e) => Err(e),
        Ok(()) => match resp.body {
            Some(b) => Ok(b),
            None => Err(ApiError::EmptyBody { reply: ReplyKind::GetStatus }),
        },
    }
}

/// How an HTTP reply is judged before its API fields are read: a status
/// other than 2xx is an HTTP error carrying the status and the reply's
/// `message` (when it has one); a 2xx reply whose body is not an API reply
/// cannot be decoded; otherwise the decoded reply goes on.
pub open spec fn http_reply<T>(
    kind: ReplyKind,
    http_status: u16,
    message: Option<String>,
    api: Option<ApiResponse<T>>,
) -> Result<ApiResponse<T>, ApiError> {
    if !(200 <= http_status < 300) {
        Err(ApiError::Http { http_status, reply_message: message })
    } else {
        match api {
            None => Err(ApiError::Undecodable { reply: kind }),
            Some(a) => Ok(a),
        }
    }
}

/// Judges an HTTP reply to the request `kind`: `http_status` is its status,
/// `message` the `message` field of its body when the body has one, and `api`
/// the body decoded as an API reply when it decodes (see `http_reply`).
pub fn reply_outcome<T>(
    kind: ReplyKind,
    http_status: u16,
    message: Option<String>,
    api: Option<ApiResponse<T>>,
) -> (r: Result<ApiResponse<T>, ApiError>)
    ensures
        r == http_reply(kind, http_status, message, api),
{
    if !(200 <= http_status && http_status < 300) {
        Err(ApiError::Http { http_status, reply_message: message })
    } else {
        match api {
            None => Err(ApiError::Undecodable { reply: kind }),
            Some(a) => Ok(a),
        }
    }
}

/// A reply whose HTTP status is not 2xx is an error whatever its body says,
/// and the error's text carries the status code and the reply's `message`.
pub proof fn law_http_errors_reported<T>(
    kind: ReplyKind,
    http_status: u16,
    message: Option<String>,
    api: Option<ApiResponse<T>>,
)
    requires
        !(200 <= http_status < 300),
    ensures
        http_reply(kind, http_status, message, api) == Err::<ApiResponse<T>, ApiError>(
            ApiError::Http { http_status, reply_message: message },
        ),
        api_error_text(ApiError::Http { http_status, reply_message: message }).take(
            5 + decimal(http_status as nat).len() as int,
        ) == "HTTP "@ + decimal(http_status as nat),
        message matches Some(m) ==> api_error_text(
            ApiError::Http { http_status, reply_message: message },
        ).skip(13 + decimal(http_status as nat).len() as int) == m@,
{
    reveal_strlit("HTTP ");
    reveal_strlit(" error: ");
    reveal_strlit(" error");
    let d = decimal(http_status as nat);
    let t = api_error_text(ApiError::Http { http_status, reply_message: message });
    assert(t.take(5 + d.len() as int) =~= "HTTP "@ + d);
    if let Some(m) = message {
        assert(t.skip(13 + d.len() as int) =~= m@);
    }
}

/// The devices that a reply to `GET /v1.1/devices` lists: an HTTP error
/// unless the status is 2xx, then a decoding error, then an API error unless
/// `statusCode` is 100, then an error when the body is missing.
pub fn list_devices_reply(
    http_status: u16,
    message: Option<String>,
    api: Option<ApiResponse<DeviceList>>,
) -> (r: Result<Vec<Device>, ApiError>)
    ensures
        r is Ok <==> (200 <= http_status < 300 && (api matches Some(a) && a.status_code == 100
            && a.body is Some)),
        match http_reply(ReplyKind::ListDevices, http_status, message, api) {
            Err(e) => r == Err::<Vec<Device>, ApiError>(e),
            Ok(a) => if a.status_code != 100 {
                r == Err::<Vec<Device>, ApiError>(
                    ApiError::Status { status_code: a.status_code, message: a.message },
                )
            } else {
                match a.body {
                    Some(b) => r == Ok::<Vec<Device>, ApiError>(b.device_list),
                    None => r == Err::<Vec<Device>, ApiError>(
                        ApiError::EmptyBody { reply: ReplyKind::ListDevices },
                    ),
                }
            },
        },
{
    match reply_outcome(ReplyKind::ListDevices, http_status, message, api) {
        Err(e) => Err(e),
        Ok(a) => devices_from_response(a),
    }
}

/// The status that a reply to `GET /v1.1/devices/{id}/status` gives: an
/// HTTP error unless the status is 2xx, then a decoding error, then an API
/// error unless `statusCode` is 100, then an error when the body is missing.
pub fn get_status_reply(
    http_status: u16,
    message: Option<String>,
    api: Option<ApiResponse<BulbStatus>>,
) -> (r: Result<BulbStatus, ApiError>)
    ensures
        r is Ok <==> (200 <= http_status < 300 && (api matches Some(a) && a.status_code == 100
            && a.body is Some)),
        match http_reply(ReplyKind::GetStatus, http_status, message, api) {
            Err(e) => r == Err::<BulbStatus, ApiError>(e),
            Ok(a) => if a.status_code != 100 {
                r == Err::<BulbStatus, ApiError>(
                    ApiError::Status { status_code: a.status_code, message: a.message },
                )
            } else {
                match a.body {
                    Some(b) => r == Ok::<BulbStatus, ApiError>(b),
                    None => r == Err::<BulbStatus, ApiError>(
                        ApiError::EmptyBody { reply: ReplyKind::GetStatus },
                    ),
                }
            },
        },
{
    match reply_outcome(ReplyKind::GetStatus, http_status, message, api) {
        Err(e) => Err(e),
        Ok(a) => status_from_response(a),
    }
}

/// Whether a reply to `POST /v1.1/devices/{id}/commands` reports success:
/// an HTTP error unless the status is 2xx, then a decoding error, then an
/// API error unless `statusCode` is 100.
pub fn send_command_reply<T>(
    http_status: u16,
    message: Option<String>,
    api: Option<ApiResponse<T>>,
) -> (r: Result<(), ApiError>)
    ensures
        r is Ok <==> (200 <= http_status < 300 && (api matches Some(a) && a.status_code == 100)),
        match http_reply(ReplyKind::SendCommand, http_status, message, api) {
            Err(e) => r == Err::<(), ApiError>(e),
            Ok(a) => if a.status_code != 100 {
                r == Err::<(), ApiError>(
                    ApiError::Status { status_code: a.status_code, message: a.message },
                )
            } else {
                r is Ok
            },
        },
{
    match reply_outcome(ReplyKind::SendCommand, http_status, message, api) {
        Err(e) => Err(e),
        Ok(a) => check_status(&a),
    }
}

// ------------------------------------------------------------- colour strings

/// Why a colour string was refused.
#[derive(Debug, Clone, Copy, PartialEq, Eq, Structural)]
pub enum ColorErrorKind {
    /// Not exactly three `:`-separated parts.
    NotThreeParts,
    InvalidRed,
    InvalidGreen,
    InvalidBlue,
}

/// A refused colour string.
#[derive(Debug)]
pub struct ColorParseError {
    pub kind: ColorErrorKind,
    pub input: String,
}

/// The colour that an `R:G:B` string denotes: exactly three `:`-separated
/// parts, each read as a `u8` by `FromStr`.
pub open spec fn color_value(s: Seq<char>) -> Result<(u8, u8, u8), ColorErrorKind> {
    let parts = split_on(s, ':');
    if parts.len() != 3 {
        Err(ColorErrorKind::NotThreeParts)
    } else {
        match parse_unsigned(parts[0], 255) {
            None => Err(ColorErrorKind::InvalidRed),
            Some(r) => match parse_unsigned(parts[1], 255) {
                None => Err(ColorErrorKind::InvalidGreen),
                Some(g) => match parse_unsigned(parts[2], 255) {
                    None => Err(ColorErrorKind::InvalidBlue),
                    Some(b) => Ok((r as u8, g as u8, b as u8)),
                },
            },
        }
    }
}

/// The text of a colour-string error.
pub open spec fn color_error_text(kind: ColorErrorKind, input: Seq<char>) -> Seq<char> {
    match kind {
        ColorErrorKind::NotThreeParts => "invalid color string '"@ + input
            + "': expected 'R:G:B'"@,
        ColorErrorKind::InvalidRed => "invalid R in '"@ + input + "'"@,
        ColorErrorKind::InvalidGreen => "invalid G in '"@ + input + "'"@,
        ColorErrorKind::InvalidBlue => "invalid B in '"@ + input + "'"@,
    }
}

impl ColorParseError {
    /// The error's message.
    pub fn message(&self) -> (m: String)
        ensures
            m@ == color_error_text(self.kind, self.input@),
    {
        let (head, tail) = match self.kind {
            ColorErrorKind::NotThreeParts => ("invalid color string '", "': expected 'R:G:B'"),
            ColorErrorKind::InvalidRed => ("invalid R in '", "'"),
            ColorErrorKind::InvalidGreen => ("invalid G in '", "'"),
            ColorErrorKind::InvalidBlue => ("invalid B in '", "'"),
        };
        let mut m = String::from_str(head);
        m.append(self.input.as_str());
        m.append(tail);
        m
    }
}

/// Splits an `R:G:B` string (the bulb's `color` field) into its three
/// channels.
pub fn parse_color_str(s: &str) -> (r: Result<(u8, u8, u8), ColorParseError>)
    ensures
        match r {
            Ok(c) => color_value(s@) == Ok::<(u8, u8, u8), ColorErrorKind>(c),
            Err(e) => color_value(s@) == Err::<(u8, u8, u8), ColorErrorKind>(e.kind) && e.input@
                == s@,
        },
{
    let v = chars_of(s);
    let parts = split_chars(&v, ':');
    if parts.len() != 3 {
        return Err(
            ColorParseError { kind: ColorErrorKind::NotThreeParts, input: String::from_str(s) },
        );
    }
    let r = match parse_unsigned_chars(&parts[0], 255) {
        Some(x) => x as u8,
        None => {
            return Err(
                ColorParseError { kind: ColorErrorKind::InvalidRed, input: String::from_str(s) },
            )
        },
    };
    let g = match parse_unsigned_chars(&parts[1], 255) {
        Some(x) => x as u8,
        None => {
            return Err(
                ColorParseError { kind: ColorErrorKind::InvalidGreen, input: String::from_str(s) },
            )
        },
    };
    let b = match parse_unsigned_chars(&parts[2], 255) {
        Some(x) => x as u8,
        None => {
            return Err(
                ColorParseError { kind: ColorErrorKind::InvalidBlue, input: String::from_str(s) },
            )
        },
    };
    Ok((r, g, b))
}


// -------------------------------------------------------------------- headers

/// A byte that HTTP allows in a header value: visible ASCII, space, tab, or
/// any byte from 0x80 up.
pub open spec fn is_header_value_byte(b: u8) -> bool {
    (b >= 32 && b != 127) || b == 9
}

/// Text whose UTF-8 bytes are all allowed in a header value.
pub open spec fn is_header_value(s: Seq<char>) -> bool {
    forall|i: int|
        0 <= i < encode_utf8(s).len() ==> is_header_value_byte(#[trigger] encode_utf8(s)[i])
}

/// Calls `reqwest::header::HeaderValue::from_str` (the `http` crate's) and
/// reports whether it accepted `s`. Claimed, as http's `is_valid` shows: it
/// accepts exactly the texts whose every byte is at least 32 and not 127, or
/// is a tab.
#[verifier::external_body]
fn header_value_accepted(s: &str) -> (ok: bool)
    ensures
        ok == is_header_value(s@),
{
    reqwest::header::HeaderValue::from_str(s).is_ok()
}

/// ASCII text whose characters are all at least ' ' and below DEL is a header value.
proof fn lemma_printable_ascii_is_header_value(s: Seq<char>)
    requires
        forall|i: int| 0 <= i < s.len() ==> ' ' <= #[trigger] s[i] <= '~',
    ensures
        is_header_value(s),
{
    assert(is_ascii_chars(s));
    is_ascii_chars_encode_utf8(s);
    assert forall|i: int| 0 <= i < encode_utf8(s).len() implies is_header_value_byte(
        #[trigger] encode_utf8(s)[i],
    ) by {
        assert(s[i] as u8 == encode_utf8(s)[i]);
    }
}

proof fn lemma_signed_decimal_header_value(t: int)
    ensures
        is_header_value(signed_decimal(t)),
{
    let s = signed_decimal(t);
    if t < 0 {
        lemma_decimal_digits((-t) as nat);
        assert forall|i: int| 0 <= i < s.len() implies ' ' <= #[trigger] s[i] <= '~' by {
            if i > 0 {
                assert(s[i] == decimal((-t) as nat)[i - 1]);
            }
        }
    } else {
        lemma_decimal_digits(t as nat);
    }
    lemma_printable_ascii_is_header_value(s);
}

/// The headers of an authenticated request, names in lowercase as HTTP
/// stores them.
pub open spec fn headers_text(token: Seq<char>, t: int, nonce: Seq<char>, sign: Seq<char>) -> Seq<
    (Seq<char>, Seq<char>),
> {
    seq![
        ("authorization"@, token),
        ("sign"@, sign),
        ("t"@, signed_decimal(t)),
        ("nonce"@, nonce),
        ("content-type"@, "application/json"@),
    ]
}

/// The header pairs as text.
pub open spec fn header_pairs_view(h: Seq<(String, String)>) -> Seq<(Seq<char>, Seq<char>)> {
    h.map_values(|p: (String, String)| (p.0@, p.1@))
}

/// Builds the five headers of an authenticated request (`Authorization`,
/// `sign`, `t`, `nonce`, `Content-Type: application/json`); an error when the
/// token, the signature or the nonce holds a byte that HTTP does not allow in
/// a header value.
pub fn build_headers(token: &str, t: i64, nonce: &str, sign: &str) -> (r: Result<
    Vec<(String, String)>,
    ApiError,
>)
    ensures
        r is Ok <==> (is_header_value(token@) && is_header_value(sign@) && is_header_value(
            nonce@,
        )),
        r matches Ok(h) ==> header_pairs_view(h@) == headers_text(token@, t as int, nonce@, sign@),
        r matches Err(e) ==> e is InvalidHeaderValue,
{
    if !header_value_accepted(token) {
        return Err(ApiError::InvalidHeaderValue);
    }
    if !header_value_accepted(sign) {
        return Err(ApiError::InvalidHeaderValue);
    }
    let ts = signed_decimal_string(t);
    proof {
        lemma_signed_decimal_header_value(t as int);
    }
    if !header_value_accepted(ts.as_str()) {
        return Err(ApiError::InvalidHeaderValue);
    }
    if !header_value_accepted(nonce) {
        return Err(ApiError::InvalidHeaderValue);
    }
    let mut h: Vec<(String, String)> = Vec::new();
    h.push((String::from_str("authorization"), String::from_str(token)));
    h.push((String::from_str("sign"), String::from_str(sign)));
    h.push((String::from_str("t"), ts));
    h.push((String::from_str("nonce"), String::from_str(nonce)));
    h.push((String::from_str("content-type"), String::from_str("application/json")));
    assert(header_pairs_view(h@) =~= headers_text(token@, t as int, nonce@, sign@));
    Ok(h)
}

/// Each header of a request carries its own value: `authorization` the
/// token, `sign` the signature, `t` the timestamp in decimal, `nonce` the
/// nonce, and `content-type` JSON; no name occurs twice.
pub proof fn law_headers_carry_their_values(
    token: Seq<char>,
    t: int,
    nonce: Seq<char>,
    sign: Seq<char>,
)
    ensures
        ({
            let h = headers_text(token, t, nonce, sign);
            &&& h.len() == 5
            &&& forall|i: int, j: int| 0 <= i < j < 5 ==> h[i].0 != h[j].0
            &&& forall|i: int|
                0 <= i < 5 ==> (h[i].0 == "authorization"@ ==> h[i].1 == token) && (h[i].0
                    == "sign"@ ==> h[i].1 == sign) && (h[i].0 == "t"@ ==> h[i].1 == signed_decimal(
                    t,
                )) && (h[i].0 == "nonce"@ ==> h[i].1 == nonce) && (h[i].0 == "content-type"@
                    ==> h[i].1 == "application/json"@)
            &&& exists|i: int| 0 <= i < 5 && h[i].0 == "authorization"@
            &&& exists|i: int| 0 <= i < 5 && h[i].0 == "sign"@
            &&& exists|i: int| 0 <= i < 5 && h[i].0 == "t"@
            &&& exists|i: int| 0 <= i < 5 && h[i].0 == "nonce"@
        }),
{
    reveal_strlit("authorization");
    reveal_strlit("sign");
    reveal_strlit("t");
    reveal_strlit("nonce");
    reveal_strlit("content-type");
    let h = headers_text(token, t, nonce, sign);
    assert(h[0].0 == "authorization"@);
    assert(h[1].0 == "sign"@);
    assert(h[2].0 == "t"@);
    assert(h[3].0 == "nonce"@);
    assert(h[4].0 == "content-type"@);
    assert("authorization"@[0] == 'a' && "sign"@[0] == 's' && "t"@[0] == 't' && "nonce"@[0] == 'n'
        && "content-type"@[0] == 'c');
}

/// The headers of a request signed now: the signature is `compute_sign` of
/// the token, the secret, the timestamp `t` (milliseconds) and the nonce.
/// An error when the token or the nonce holds a byte that HTTP does not allow.
pub fn auth_headers(token: &str, secret: &str, t: i64, nonce: &str) -> (r: Result<
    Vec<(String, String)>,
    ApiError,
>)
    ensures
        r is Ok <==> (is_header_value(token@) && is_header_value(nonce@)),
        r matches Ok(h) ==> header_pairs_view(h@) == headers_text(
            token@,
            t as int,
            nonce@,
            ascii_upper_text(
                base64_encoding(
                    hmac_sha256_of(secret@, sign_payload_text(token@, t as int, nonce@)),
                ),
            ),
        ),
        r matches Err(e) ==> e is InvalidHeaderValue,
{
    let sign = compute_sign(token, secret, t, nonce);
    proof {
        let mac = hmac_sha256_of(secret@, sign_payload_text(token@, t as int, nonce@));
        lemma_base64_alphabet(mac);
        let e = base64_encoding(mac);
        assert forall|i: int| 0 <= i < sign@.len() implies ' ' <= #[trigger] sign@[i] <= '~' by {
            assert(sign@[i] == ascii_upper(e[i]));
            assert(is_base64_text_char(e[i]));
        }
        lemma_printable_ascii_is_header_value(sign@);
    }
    build_headers(token, t, nonce, sign.as_str())
}


// ------------------------------------------------------------ device commands

/// A command that the bulb accepts through `POST /v1.1/devices/{id}/commands`.
#[derive(Debug, Clone, Copy, PartialEq, Eq, Structural)]
pub enum DeviceCommand {
    SetColor { r: u8, g: u8, b: u8 },
    SetBrightness { value: u32 },
    SetColorTemperature { kelvin: u32 },
    TurnOn,
    TurnOff,
}

/// The `command` field of a device command.
pub open spec fn command_name(c: DeviceCommand) -> Seq<char> {
    match c {
        DeviceCommand::SetColor { .. } => "setColor"@,
        DeviceCommand::SetBrightness { .. } => "setBrightness"@,
        DeviceCommand::SetColorTemperature { .. } => "setColorTemperature"@,
        DeviceCommand::TurnOn => "turnOn"@,
        DeviceCommand::TurnOff => "turnOff"@,
    }
}

/// The `parameter` field of a device command: `R:G:B` in decimal for a
/// colour, the decimal value for brightness and temperature, `default` for
/// on and off.
pub open spec fn command_parameter(c: DeviceCommand) -> Seq<char> {
    match c {
        DeviceCommand::SetColor { r, g, b } => decimal(r as nat) + ":"@ + decimal(g as nat) + ":"@
            + decimal(b as nat),
        DeviceCommand::SetBrightness { value } => decimal(value as nat),
        DeviceCommand::SetColorTemperature { kelvin } => decimal(kelvin as nat),
        DeviceCommand::TurnOn => "default"@,
        DeviceCommand::TurnOff => "default"@,
    }
}

impl DeviceCommand {
    /// The `command` field.
    pub fn name(&self) -> (s: &'static str)
        ensures
            s@ == command_name(*self),
    {
        match self {
            DeviceCommand::SetColor { .. } => "setColor",
            DeviceCommand::SetBrightness { .. } => "setBrightness",
            DeviceCommand::SetColorTemperature { .. } => "setColorTemperature",
            DeviceCommand::TurnOn => "turnOn",
            DeviceCommand::TurnOff => "turnOff",
        }
    }

    /// The `parameter` field.
    pub fn parameter(&self) -> (s: String)
        ensures
            s@ == command_parameter(*self),
    {
        match self {
            DeviceCommand::SetColor { r, g, b } => {
                let mut s = String::new();
                push_decimal(&mut s, *r as u64);
                push_char(&mut s, ':');
                push_decimal(&mut s, *g as u64);
                push_char(&mut s, ':');
                push_decimal(&mut s, *b as u64);
                proof {
                    reveal_strlit(":");
                }
                assert(s@ =~= command_parameter(*self));
                s
            },
            DeviceCommand::SetBrightness { value } => decimal_string(*value as u64),
            DeviceCommand::SetColorTemperature { kelvin } => decimal_string(*kelvin as u64),
            DeviceCommand::TurnOn => String::from_str("default"),
            DeviceCommand::TurnOff => String::from_str("default"),
        }
    }
}

/// What `setColor` sends as its parameter, the status colour parser reads
/// back as the same colour: `parse_color_str` undoes `R:G:B`.
pub proof fn law_color_parameter_round_trip(r: u8, g: u8, b: u8)
    ensures
        color_value(command_parameter(DeviceCommand::SetColor { r, g, b })) == Ok::<
            (u8, u8, u8),
            ColorErrorKind,
        >((r, g, b)),
{
    reveal_strlit(":");
    let dr = decimal(r as nat);
    let dg = decimal(g as nat);
    let db = decimal(b as nat);
    lemma_decimal_digits(r as nat);
    lemma_decimal_digits(g as nat);
    lemma_decimal_digits(b as nat);
    assert forall|i: int| 0 <= i < dr.len() implies #[trigger] dr[i] != ':' by {
        assert('0' <= dr[i] <= '9');
    }
    assert forall|i: int| 0 <= i < dg.len() implies #[trigger] dg[i] != ':' by {
        assert('0' <= dg[i] <= '9');
    }
    assert forall|i: int| 0 <= i < db.len() implies #[trigger] db[i] != ':' by {
        assert('0' <= db[i] <= '9');
    }
    let tail = dg + seq![':'] + db;
    assert(command_parameter(DeviceCommand::SetColor { r, g, b }) == dr + seq![':'] + tail);
    lemma_split_on_first(dr, ':', tail);
    lemma_split_on_first(dg, ':', db);
    lemma_split_on_no_sep(db, ':');
    assert(split_on(dr + seq![':'] + tail, ':') == seq![dr, dg, db]);
    lemma_parse_unsigned_decimal(r as nat, 255);
    lemma_parse_unsigned_decimal(g as nat, 255);
    lemma_parse_unsigned_decimal(b as nat, 255);
}

/// The JSON body of a command request, keys in serde_json's (sorted) order:
/// `{"command":"…","commandType":"command","parameter":"…"}`.
pub open spec fn command_body_text(c: DeviceCommand) -> Seq<char> {
    "{\"command\":"@ + json_string(command_name(c)) + ",\"commandType\":\"command\",\"parameter\":"@
        + json_string(command_parameter(c)) + "}"@
}

impl DeviceCommand {
    /// The JSON body that `POST /v1.1/devices/{id}/commands` sends.
    pub fn body(&self) -> (s: String)
        ensures
            s@ == command_body_text(*self),
    {
        let mut s = String::from_str("{\"command\":");
        let name = json_string_literal(self.name());
        s.append(name.as_str());
        s.append(",\"commandType\":\"command\",\"parameter\":");
        let p = self.parameter();
        let param = json_string_literal(p.as_str());
        s.append(param.as_str());
        s.append("}");
        s
    }
}

// ------------------------------------------------------------------ endpoints

/// The API's base URL.
pub const BASE_URL: &'static str = "https://api.switch-bot.com";

/// `GET` here lists the devices.
pub fn devices_url() -> (u: String)
    ensures
        u@ == BASE_URL@ + "/v1.1/devices"@,
{
    concat(BASE_URL, "/v1.1/devices")
}

/// `GET` here reads a device's status.
pub fn status_url(device_id: &str) -> (u: String)
    ensures
        u@ == BASE_URL@ + "/v1.1/devices/"@ + device_id@ + "/status"@,
{
    let mut u = concat(BASE_URL, "/v1.1/devices/");
    u.append(device_id);
    u.append("/status");
    u
}

/// `POST` here sends a device command.
pub fn commands_url(device_id: &str) -> (u: String)
    ensures
        u@ == BASE_URL@ + "/v1.1/devices/"@ + device_id@ + "/commands"@,
{
    let mut u = concat(BASE_URL, "/v1.1/devices/");
    u.append(device_id);
    u.append("/commands");
    u
}

} // verus!
