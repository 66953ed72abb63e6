use switchbot::api::{
    build_headers, check_status, parse_color_str, ApiResponse, DeviceList,
};

#[test]
fn parse_color_str_basic() {
    assert_eq!(parse_color_str("255:128:0").unwrap(), (255, 128, 0));
    assert_eq!(parse_color_str("0:0:0").unwrap(), (0, 0, 0));
}

#[test]
fn parse_color_str_invalid_count() {
    assert!(parse_color_str("255:128").is_err());
    assert!(parse_color_str("255:128:0:1").is_err());
}

#[test]
fn parse_color_str_invalid_number() {
    assert!(parse_color_str("256:0:0").is_err());
    assert!(parse_color_str("foo:bar:baz").is_err());
}

fn header<'a>(headers: &'a [(String, String)], name: &str) -> Option<&'a str> {
    headers
        .iter()
        .find(|(k, _)| k.eq_ignore_ascii_case(name))
        .map(|(_, v)| v.as_str())
}

#[test]
fn build_headers_contains_all_required() {
    let headers = build_headers("tok", 1234567890, "noncex", "ABCD1234").unwrap();
    assert_eq!(header(&headers, "Authorization").unwrap(), "tok");
    assert_eq!(header(&headers, "sign").unwrap(), "ABCD1234");
    assert_eq!(header(&headers, "t").unwrap(), "1234567890");
    assert_eq!(header(&headers, "nonce").unwrap(), "noncex");
    assert_eq!(header(&headers, "content-type").unwrap(), "application/json");
}

#[test]
fn check_status_100_ok() {
    let resp: ApiResponse<DeviceList> = ApiResponse {
        status_code: 100,
        message: "success".to_string(),
        body: Some(DeviceList { device_list: vec![] }),
    };
    assert!(check_status(&resp).is_ok());
}

#[test]
fn check_status_non_100_errors() {
    let resp: ApiResponse<DeviceList> = ApiResponse {
        status_code: 161,
        message: "device offline".to_string(),
        body: None,
    };
    let err = check_status(&resp).unwrap_err();
    assert!(err.message().contains("device offline"));
    assert!(err.message().contains("161"));
}
