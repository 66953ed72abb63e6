use switchbot::signing::compute_sign;

#[test]
fn deterministic() {
    let a = compute_sign("token", "secret", 1234567890, "nonce");
    let b = compute_sign("token", "secret", 1234567890, "nonce");
    assert_eq!(a, b);
}

#[test]
fn different_input_different_output() {
    let a = compute_sign("token1", "secret", 1234567890, "nonce");
    let b = compute_sign("token2", "secret", 1234567890, "nonce");
    assert_ne!(a, b);
}

#[test]
fn output_has_no_lowercase() {
    let s = compute_sign("token", "secret", 1234567890, "nonce");
    assert!(
        s.chars().all(|c| !c.is_ascii_lowercase()),
        "expected no lowercase letters, got: {}",
        s
    );
}

#[test]
fn output_length_44() {
    // base64 of 32 bytes (HMAC-SHA256 output) = 44 chars including padding
    let s = compute_sign("token", "secret", 1234567890, "nonce");
    assert_eq!(s.len(), 44);
}

#[test]
fn matches_reference_python_vector() {
    let expected = "T0/YPYSTPMPKAS1VEE+VCYNNOSK+2V2ECQX6OTHADPU=";
    let actual = compute_sign("test_token", "test_secret", 1635146797241, "test-nonce");
    assert_eq!(actual, expected);
}
