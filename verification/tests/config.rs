use switchbot::config::{
    has_op_reference, parse_env_content, EnvMap, DEVICES_TEMPLATE, ENV_TEMPLATE,
};

#[test]
fn parse_env_basic() {
    let content = "FOO=bar\nBAZ=qux\n";
    let map = parse_env_content(content).unwrap();
    assert_eq!(map.get("FOO"), Some(&"bar".to_string()));
    assert_eq!(map.get("BAZ"), Some(&"qux".to_string()));
}

#[test]
fn parse_env_skips_comments_and_blank() {
    let content = "\n# comment\nFOO=bar\n\n# another\nBAZ=qux\n";
    let map = parse_env_content(content).unwrap();
    assert_eq!(map.len(), 2);
    assert_eq!(map.get("FOO"), Some(&"bar".to_string()));
}

#[test]
fn parse_env_trims_whitespace() {
    let content = "  FOO  =  bar  \n";
    let map = parse_env_content(content).unwrap();
    assert_eq!(map.get("FOO"), Some(&"bar".to_string()));
}

#[test]
fn parse_env_keeps_op_reference_literally() {
    let content = "TOKEN=op://Personal/Item/credential\n";
    let map = parse_env_content(content).unwrap();
    assert_eq!(map.get("TOKEN"), Some(&"op://Personal/Item/credential".to_string()));
}

#[test]
fn parse_env_rejects_malformed_line() {
    let result = parse_env_content("SWITCHBOT_TOKEN tok\n");
    assert!(result.is_err());
    let msg = result.unwrap_err().message();
    assert!(msg.contains("line 1"), "msg={}", msg);
    assert!(msg.contains("no '=' separator"), "msg={}", msg);
}

#[test]
fn parse_env_keeps_silent_for_valid_input() {
    let result = parse_env_content("FOO=bar\n# comment\n\nBAZ=qux\n");
    assert!(result.is_ok());
    assert_eq!(result.unwrap().len(), 2);
}

#[test]
fn has_op_reference_detects_op_prefix() {
    let mut map = EnvMap::new();
    map.insert("A".to_string(), "plain".to_string());
    assert!(!has_op_reference(&map));
    map.insert("B".to_string(), "op://x/y/z".to_string());
    assert!(has_op_reference(&map));
}

#[test]
fn has_op_reference_empty_map_false() {
    let map = EnvMap::new();
    assert!(!has_op_reference(&map));
}

#[test]
fn env_template_contains_required_keys() {
    assert!(ENV_TEMPLATE.contains("SWITCHBOT_TOKEN="));
    assert!(ENV_TEMPLATE.contains("SWITCHBOT_SECRET="));
    assert!(ENV_TEMPLATE.contains("op://"));
}

#[test]
fn devices_template_contains_default_section() {
    assert!(DEVICES_TEMPLATE.contains("[default]"));
    assert!(DEVICES_TEMPLATE.contains("id = \"\""));
}

#[test]
fn parse_env_last_value_wins() {
    let m = parse_env_content("A=1\nB=2\nA=3\n").unwrap();
    assert_eq!(m.get("A").map(|s| s.as_str()), Some("3"));
    assert_eq!(m.get("B").map(|s| s.as_str()), Some("2"));
    assert_eq!(m.len(), 2);
}

#[test]
fn env_template_needs_op_inject() {
    match switchbot::config::plan_credentials(ENV_TEMPLATE) {
        Ok(switchbot::config::CredentialPlan::ResolveWithOp) => {}
        other => panic!("unexpected plan {:?}", other),
    }
}
