//! Tests of discovery, pairing and light-enumeration decoding.

use light_rs_core::{HueBridge, HueError, JsonValue, Light};

fn obj(members: Vec<(&str, JsonValue)>) -> JsonValue {
    JsonValue::Obj(members.into_iter().map(|(k, v)| (k.to_string(), v)).collect())
}

fn s(text: &str) -> JsonValue {
    JsonValue::Str(text.to_string())
}

#[test]
fn discover_takes_first_entry() {
    let v = JsonValue::Arr(vec![obj(vec![("internalipaddress", s("10.0.0.5"))])]);
    let r = HueBridge::discover(&v);
    assert_eq!(r.unwrap(), "10.0.0.5");
}

#[test]
fn discover_empty_array_is_not_found() {
    let v = JsonValue::Arr(vec![]);
    let r = HueBridge::discover(&v);
    assert!(matches!(r, Err(HueError::InvalidData { .. })));
}

#[test]
fn discover_non_array_is_parse_error() {
    let v = obj(vec![]);
    let r = HueBridge::discover(&v);
    assert!(matches!(r, Err(HueError::Parsing)));
}

#[test]
fn discover_missing_field_is_not_found() {
    let v = JsonValue::Arr(vec![obj(vec![("name", s("bridge"))])]);
    assert!(matches!(HueBridge::discover(&v), Err(HueError::InvalidData { .. })));
    let v2 = JsonValue::Arr(vec![obj(vec![("internalipaddress", JsonValue::Num(7))])]);
    assert!(matches!(HueBridge::discover(&v2), Err(HueError::InvalidData { .. })));
}

#[test]
fn pair_success_returns_credential() {
    let v = JsonValue::Arr(vec![obj(vec![("success", obj(vec![("username", s("abc123"))]))])]);
    let b = HueBridge::pair("10.0.0.5".to_string(), &v).unwrap();
    assert_eq!(b.username, "abc123");
    assert_eq!(b.bridge_ip, "10.0.0.5");
}

#[test]
fn pair_error_101_is_link_button_not_pressed() {
    let v = JsonValue::Arr(vec![obj(vec![(
        "error",
        obj(vec![("type", JsonValue::Num(101 * 10_000_000))]),
    )])]);
    let r = HueBridge::pair("10.0.0.5".to_string(), &v);
    assert!(matches!(r, Err(HueError::LinkButtonNotPressed)));
}

#[test]
fn pair_other_error_code_is_invalid() {
    let v = JsonValue::Arr(vec![obj(vec![(
        "error",
        obj(vec![("type", JsonValue::Num(42 * 10_000_000))]),
    )])]);
    let r = HueBridge::pair("10.0.0.5".to_string(), &v);
    assert!(matches!(r, Err(HueError::InvalidData { .. })));
}

#[test]
fn pair_empty_or_shapeless_is_invalid() {
    let r = HueBridge::pair("10.0.0.5".to_string(), &JsonValue::Arr(vec![]));
    assert!(matches!(r, Err(HueError::InvalidData { .. })));
    let r2 = HueBridge::pair("10.0.0.5".to_string(), &JsonValue::Arr(vec![obj(vec![])]));
    assert!(matches!(r2, Err(HueError::InvalidData { .. })));
    let r3 = HueBridge::pair("10.0.0.5".to_string(), &JsonValue::Bool(true));
    assert!(matches!(r3, Err(HueError::Parsing)));
}

fn full_entry(id: &str, name: &str) -> JsonValue {
    obj(vec![
        ("id", s(id)),
        ("metadata", obj(vec![("name", s(name))])),
        ("on", obj(vec![("on", JsonValue::Bool(true))])),
        (
            "dimming",
            obj(vec![
                ("brightness", JsonValue::Num(500_000_000)),
                ("min_dim_level", JsonValue::Num(20_000_000)),
            ]),
        ),
        (
            "color",
            obj(vec![(
                "xy",
                obj(vec![
                    ("x", JsonValue::Num(3_000_000)),
                    ("y", JsonValue::Num(4_000_000)),
                ]),
            )]),
        ),
    ])
}

#[test]
fn decode_full_entry() {
    let l = Light::decode(&full_entry("light-1", "Desk")).unwrap();
    assert_eq!(l.id, "light-1");
    assert_eq!(l.name, "Desk");
    assert!(l.is_on);
    assert_eq!(l.brightness, 500_000_000);
    assert_eq!(l.min_brightness, 20_000_000);
    assert_eq!(l.color.x, 3_000_000);
    assert_eq!(l.color.y, 4_000_000);
    assert_eq!(l.color.bri, 500_000_000);
}

#[test]
fn list_lights_skips_malformed_entries() {
    // One well-formed entry, one missing metadata.name: exactly one light.
    let broken = obj(vec![
        ("id", s("light-2")),
        ("metadata", obj(vec![])),
        ("on", obj(vec![("on", JsonValue::Bool(false))])),
    ]);
    let v = obj(vec![("data", JsonValue::Arr(vec![full_entry("light-1", "Desk"), broken]))]);
    let lights = Light::list_lights(&v).unwrap();
    assert_eq!(lights.len(), 1);
    assert_eq!(lights[0].id, "light-1");
}

#[test]
fn list_lights_keeps_order() {
    let v = obj(vec![(
        "data",
        JsonValue::Arr(vec![full_entry("a", "A"), full_entry("b", "B")]),
    )]);
    let lights = Light::list_lights(&v).unwrap();
    assert_eq!(lights.len(), 2);
    assert_eq!(lights[0].id, "a");
    assert_eq!(lights[1].id, "b");
}

#[test]
fn list_lights_without_data_fails() {
    let r = Light::list_lights(&obj(vec![]));
    assert!(matches!(r, Err(HueError::InvalidData { .. })));
    let r2 = Light::list_lights(&obj(vec![("data", JsonValue::Null)]));
    assert!(matches!(r2, Err(HueError::InvalidData { .. })));
    let r3 = Light::list_lights(&JsonValue::Arr(vec![]));
    assert!(matches!(r3, Err(HueError::Parsing)));
}

#[test]
fn urls_and_auth_header() {
    let b = HueBridge::new("key123".to_string(), "10.0.0.5".to_string());
    assert_eq!(b.lights_url(), "https://10.0.0.5/clip/v2/resource/light");
    let (h, v) = b.auth_header();
    assert_eq!(h, "hue-application-key");
    assert_eq!(v, "key123");
    assert_eq!(
        light_rs_core::bridge::discovery_url(),
        "https://discovery.meethue.com/"
    );
    assert_eq!(
        light_rs_core::bridge::pair_url("10.0.0.5"),
        "https://10.0.0.5/api"
    );
}

#[test]
fn pair_request_has_fresh_identifier() {
    let body = light_rs_core::bridge::pair_request();
    assert!(body.starts_with("{\"devicetype\":\""));
    assert!(body.ends_with("\"}"));
    let id = &body[15..body.len() - 2];
    assert_eq!(id.len(), 36);
    assert!(id
        .chars()
        .all(|c| c == '-' || c.is_ascii_digit() || ('a'..='f').contains(&c)));
    // A second request carries a different identifier.
    let body2 = light_rs_core::bridge::pair_request();
    assert_ne!(body, body2);
}

#[test]
fn only_the_link_button_error_is_retryable() {
    assert!(HueError::LinkButtonNotPressed.is_retryable());
    assert!(!HueError::Request.is_retryable());
    assert!(!HueError::Parsing.is_retryable());
    assert!(!HueError::ClientCreate.is_retryable());
    assert!(!HueError::InvalidData { msg: "x".to_string() }.is_retryable());
}

#[test]
fn error_messages() {
    assert_eq!(
        HueError::LinkButtonNotPressed.message(),
        "link button has not been pressed"
    );
    let e = HueError::InvalidData { msg: "bad shape".to_string() };
    assert_eq!(e.message(), "bad shape");
}
