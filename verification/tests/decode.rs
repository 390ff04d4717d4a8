//! The wire decoder: JSON bytes and wire trees to typed events.

use dashboard::decode_event;
use dashboard::decode_wire_event;
use dashboard::Events;
use dashboard::WireValue;

fn machine_emit(bytes: &[u8]) -> dashboard::EvtMachineEmit {
    match decode_event(bytes) {
        Some(Events::EvtMachineEmit(m)) => m,
        other => panic!("expected a machine emit, got {:?}", other),
    }
}

fn os_emit(bytes: &[u8]) -> dashboard::EvtOsEmit {
    match decode_event(bytes) {
        Some(Events::EvtOsEmit(o)) => o,
        other => panic!("expected an os emit, got {:?}", other),
    }
}

#[test]
fn decode_machine_emit_with_country() {
    let m = machine_emit(br#"{"EvtMachineEmit":{"ip":"1.2.3.4","country":"US"}}"#);
    assert_eq!(m.ip, "1.2.3.4");
    assert_eq!(m.country.as_deref(), Some("US"));
}

#[test]
fn decode_machine_emit_country_null_means_absent() {
    let m = machine_emit(br#"{"EvtMachineEmit":{"ip":"1.2.3.4","country":null}}"#);
    assert_eq!(m.ip, "1.2.3.4");
    assert_eq!(m.country, None);
}

#[test]
fn decode_machine_emit_country_missing_means_absent() {
    let m = machine_emit(br#"{"EvtMachineEmit":{"ip":"1.2.3.4"}}"#);
    assert_eq!(m.ip, "1.2.3.4");
    assert_eq!(m.country, None);
}

#[test]
fn decode_field_order_does_not_matter() {
    let m = machine_emit(br#"{"EvtMachineEmit":{"country":"DE","ip":"10.0.0.1"}}"#);
    assert_eq!(m.ip, "10.0.0.1");
    assert_eq!(m.country.as_deref(), Some("DE"));
}

#[test]
fn decode_unknown_field_is_ignored() {
    let m = machine_emit(br#"{"EvtMachineEmit":{"ip":"1.2.3.4","comment":"hi"}}"#);
    assert_eq!(m.ip, "1.2.3.4");
    assert_eq!(m.country, None);
}

#[test]
fn decode_missing_required_field_rejected() {
    assert!(decode_event(br#"{"EvtMachineEmit":{"country":"US"}}"#).is_none());
}

#[test]
fn decode_wrong_field_type_rejected() {
    assert!(decode_event(br#"{"EvtMachineEmit":{"ip":5}}"#).is_none());
    assert!(decode_event(br#"{"EvtMachineEmit":{"ip":"1.2.3.4","country":7}}"#).is_none());
    assert!(decode_event(br#"{"EvtOsEmit":{"family":"linux","virtualization":"yes"}}"#).is_none());
}

#[test]
fn decode_os_emit_all_fields() {
    let o = os_emit(
        br#"{"EvtOsEmit":{"family":"linux","name":"debian","version":"12","arch":"x86_64","build":"6.1","virtualization":true}}"#,
    );
    assert_eq!(o.family, "linux");
    assert_eq!(o.name.as_deref(), Some("debian"));
    assert_eq!(o.version.as_deref(), Some("12"));
    assert_eq!(o.arch.as_deref(), Some("x86_64"));
    assert_eq!(o.build.as_deref(), Some("6.1"));
    assert_eq!(o.virtualization, Some(true));
}

#[test]
fn decode_os_emit_family_only() {
    let o = os_emit(br#"{"EvtOsEmit":{"family":"windows"}}"#);
    assert_eq!(o.family, "windows");
    assert_eq!(o.name, None);
    assert_eq!(o.version, None);
    assert_eq!(o.arch, None);
    assert_eq!(o.build, None);
    assert_eq!(o.virtualization, None);
}

#[test]
fn decode_os_emit_missing_family_rejected() {
    assert!(decode_event(br#"{"EvtOsEmit":{"name":"debian"}}"#).is_none());
}

#[test]
fn decode_garbage_rejected() {
    assert!(decode_event(b"garbage").is_none());
    assert!(decode_event(b"").is_none());
    assert!(decode_event(br#""garbage""#).is_none());
    assert!(decode_event(b"5").is_none());
    assert!(decode_event(b"[1,2]").is_none());
    assert!(decode_event(b"null").is_none());
    assert!(decode_event(b"{}").is_none());
}

#[test]
fn decode_unknown_tag_rejected() {
    assert!(decode_event(br#"{"EvtDiskEmit":{"ip":"1.2.3.4"}}"#).is_none());
}

#[test]
fn decode_two_tags_rejected() {
    assert!(decode_event(
        br#"{"EvtMachineEmit":{"ip":"1.2.3.4"},"EvtOsEmit":{"family":"linux"}}"#
    )
    .is_none());
}

#[test]
fn decode_tag_payload_must_be_object() {
    assert!(decode_event(br#"{"EvtMachineEmit":"1.2.3.4"}"#).is_none());
    assert!(decode_event(br#"{"EvtMachineEmit":null}"#).is_none());
}

#[test]
fn decode_wire_tree_directly() {
    let v = WireValue::Obj(vec![(
        "EvtMachineEmit".to_owned(),
        WireValue::Obj(vec![("ip".to_owned(), WireValue::Str("8.8.8.8".to_owned()))]),
    )]);
    match decode_wire_event(&v) {
        Some(Events::EvtMachineEmit(m)) => {
            assert_eq!(m.ip, "8.8.8.8");
            assert_eq!(m.country, None);
        }
        other => panic!("expected a machine emit, got {:?}", other),
    }
}

#[test]
fn decode_wire_duplicate_known_field_rejected() {
    let v = WireValue::Obj(vec![(
        "EvtMachineEmit".to_owned(),
        WireValue::Obj(vec![
            ("ip".to_owned(), WireValue::Str("1.1.1.1".to_owned())),
            ("ip".to_owned(), WireValue::Str("2.2.2.2".to_owned())),
        ]),
    )]);
    assert!(decode_wire_event(&v).is_none());
}

#[test]
fn decode_matches_serde_encoding() {
    let mut inner = serde_json::Map::new();
    inner.insert("ip".to_owned(), serde_json::Value::String("3.3.3.3".to_owned()));
    inner.insert("country".to_owned(), serde_json::Value::Null);
    let mut outer = serde_json::Map::new();
    outer.insert("EvtMachineEmit".to_owned(), serde_json::Value::Object(inner));
    let bytes = serde_json::to_vec(&serde_json::Value::Object(outer)).unwrap();
    let m = machine_emit(&bytes);
    assert_eq!(m.ip, "3.3.3.3");
    assert_eq!(m.country, None);
}

#[test]
fn decode_tolerates_whitespace() {
    let m = machine_emit(b"  {  \"EvtMachineEmit\" : { \"ip\" : \"1.2.3.4\" } }  ");
    assert_eq!(m.ip, "1.2.3.4");
}
