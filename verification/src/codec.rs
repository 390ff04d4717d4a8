//! The JSON boundary: from raw bytes to the library's wire tree.
//!
//! Parsing JSON text is the one step of the decode path done by an outside
//! crate. The parse is a pure function of the bytes, so its result is given a
//! name, `wire_of_json`; everything after the parse — recognising an event in
//! the tree — is the library's own verified logic.

use vstd::prelude::*;

use crate::events::Events;
use crate::wire::WireValue;
use crate::wire::decode_wire_event;
use crate::wire::spec_event_of_wire;

verus! {

#[verifier::external_type_specification]
#[verifier::external_body]
pub struct ExJsonValue(serde_json::Value);

/// The wire tree a byte string parses to, or nothing when the bytes are not
/// well-formed JSON. Parsing depends on the bytes alone.
pub uninterp spec fn wire_of_json(bytes: Seq<u8>) -> Option<WireValue>;

/// Relies on the shape of serde_json::Value: each variant is carried over to
/// the library's own wire tree one for one — object entries in the order the
/// parsed map yields them, numbers by their textual form.
#[verifier::external_body]
fn json_to_wire(v: &serde_json::Value) -> WireValue {
    match v {
        serde_json::Value::Null => WireValue::Null,
        serde_json::Value::Bool(b) => WireValue::Bool(*b),
        serde_json::Value::Number(n) => WireValue::Num(n.to_string()),
        serde_json::Value::String(s) => WireValue::Str(s.clone()),
        serde_json::Value::Array(a) => WireValue::Arr(a.iter().map(json_to_wire).collect()),
        serde_json::Value::Object(m) => WireValue::Obj(
            m.iter().map(|(k, val)| (k.clone(), json_to_wire(val))).collect(),
        ),
    }
}

/// Relies on serde_json::from_slice: the same bytes always parse to the same
/// tree, and bytes that are not well-formed JSON parse to nothing.
#[verifier::external_body]
fn parse_json(bytes: &[u8]) -> (r: Option<WireValue>)
    ensures
        r == wire_of_json(bytes@),
{
    match serde_json::from_slice::<serde_json::Value>(bytes) {
        Result::Ok(v) => Option::Some(json_to_wire(&v)),
        Result::Err(_) => Option::None,
    }
}

/// The event a byte string decodes to: the parsed tree, if any, decoded by the
/// event grammar.
pub open spec fn spec_event_of_json(bytes: Seq<u8>) -> Option<Events> {
    match wire_of_json(bytes) {
        Option::Some(w) => spec_event_of_wire(w),
        Option::None => Option::None,
    }
}

/// Decode one JSON-encoded payload into a typed event. A malformed payload —
/// bytes that do not parse, or a tree that is no event — decodes to nothing.
pub fn decode_event(bytes: &[u8]) -> (r: Option<Events>)
    ensures
        r == spec_event_of_json(bytes@),
{
    match parse_json(bytes) {
        Option::Some(w) => decode_wire_event(&w),
        Option::None => Option::None,
    }
}

} // verus!
