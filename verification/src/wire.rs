//! The wire shape of an event, and its decoder.
//!
//! A transport hands the pipeline a loosely-typed tree — the parsed form of
//! one JSON value. An event is an object with exactly one key, the tag of the
//! variant, whose value carries the variant's fields: required fields must be
//! present exactly once with the right type; optional fields may be absent or
//! null, which both mean "not given"; unknown fields are ignored; a duplicated
//! known field is rejected. Anything else fails to decode, and a decode
//! failure never aborts the surrounding batch or stream.

use vstd::prelude::*;

use crate::events::Events;
use crate::events::EvtMachineEmit;
use crate::events::EvtOsEmit;

verus! {

/// A loosely-typed wire value: one parsed JSON value held as plain data.
/// Numbers keep only their textual form; no event field is numeric.
#[derive(Debug)]
pub enum WireValue {
    Null,
    Bool(bool),
    Num(String),
    Str(String),
    Arr(Vec<WireValue>),
    Obj(Vec<(String, WireValue)>),
}

/// How many entries of an object carry the given key.
pub open spec fn count_key(es: Seq<(String, WireValue)>, key: Seq<char>) -> nat
    decreases es.len(),
{
    if es.len() == 0 {
        0
    } else {
        (if es[0].0@ == key {
            1nat
        } else {
            0nat
        }) + count_key(es.drop_first(), key)
    }
}

/// The first entry with the given key, if any.
pub open spec fn find_key(es: Seq<(String, WireValue)>, key: Seq<char>) -> Option<WireValue>
    decreases es.len(),
{
    if es.len() == 0 {
        Option::None
    } else if es[0].0@ == key {
        Option::Some(es[0].1)
    } else {
        find_key(es.drop_first(), key)
    }
}

/// A required string field: present exactly once, and a string.
pub open spec fn spec_req_string(es: Seq<(String, WireValue)>, key: Seq<char>) -> Option<String> {
    if count_key(es, key) == 1 {
        match find_key(es, key) {
            Option::Some(WireValue::Str(s)) => Option::Some(s),
            _ => Option::None,
        }
    } else {
        Option::None
    }
}

/// An optional string field: absent or null means "not given"; present once as
/// a string means that string; anything else is rejected.
pub open spec fn spec_opt_string(es: Seq<(String, WireValue)>, key: Seq<char>) -> Option<
    Option<String>,
> {
    if count_key(es, key) == 0 {
        Option::Some(Option::None)
    } else if count_key(es, key) == 1 {
        match find_key(es, key) {
            Option::Some(WireValue::Str(s)) => Option::Some(Option::Some(s)),
            Option::Some(WireValue::Null) => Option::Some(Option::None),
            _ => Option::None,
        }
    } else {
        Option::None
    }
}

/// An optional boolean field, with the same absent/null/typed rules.
pub open spec fn spec_opt_bool(es: Seq<(String, WireValue)>, key: Seq<char>) -> Option<
    Option<bool>,
> {
    if count_key(es, key) == 0 {
        Option::Some(Option::None)
    } else if count_key(es, key) == 1 {
        match find_key(es, key) {
            Option::Some(WireValue::Bool(b)) => Option::Some(Option::Some(b)),
            Option::Some(WireValue::Null) => Option::Some(Option::None),
            _ => Option::None,
        }
    } else {
        Option::None
    }
}

/// The network/geo emission an object's entries decode to, if any.
pub open spec fn spec_machine_emit_of(es: Seq<(String, WireValue)>) -> Option<Events> {
    match spec_req_string(es, "ip"@) {
        Option::Some(ip) => match spec_opt_string(es, "country"@) {
            Option::Some(country) => Option::Some(
                Events::EvtMachineEmit(EvtMachineEmit { ip, country }),
            ),
            Option::None => Option::None,
        },
        Option::None => Option::None,
    }
}

/// The operating-system emission an object's entries decode to, if any.
pub open spec fn spec_os_emit_of(es: Seq<(String, WireValue)>) -> Option<Events> {
    match spec_req_string(es, "family"@) {
        Option::Some(family) => match spec_opt_string(es, "name"@) {
            Option::Some(name) => match spec_opt_string(es, "version"@) {
                Option::Some(version) => match spec_opt_string(es, "arch"@) {
                    Option::Some(arch) => match spec_opt_string(es, "build"@) {
                        Option::Some(build) => match spec_opt_bool(es, "virtualization"@) {
                            Option::Some(virtualization) => Option::Some(
                                Events::EvtOsEmit(
                                    EvtOsEmit {
                                        family,
                                        name,
                                        version,
                                        arch,
                                        build,
                                        virtualization,
                                    },
                                ),
                            ),
                            Option::None => Option::None,
                        },
                        Option::None => Option::None,
                    },
                    Option::None => Option::None,
                },
                Option::None => Option::None,
            },
            Option::None => Option::None,
        },
        Option::None => Option::None,
    }
}

/// The event a wire value decodes to, if any: an object with exactly one key,
/// the variant tag, whose value is an object holding that variant's fields.
pub open spec fn spec_event_of_wire(v: WireValue) -> Option<Events> {
    match v {
        WireValue::Obj(entries) => {
            if entries@.len() == 1 {
                if entries@[0].0@ == "EvtMachineEmit"@ {
                    match entries@[0].1 {
                        WireValue::Obj(inner) => spec_machine_emit_of(inner@),
                        _ => Option::None,
                    }
                } else if entries@[0].0@ == "EvtOsEmit"@ {
                    match entries@[0].1 {
                        WireValue::Obj(inner) => spec_os_emit_of(inner@),
                        _ => Option::None,
                    }
                } else {
                    Option::None
                }
            } else {
                Option::None
            }
        },
        _ => Option::None,
    }
}

/// String equality against a fixed key.
fn key_eq(a: &String, b: &str) -> (r: bool)
    ensures
        r == (a@ == b@),
{
    let bo: String = b.to_owned();
    *a == bo
}

proof fn lemma_entries_skip_step(es: Seq<(String, WireValue)>, i: int)
    requires
        0 <= i < es.len(),
    ensures
        es.skip(i)[0] == es[i],
        es.skip(i).drop_first() =~= es.skip(i + 1),
        es.skip(i).len() == es.len() - i,
{
    assert(es.skip(i).drop_first() =~= es.skip(i + 1));
}

/// Count the entries carrying a key.
fn count_key_exec(entries: &Vec<(String, WireValue)>, key: &str) -> (n: usize)
    ensures
        n == count_key(entries@, key@),
{
    let len = entries.len();
    let mut cnt: usize = 0;
    let mut i: usize = 0;
    proof {
        assert(entries@.skip(0) =~= entries@);
    }
    while i < len
        invariant
            len == entries@.len(),
            0 <= i <= len,
            cnt <= i,
            count_key(entries@, key@) == cnt + count_key(entries@.skip(i as int), key@),
        decreases len - i,
    {
        proof {
            lemma_entries_skip_step(entries@, i as int);
        }
        if key_eq(&entries[i].0, key) {
            cnt = cnt + 1;
        }
        i = i + 1;
    }
    proof {
        assert(entries@.skip(len as int) =~= Seq::<(String, WireValue)>::empty());
    }
    cnt
}

/// The first entry carrying a key, if any.
fn find_key_exec<'a>(entries: &'a Vec<(String, WireValue)>, key: &str) -> (r: Option<
    &'a WireValue,
>)
    ensures
        match r {
            Option::Some(v) => find_key(entries@, key@) == Option::Some(*v),
            Option::None => find_key(entries@, key@) is None,
        },
{
    let len = entries.len();
    let mut i: usize = 0;
    proof {
        assert(entries@.skip(0) =~= entries@);
    }
    while i < len
        invariant
            len == entries@.len(),
            0 <= i <= len,
            find_key(entries@, key@) == find_key(entries@.skip(i as int), key@),
        decreases len - i,
    {
        proof {
            lemma_entries_skip_step(entries@, i as int);
        }
        if key_eq(&entries[i].0, key) {
            return Option::Some(&entries[i].1);
        }
        i = i + 1;
    }
    proof {
        assert(entries@.skip(len as int) =~= Seq::<(String, WireValue)>::empty());
    }
    Option::None
}

/// A required string field of an object.
fn get_req_string(entries: &Vec<(String, WireValue)>, key: &str) -> (r: Option<String>)
    ensures
        r == spec_req_string(entries@, key@),
{
    if count_key_exec(entries, key) != 1 {
        return Option::None;
    }
    match find_key_exec(entries, key) {
        Option::Some(WireValue::Str(s)) => Option::Some(s.clone()),
        _ => Option::None,
    }
}

/// An optional string field of an object.
fn get_opt_string(entries: &Vec<(String, WireValue)>, key: &str) -> (r: Option<Option<String>>)
    ensures
        r == spec_opt_string(entries@, key@),
{
    let cnt = count_key_exec(entries, key);
    if cnt == 0 {
        return Option::Some(Option::None);
    }
    if cnt != 1 {
        return Option::None;
    }
    match find_key_exec(entries, key) {
        Option::Some(WireValue::Str(s)) => Option::Some(Option::Some(s.clone())),
        Option::Some(WireValue::Null) => Option::Some(Option::None),
        _ => Option::None,
    }
}

/// An optional boolean field of an object.
fn get_opt_bool(entries: &Vec<(String, WireValue)>, key: &str) -> (r: Option<Option<bool>>)
    ensures
        r == spec_opt_bool(entries@, key@),
{
    let cnt = count_key_exec(entries, key);
    if cnt == 0 {
        return Option::Some(Option::None);
    }
    if cnt != 1 {
        return Option::None;
    }
    match find_key_exec(entries, key) {
        Option::Some(WireValue::Bool(b)) => Option::Some(Option::Some(*b)),
        Option::Some(WireValue::Null) => Option::Some(Option::None),
        _ => Option::None,
    }
}

/// Decode a network/geo emission from an object's entries.
fn machine_emit_of_entries(entries: &Vec<(String, WireValue)>) -> (r: Option<Events>)
    ensures
        r == spec_machine_emit_of(entries@),
{
    match get_req_string(entries, "ip") {
        Option::Some(ip) => match get_opt_string(entries, "country") {
            Option::Some(country) => Option::Some(
                Events::EvtMachineEmit(EvtMachineEmit { ip, country }),
            ),
            Option::None => Option::None,
        },
        Option::None => Option::None,
    }
}

/// Decode an operating-system emission from an object's entries.
fn os_emit_of_entries(entries: &Vec<(String, WireValue)>) -> (r: Option<Events>)
    ensures
        r == spec_os_emit_of(entries@),
{
    let family = match get_req_string(entries, "family") {
        Option::Some(v) => v,
        Option::None => {
            return Option::None;
        },
    };
    let name = match get_opt_string(entries, "name") {
        Option::Some(v) => v,
        Option::None => {
            return Option::None;
        },
    };
    let version = match get_opt_string(entries, "version") {
        Option::Some(v) => v,
        Option::None => {
            return Option::None;
        },
    };
    let arch = match get_opt_string(entries, "arch") {
        Option::Some(v) => v,
        Option::None => {
            return Option::None;
        },
    };
    let build = match get_opt_string(entries, "build") {
        Option::Some(v) => v,
        Option::None => {
            return Option::None;
        },
    };
    let virtualization = match get_opt_bool(entries, "virtualization") {
        Option::Some(v) => v,
        Option::None => {
            return Option::None;
        },
    };
    Option::Some(Events::EvtOsEmit(EvtOsEmit { family, name, version, arch, build, virtualization }))
}

/// Decode one wire value into a typed event, or nothing if it is malformed.
pub fn decode_wire_event(v: &WireValue) -> (r: Option<Events>)
    ensures
        r == spec_event_of_wire(*v),
{
    match v {
        WireValue::Obj(entries) => {
            if entries.len() != 1 {
                return Option::None;
            }
            if key_eq(&entries[0].0, "EvtMachineEmit") {
                match &entries[0].1 {
                    WireValue::Obj(inner) => machine_emit_of_entries(inner),
                    _ => Option::None,
                }
            } else if key_eq(&entries[0].0, "EvtOsEmit") {
                match &entries[0].1 {
                    WireValue::Obj(inner) => os_emit_of_entries(inner),
                    _ => Option::None,
                }
            } else {
                Option::None
            }
        },
        _ => Option::None,
    }
}

} // verus!
