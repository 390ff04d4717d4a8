//! The ingestion pipeline: resolver, applier, mailbox, session, transports.

use dashboard::apply_event;
use dashboard::captcha_dimensions;
use dashboard::CaptchaGenerateReq;
use dashboard::EnqueueOutcome;
use dashboard::Events;
use dashboard::EvtMachineEmit;
use dashboard::EvtOsEmit;
use dashboard::Frame;
use dashboard::Host;
use dashboard::HostStore;
use dashboard::InitGate;
use dashboard::Mailbox;
use dashboard::Session;
use dashboard::StoreError;
use dashboard::StreamAction;
use dashboard::WireValue;
use dashboard::stream_decision;

fn machine(ip: &str, country: Option<&str>) -> Events {
    Events::EvtMachineEmit(EvtMachineEmit {
        ip: ip.to_owned(),
        country: country.map(|c| c.to_owned()),
    })
}

fn os(family: &str) -> Events {
    Events::EvtOsEmit(EvtOsEmit {
        family: family.to_owned(),
        name: None,
        version: None,
        arch: None,
        build: None,
        virtualization: None,
    })
}

fn machine_wire(ip: &str) -> WireValue {
    WireValue::Obj(vec![(
        "EvtMachineEmit".to_owned(),
        WireValue::Obj(vec![("ip".to_owned(), WireValue::Str(ip.to_owned()))]),
    )])
}

fn machine_json(ip: &str) -> Vec<u8> {
    format!(r#"{{"EvtMachineEmit":{{"ip":"{}"}}}}"#, ip).into_bytes()
}

#[test]
fn fresh_host_has_defaults() {
    let h = Host::fresh(42, "m-1".to_owned());
    assert_eq!(h.id, 42);
    assert_eq!(h.machine_id, "m-1");
    assert_eq!(h.machine_ip, "");
    assert_eq!(h.machine_country, "");
    assert_eq!(h.machine_geo, "");
    assert_eq!(h.os_family, "");
    assert!(!h.os_virtualization);
    assert_eq!(h.hashed_cpu, 0);
    assert_eq!(h.hashed_network, 0);
}

#[test]
fn resolve_is_idempotent() {
    let mut store = HostStore::new();
    let mid = "machine-a".to_owned();
    let h1 = store.resolve(&mid).unwrap();
    let h2 = store.resolve(&mid).unwrap();
    assert_eq!(h1.id, h2.id);
    assert_eq!(store.len(), 1);
    assert_eq!(h1.machine_id, "machine-a");
    assert_eq!(h1.machine_ip, "");
}

#[test]
fn resolve_distinct_ids_make_distinct_hosts() {
    let mut store = HostStore::new();
    let ha = store.resolve(&"a".to_owned()).unwrap();
    let hb = store.resolve(&"b".to_owned()).unwrap();
    assert_ne!(ha.id, hb.id);
    assert_eq!(store.len(), 2);
}

#[test]
fn sparse_patch_keeps_absent_fields() {
    let base = Host::fresh(1, "m".to_owned());
    let with_country = apply_event(&base, &machine("9.9.9.9", Some("US")));
    assert_eq!(with_country.machine_country, "US");

    let patched = apply_event(&with_country, &machine("1.2.3.4", None));
    assert_eq!(patched.machine_ip, "1.2.3.4");
    assert_eq!(patched.machine_country, "US");
}

#[test]
fn sparse_patch_os_fields_independent() {
    let base = Host::fresh(1, "m".to_owned());
    let full = apply_event(
        &base,
        &Events::EvtOsEmit(EvtOsEmit {
            family: "linux".to_owned(),
            name: Some("debian".to_owned()),
            version: Some("12".to_owned()),
            arch: None,
            build: None,
            virtualization: Some(true),
        }),
    );
    assert_eq!(full.os_family, "linux");
    assert_eq!(full.os_name, "debian");
    assert_eq!(full.os_version, "12");
    assert_eq!(full.os_arch, "");
    assert!(full.os_virtualization);

    let patched = apply_event(
        &full,
        &Events::EvtOsEmit(EvtOsEmit {
            family: "linux".to_owned(),
            name: None,
            version: Some("13".to_owned()),
            arch: None,
            build: None,
            virtualization: None,
        }),
    );
    assert_eq!(patched.os_name, "debian");
    assert_eq!(patched.os_version, "13");
    assert!(patched.os_virtualization);
}

#[test]
fn patches_mark_only_the_event_fields() {
    let e = EvtMachineEmit { ip: "1.2.3.4".to_owned(), country: None };
    let p = dashboard::machine_emit_patch(9, &e);
    assert_eq!(p.id, 9);
    assert_eq!(p.machine_ip.as_deref(), Some("1.2.3.4"));
    assert_eq!(p.machine_country, None);
    assert_eq!(p.os_family, None);

    let o = EvtOsEmit {
        family: "linux".to_owned(),
        name: None,
        version: None,
        arch: None,
        build: None,
        virtualization: Some(false),
    };
    let po = dashboard::os_emit_patch(9, &o);
    assert_eq!(po.machine_ip, None);
    assert_eq!(po.os_family.as_deref(), Some("linux"));
    assert_eq!(po.os_name, None);
    assert_eq!(po.os_virtualization, Some(false));

    let pe = dashboard::patch_of_event(9, &machine("1.2.3.4", None));
    assert_eq!(pe.machine_ip.as_deref(), Some("1.2.3.4"));

    let base = Host::fresh(9, "m".to_owned());
    let patched = dashboard::apply_patch(&base, &p);
    assert_eq!(patched.machine_ip, "1.2.3.4");
    assert_eq!(patched.machine_country, "");
}

#[test]
fn session_exposes_current_host_and_queue() {
    let mid = "machine-a".to_owned();
    let mut session = Session::open(HostStore::new(), &mid).ok().unwrap();
    assert_eq!(session.queued(), 0);
    assert_eq!(session.current_host().machine_id, "machine-a");
    session.submit(machine("1.2.3.4", None));
    assert_eq!(session.queued(), 1);
    // queued, not yet applied
    assert_eq!(session.current_host().machine_ip, "");
    session.drain_all();
    assert_eq!(session.queued(), 0);
    assert_eq!(session.current_host().machine_ip, "1.2.3.4");
}

#[test]
fn store_well_formedness_is_decidable() {
    let mut store = HostStore::new();
    assert!(store.is_well_formed());
    store.resolve(&"a".to_owned()).unwrap();
    store.resolve(&"b".to_owned()).unwrap();
    assert!(store.is_well_formed());
    assert!(store.get_by_id(999).is_none());
}

#[test]
fn events_never_touch_identity_or_fingerprints() {
    let base = Host::fresh(5, "m".to_owned());
    let after = apply_event(&base, &machine("1.2.3.4", Some("US")));
    assert_eq!(after.id, 5);
    assert_eq!(after.machine_id, "m");
    assert_eq!(after.machine_geo, "");
    assert_eq!(after.hashed_cpu, 0);
    let after2 = apply_event(&after, &os("linux"));
    assert_eq!(after2.machine_ip, "1.2.3.4");
    assert_eq!(after2.machine_country, "US");
}

#[test]
fn mailbox_is_fifo() {
    let mut mb = Mailbox::new(4);
    assert!(matches!(mb.try_enqueue(machine("1.1.1.1", None)), EnqueueOutcome::Accepted));
    assert!(matches!(mb.try_enqueue(machine("2.2.2.2", None)), EnqueueOutcome::Accepted));
    assert!(matches!(mb.try_enqueue(os("linux")), EnqueueOutcome::Accepted));
    match mb.dequeue() {
        Some(Events::EvtMachineEmit(m)) => assert_eq!(m.ip, "1.1.1.1"),
        other => panic!("wrong first event: {:?}", other),
    }
    match mb.dequeue() {
        Some(Events::EvtMachineEmit(m)) => assert_eq!(m.ip, "2.2.2.2"),
        other => panic!("wrong second event: {:?}", other),
    }
    assert!(matches!(mb.dequeue(), Some(Events::EvtOsEmit(_))));
    assert!(mb.dequeue().is_none());
}

#[test]
fn mailbox_backpressure_holds_the_event() {
    let mut mb = Mailbox::new(2);
    assert!(matches!(mb.try_enqueue(machine("1.1.1.1", None)), EnqueueOutcome::Accepted));
    assert!(matches!(mb.try_enqueue(machine("2.2.2.2", None)), EnqueueOutcome::Accepted));
    // full: the third event is handed back, not dropped and not an error
    let third = match mb.try_enqueue(machine("3.3.3.3", None)) {
        EnqueueOutcome::Full(e) => e,
        other => panic!("expected backpressure, got {:?}", other),
    };
    assert_eq!(mb.len(), 2);
    // one slot drained: the same enqueue now succeeds
    assert!(mb.dequeue().is_some());
    assert!(matches!(mb.try_enqueue(third), EnqueueOutcome::Accepted));
    assert_eq!(mb.len(), 2);
}

#[test]
fn mailbox_closed_refuses_events() {
    let mut mb = Mailbox::new(2);
    mb.close();
    assert!(mb.is_closed());
    match mb.try_enqueue(machine("1.1.1.1", None)) {
        EnqueueOutcome::Closed(e) => match e {
            Events::EvtMachineEmit(m) => assert_eq!(m.ip, "1.1.1.1"),
            other => panic!("event not handed back: {:?}", other),
        },
        other => panic!("expected a closed mailbox, got {:?}", other),
    }
    assert_eq!(mb.len(), 0);
}

#[test]
fn session_applies_events_in_order() {
    let mid = "machine-a".to_owned();
    let mut session = Session::open(HostStore::new(), &mid).ok().unwrap();
    session.submit(machine("1.1.1.1", Some("AA")));
    session.submit(machine("2.2.2.2", Some("BB")));
    session.submit(machine("3.3.3.3", None));
    let store = session.finish();
    let h = store.find_by_machine_id(&mid).unwrap();
    // final state equals sequential application: the last IP, the last country given
    assert_eq!(h.machine_ip, "3.3.3.3");
    assert_eq!(h.machine_country, "BB");
}

#[test]
fn session_backpressure_drops_nothing() {
    let mid = "machine-a".to_owned();
    let mut session = Session::open(HostStore::new(), &mid).ok().unwrap();
    // well past the mailbox capacity of 16
    for i in 0..40 {
        session.submit(machine(&format!("10.0.0.{}", i), None));
    }
    assert!(session.queued() <= 16);
    let store = session.finish();
    let h = store.find_by_machine_id(&mid).unwrap();
    assert_eq!(h.machine_ip, "10.0.0.39");
}

#[test]
fn batch_isolates_decode_failures() {
    let mid = "machine-a".to_owned();
    let mut session = Session::open(HostStore::new(), &mid).ok().unwrap();
    let batch = vec![
        machine_wire("1.2.3.4"),
        WireValue::Str("garbage".to_owned()),
        WireValue::Obj(vec![(
            "EvtOsEmit".to_owned(),
            WireValue::Obj(vec![("family".to_owned(), WireValue::Str("linux".to_owned()))]),
        )]),
    ];
    session.submit_batch(&batch);
    let store = session.finish();
    let h = store.find_by_machine_id(&mid).unwrap();
    // both valid events applied, the garbage skipped
    assert_eq!(h.machine_ip, "1.2.3.4");
    assert_eq!(h.os_family, "linux");
}

#[test]
fn empty_batch_changes_nothing() {
    let mid = "machine-a".to_owned();
    let mut session = Session::open(HostStore::new(), &mid).ok().unwrap();
    session.submit_batch(&Vec::new());
    let store = session.finish();
    let h = store.find_by_machine_id(&mid).unwrap();
    assert_eq!(h.machine_ip, "");
}

#[test]
fn store_apply_unknown_id_is_not_found() {
    let mut store = HostStore::new();
    let r = store.apply_event(12345, &machine("1.2.3.4", None));
    assert_eq!(r, Err(StoreError::NotFound));
    assert_eq!(store.len(), 0);
}

#[test]
fn stream_probe_answered_in_kind() {
    let mid = "machine-a".to_owned();
    let mut session = Session::open(HostStore::new(), &mid).ok().unwrap();
    let frames = vec![
        Frame::Ping(b"hb-1".to_vec()),
        Frame::Text(machine_json("1.2.3.4")),
        Frame::Ping(b"hb-2".to_vec()),
    ];
    let (replies, saw_close) = session.run_stream(&frames);
    assert_eq!(replies, vec![b"hb-1".to_vec(), b"hb-2".to_vec()]);
    assert!(!saw_close);
    let store = session.finish();
    let h = store.find_by_machine_id(&mid).unwrap();
    assert_eq!(h.machine_ip, "1.2.3.4");
}

#[test]
fn stream_close_stops_processing() {
    let mid = "machine-a".to_owned();
    let mut session = Session::open(HostStore::new(), &mid).ok().unwrap();
    let frames = vec![
        Frame::Text(machine_json("1.1.1.1")),
        Frame::Close,
        Frame::Text(machine_json("2.2.2.2")),
        Frame::Ping(b"late".to_vec()),
    ];
    let (replies, saw_close) = session.run_stream(&frames);
    assert!(saw_close);
    assert!(replies.is_empty());
    let store = session.finish();
    let h = store.find_by_machine_id(&mid).unwrap();
    // the event before the close applied, nothing after it
    assert_eq!(h.machine_ip, "1.1.1.1");
}

#[test]
fn stream_survives_bad_frames() {
    let mid = "machine-a".to_owned();
    let mut session = Session::open(HostStore::new(), &mid).ok().unwrap();
    let frames = vec![
        Frame::Text(b"garbage".to_vec()),
        Frame::Binary(machine_json("5.5.5.5")),
        Frame::Pong(b"x".to_vec()),
    ];
    let (replies, saw_close) = session.run_stream(&frames);
    assert!(!saw_close);
    assert!(replies.is_empty());
    let store = session.finish();
    let h = store.find_by_machine_id(&mid).unwrap();
    assert_eq!(h.machine_ip, "5.5.5.5");
}

#[test]
fn stream_decision_per_frame() {
    match stream_decision(&Frame::Ping(b"p".to_vec())) {
        StreamAction::Reply(d) => assert_eq!(d, b"p".to_vec()),
        other => panic!("probe not answered: {:?}", other),
    }
    assert!(matches!(stream_decision(&Frame::Pong(b"p".to_vec())), StreamAction::Skip));
    assert!(matches!(stream_decision(&Frame::Close), StreamAction::Stop));
    assert!(matches!(stream_decision(&Frame::Text(b"junk".to_vec())), StreamAction::Skip));
    match stream_decision(&Frame::Text(machine_json("4.4.4.4"))) {
        StreamAction::Deliver(Events::EvtMachineEmit(m)) => assert_eq!(m.ip, "4.4.4.4"),
        other => panic!("data frame not delivered: {:?}", other),
    }
}

#[test]
fn registry_obtain_is_keyed_and_idempotent() {
    let mut reg = dashboard::MailboxRegistry::new();
    assert!(reg.is_well_formed());
    assert!(matches!(reg.obtain(7), dashboard::ObtainOutcome::Created));
    // a second obtain for the same host shares the existing mailbox
    assert!(matches!(reg.obtain(7), dashboard::ObtainOutcome::Existing));
    assert_eq!(reg.len(), 1);
    assert!(matches!(reg.obtain(8), dashboard::ObtainOutcome::Created));
    assert_eq!(reg.len(), 2);
    assert!(reg.contains(7));
    assert!(reg.contains(8));
    assert!(reg.is_well_formed());
}

#[test]
fn registry_release_tears_down_one_entry() {
    let mut reg = dashboard::MailboxRegistry::new();
    reg.obtain(1);
    reg.obtain(2);
    reg.obtain(3);
    reg.release(2);
    assert_eq!(reg.len(), 2);
    assert!(reg.contains(1));
    assert!(!reg.contains(2));
    assert!(reg.contains(3));
    // releasing an unknown host changes nothing
    reg.release(99);
    assert_eq!(reg.len(), 2);
    // a released host can come back, once
    assert!(matches!(reg.obtain(2), dashboard::ObtainOutcome::Created));
    assert!(matches!(reg.obtain(2), dashboard::ObtainOutcome::Existing));
    assert_eq!(reg.len(), 3);
}

#[test]
fn init_gate_latches_once() {
    let mut gate = InitGate::new();
    assert!(!gate.cached());
    assert!(!gate.check(false));
    assert!(!gate.cached());
    assert!(gate.check(true));
    assert!(gate.cached());
    // never resets, even if the store were to answer "no users" again
    assert!(gate.check(false));
    assert!(gate.cached());
}

#[test]
fn captcha_dimensions_fall_back_to_defaults() {
    assert_eq!(captcha_dimensions(&CaptchaGenerateReq { w: None, h: None }), (220, 120));
    assert_eq!(captcha_dimensions(&CaptchaGenerateReq { w: Some(10), h: None }), (10, 120));
    assert_eq!(captcha_dimensions(&CaptchaGenerateReq { w: None, h: Some(50) }), (220, 50));
}
