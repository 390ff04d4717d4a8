//! Per-host event ingestion pipeline for an agent dashboard.
//!
//! Remote machines ("agents") report identity and telemetry to a central
//! service. This library holds the verified core of that service: resolving an
//! agent's durable identity, a bounded, ordered per-host event queue
//! ("mailbox"), the two transport adapters (batched bodies and a long-lived
//! frame stream) that normalise wire payloads into typed events, and the
//! applier that merges each event into the host's persisted record with
//! "unspecified means unchanged" semantics.

mod applier;
mod codec;
mod events;
mod gate;
mod host;
mod mailbox;
mod proto;
mod registry;
mod session;
mod store;
mod stream;
mod wire;

pub use events::Events;
pub use events::EvtMachineEmit;
pub use events::EvtOsEmit;
pub use host::Host;
pub use host::is_fresh_host;
pub use applier::HostPatch;
pub use applier::apply_event;
pub use applier::apply_patch;
pub use applier::patch_of_event;
pub use applier::machine_emit_patch;
pub use applier::os_emit_patch;
pub use applier::merged;
pub use applier::spec_apply_event;
pub use applier::spec_apply_events;
pub use applier::spec_apply_patch;
pub use applier::spec_patch_of_event;
pub use applier::lemma_apply_events_push;
pub use applier::lemma_order_preserved;
pub use applier::lemma_sparse_patch;
pub use gate::InitGate;
pub use proto::Args;
pub use proto::CAPTCHA_DEFAULT_H;
pub use proto::CAPTCHA_DEFAULT_W;
pub use proto::CaptchaGenerateReq;
pub use proto::CaptchaGenerateResp;
pub use proto::InitReq;
pub use proto::InitResp;
pub use proto::captcha_dimensions;
pub use mailbox::EnqueueOutcome;
pub use mailbox::Mailbox;
pub use mailbox::MailboxView;
pub use mailbox::lemma_backpressure;
pub use mailbox::spec_dequeue;
pub use mailbox::spec_enqueue;
pub use registry::MailboxRegistry;
pub use registry::ObtainOutcome;
pub use registry::registered;
pub use registry::registry_wf;
pub use session::MAILBOX_CAPACITY;
pub use session::Session;
pub use session::lemma_wire_events_push;
pub use session::wire_events;
pub use store::HostStore;
pub use store::StoreError;
pub use store::has_host_id;
pub use store::has_machine_id;
pub use store::resolve_ok_post;
pub use store::store_wf;
pub use store::lemma_resolve_idempotent;
pub use store::lemma_apply_updates_host;
pub use store::lemma_host_with_id_unique;
pub use store::others_unchanged;
pub use store::spec_host_with_id;
pub use codec::decode_event;
pub use codec::spec_event_of_json;
pub use codec::wire_of_json;
pub use stream::Frame;
pub use stream::FrameV;
pub use stream::StreamAction;
pub use stream::StreamLogItem;
pub use stream::frame_log_step;
pub use stream::frame_views;
pub use stream::has_close;
pub use stream::lemma_close_ends_stream;
pub use stream::lemma_log_parts_append;
pub use stream::lemma_probe_answered_first;
pub use stream::lemma_stream_log_append;
pub use stream::log_deliveries;
pub use stream::log_replies;
pub use stream::reply_views;
pub use stream::stream_decision;
pub use stream::stream_log;
pub use wire::WireValue;
pub use wire::decode_wire_event;
pub use wire::spec_event_of_wire;
