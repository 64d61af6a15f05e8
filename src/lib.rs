//! Causal trace stamps for in-process events and the bookkeeping of their
//! asynchronous delivery.
//!
//! Every execution context owns a vector clock (`EventGenerator`) whose last
//! counter grows with each event and which is extended by one element when a
//! new context is forked off. Events are rendered into a key and a JSON
//! document, handed to a broker by the caller, and the resulting pending
//! deliveries are drained by a small state machine (`FlushLoop`).

mod clock;
mod delivery;
mod options;
mod record;
mod registry;
mod text;

pub use clock::{micros_since_epoch, record_document, timestamp, EventGenerator};
pub use registry::{debug, grandfather, pregnant, trace, ClockRegistry};
pub use delivery::{DeliveryOutcome, DeliveryTracker, FlushAction, FlushLoop, FlushPhase};
pub use options::TraceOptions;
pub use record::{body_json, code_json, CodeAttributes, TraceError, TraceType};
pub use text::{parse, render_decimal};
