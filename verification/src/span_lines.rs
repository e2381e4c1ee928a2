//! OpenTelemetry-shaped spans and events, written as journald lines.
//!
//! ```text
//! span=lock.session trace=<32hex> id=<16hex> parent=-       seq=0 t_us=0      dur_us=2413918 outcome=Unlocked
//! span=flow.phase   trace=<32hex> id=<16hex> parent=<16hex> seq=1 t_us=1204   dur_us=560310  phase=PreLock
//! event=flow.transition trace=<32hex> parent=<16hex>        seq=2 t_us=561514 from=Committing to=Locked
//! ```
//!
//! Read a record by splitting on whitespace, then each token on its first
//! `=`, then percent-decoding the value. Names, keys and values are all
//! encoded, so no field can contain whitespace or `=`.
//!
//! A span is the half-open interval `[t_us, t_us + dur_us)` and an event is
//! the point `t_us`; `seq` totally orders one process's records.

pub mod detail;
pub mod encode;
pub mod hooks;
pub mod ids;
pub mod layer;
pub mod reader;
pub mod record;
pub mod trace;
pub mod traceparent;
pub mod unique;

pub use detail::Detail;
pub use encode::encode;
pub use hooks::{AtExit, ExitHooks, Hook, Sink};
pub use ids::{id_from, nonzero, seed_from, splitmix};
pub use layer::{Level, OpenSpan, SpanLinesLayer};
pub use record::{frame, MAX_RECORD};
pub use trace::{drop_status, Span, Trace};
pub use traceparent::parse_traceparent;
