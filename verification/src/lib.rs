//! Attaches the ambient `tracing` span to `eyre` error reports, so that an
//! error can later be logged inside the span where it happened, with a
//! rendered trace of the nested spans.

pub mod report;
pub mod scrub;
pub mod trace;

pub use report::Emit;
pub use report::Handler;
pub use report::ReportSpan;
pub use report::Sealed;
pub use report::emit;
pub use scrub::scrub_from;
pub use scrub::scrubbed;
pub use scrub::strip_ansi;
pub use trace::Frame;
pub use trace::render_trace;
pub use trace::span_trace_text;
