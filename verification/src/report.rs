//! The captured-context handler and the emit convenience: the span that was
//! ambient when an error report was created is captured once, kept on the
//! handler, and handed back for logging the error inside it later.

use vstd::prelude::*;
use crate::trace::Frame;
use crate::trace::span_trace_text;
use crate::trace::trace_text;

verus! {

/// Declares `tracing::Span`, the handle to an execution-context frame, as an
/// opaque outside type: the library stores and hands around such handles but
/// never looks inside one.
#[verifier::external_type_specification]
#[verifier::external_body]
pub struct ExSpan(tracing::Span);

/// Declares `eyre::Report`, the error-report container, as an opaque outside
/// type: the library decides what to do with a report but never opens it.
#[verifier::external_type_specification]
#[verifier::external_body]
pub struct ExReport(eyre::Report);

/// Relies on `tracing::Span::current`: returns a handle to the span the
/// subscriber considers active on this thread, or the disabled span when
/// there is none. The result depends on ambient state, so nothing is
/// promised of it.
#[verifier::external_body]
fn current_span() -> tracing::Span {
    tracing::Span::current()
}

/// The captured-context handler: holds the span that was ambient when an
/// error report was created. It is built once, at creation time, and never
/// re-captures: every later observation reads the stored span.
#[derive(Debug)]
pub struct Handler {
    span: tracing::Span,
}

impl Handler {
    /// Builds a handler around the given span: exactly that span is stored,
    /// and every later observation reads it back.
    pub fn of_span(span: tracing::Span) -> (r: Handler)
        ensures
            r.spec_span() == span,
    {
        Handler { span }
    }

    /// Captures the span that is ambient right now. A handler built at
    /// error-creation time therefore holds the creation-time span, whatever
    /// is ambient when the error is later formatted or logged.
    pub fn capture() -> Handler {
        Handler::of_span(current_span())
    }

    /// The trace suffix of the alternate display form: the rendering of the
    /// captured span's frames, innermost first. Only the stored span is
    /// read, never the span ambient at the time of the call.
    pub fn trace_suffix(&self) -> (r: String)
        ensures
            exists|frames: Seq<Frame>| r@ == trace_text(frames),
            r@.len() > 0 ==> r@[0] == '\n',
    {
        span_trace_text(&self.span)
    }
}

/// Seals [`ReportSpan`] and [`Emit`] against outside implementations.
pub trait Sealed {}

impl Sealed for Handler {}

impl Sealed for eyre::Report {}

impl<T> Sealed for Result<T, eyre::Report> {}

/// Carriers of a captured span: the span handed out is the one stored at
/// creation, not the one ambient at the time of the call.
pub trait ReportSpan: Sealed {
    /// The stored span, as a specification-level value.
    spec fn spec_span(&self) -> tracing::Span;

    /// Returns the span the error occurred in.
    fn span(&self) -> (r: &tracing::Span)
        ensures
            *r == self.spec_span(),
    ;
}

impl ReportSpan for Handler {
    closed spec fn spec_span(&self) -> tracing::Span {
        self.span
    }

    fn span(&self) -> (r: &tracing::Span) {
        &self.span
    }
}

/// Splits a result into the value to hand back and the report that is to be
/// logged inside its captured span. Emitting the log event itself goes
/// through the logging facility's macros and stands outside this library:
/// the caller logs the report this function hands back, inside its span.
pub fn emit<T>(e: Result<T, eyre::Report>) -> (r: (Option<T>, Option<eyre::Report>))
    ensures
        e matches Ok(v) ==> r == (Some(v), None::<eyre::Report>),
        e matches Err(rep) ==> r == (None::<T>, Some(rep)),
{
    match e {
        Ok(v) => (Some(v), None),
        Err(rep) => (None, Some(rep)),
    }
}

/// Method syntax for [`emit`].
pub trait Emit<T>: Sealed {
    /// The value part: what emit hands back for this result.
    spec fn value_part(&self) -> Option<T>;

    /// The report part: what emit asks the caller to log for this result.
    spec fn report_part(&self) -> Option<eyre::Report>;

    /// Method syntax for [`emit`].
    fn emit(self) -> (r: (Option<T>, Option<eyre::Report>))
        ensures
            r.0 == self.value_part(),
            r.1 == self.report_part(),
    ;
}

impl<T> Emit<T> for Result<T, eyre::Report> {
    open spec fn value_part(&self) -> Option<T> {
        match *self {
            Ok(v) => Some(v),
            Err(_) => None,
        }
    }

    open spec fn report_part(&self) -> Option<eyre::Report> {
        match *self {
            Ok(_) => None,
            Err(rep) => Some(rep),
        }
    }

    fn emit(self) -> (r: (Option<T>, Option<eyre::Report>)) {
        emit(self)
    }
}

} // verus!
