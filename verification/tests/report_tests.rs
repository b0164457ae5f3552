use eyre_span::Emit;
use eyre_span::Handler;
use eyre_span::ReportSpan;
use eyre_span::emit;

#[test]
fn emit_on_success_hands_back_the_value() {
    let (value, report) = emit(Ok::<i32, eyre::Report>(5));
    assert_eq!(value, Some(5));
    assert!(report.is_none());
}

#[test]
fn emit_on_failure_hands_back_the_report() {
    let (value, report) = emit(Err::<i32, eyre::Report>(eyre::Report::msg("boom")));
    assert!(value.is_none());
    let report = report.expect("the report to log");
    assert_eq!(format!("{report}"), "boom");
}

#[test]
fn emit_method_matches_the_free_function() {
    let (v1, r1) = Ok::<u8, eyre::Report>(7).emit();
    assert_eq!(v1, Some(7));
    assert!(r1.is_none());
    let (v2, r2) = Err::<u8, eyre::Report>(eyre::Report::msg("down")).emit();
    assert!(v2.is_none());
    assert_eq!(format!("{}", r2.expect("the report to log")), "down");
}

#[test]
fn handler_stores_the_span_it_was_given() {
    let handler = Handler::of_span(tracing::Span::none());
    assert!(handler.span().is_disabled());
    assert_eq!(handler.trace_suffix(), "");
}

#[test]
fn captured_handler_holds_the_ambient_span() {
    // no subscriber is set here, so the ambient span is the disabled one and
    // the stored span renders an empty trace
    let handler = Handler::capture();
    assert!(handler.span().is_disabled());
    assert_eq!(handler.trace_suffix(), "");
}
