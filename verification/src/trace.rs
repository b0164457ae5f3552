//! Rendering of the nested-frame trace: one line per span, innermost first,
//! each line `\n• target::name`, followed by `{fields}` when the span carries
//! field text, with the field text scrubbed of ANSI escapes.

use vstd::prelude::*;
use crate::scrub::scrubbed;
use crate::scrub::strip_ansi;

verus! {

/// One frame of the trace: what the logging facility records of a span.
pub struct Frame {
    /// The module path the span was declared in.
    pub target: String,
    /// The span's name.
    pub name: String,
    /// The span's rendered field text; empty when the span has no fields.
    pub fields: String,
}

impl Frame {
    /// Builds a frame from borrowed parts.
    pub fn new(target: &str, name: &str, fields: &str) -> (r: Frame)
        ensures
            r.target@ == target@,
            r.name@ == name@,
            r.fields@ == fields@,
    {
        Frame { target: target.to_owned(), name: name.to_owned(), fields: fields.to_owned() }
    }
}

/// The text of one trace line: the header, and the scrubbed field block when
/// the frame carries field text.
pub open spec fn frame_line(f: Frame) -> Seq<char> {
    let head = "\n• "@ + f.target@ + "::"@ + f.name@;
    if f.fields@.len() == 0 {
        head
    } else {
        head + "{"@ + scrubbed(f.fields@) + "}"@
    }
}

/// The whole trace: the frames' lines in the order given, innermost first.
pub open spec fn trace_text(frames: Seq<Frame>) -> Seq<char>
    decreases frames.len(),
{
    if frames.len() == 0 {
        Seq::<char>::empty()
    } else {
        frame_line(frames[0]) + trace_text(frames.drop_first())
    }
}

/// Renders the trace of the given frames, innermost first.
pub fn render_trace(frames: &Vec<Frame>) -> (r: String)
    ensures
        r@ == trace_text(frames@),
{
    let mut out = String::new();
    let mut i: usize = 0;
    proof {
        assert(frames@.skip(0) =~= frames@);
        assert(Seq::<char>::empty() + trace_text(frames@) =~= trace_text(frames@));
    }
    while i < frames.len()
        invariant
            i <= frames@.len(),
            trace_text(frames@) == out@ + trace_text(frames@.skip(i as int)),
        decreases frames@.len() - i,
    {
        let ghost out0 = out@;
        let ghost tail = frames@.skip(i as int);
        proof {
            assert(tail[0] == frames@[i as int]);
            assert(tail.drop_first() =~= frames@.skip(i as int + 1));
        }
        let f = &frames[i];
        out.append("\n• ");
        out.append(f.target.as_str());
        out.append("::");
        out.append(f.name.as_str());
        if !f.fields.as_str().is_empty() {
            out.append("{");
            let cleaned = strip_ansi(f.fields.clone());
            out.append(cleaned.as_str());
            out.append("}");
        }
        proof {
            assert(out@ =~= out0 + frame_line(frames@[i as int]));
            assert(out0 + (frame_line(tail[0]) + trace_text(tail.drop_first()))
                =~= (out0 + frame_line(tail[0])) + trace_text(tail.drop_first()));
        }
        i = i + 1;
    }
    proof {
        assert(frames@.skip(frames@.len() as int) =~= Seq::<Frame>::empty());
        assert(out@ + trace_text(frames@.skip(frames@.len() as int)) =~= out@);
    }
    out
}

/// Every trace line begins on a fresh line: whatever the frames, the rendered
/// trace is empty or starts with a line break, so a trace appended to a
/// message never runs into its last line.
pub proof fn lemma_trace_starts_fresh(frames: Seq<Frame>)
    ensures
        trace_text(frames).len() > 0 ==> trace_text(frames)[0] == '\n',
{
    reveal_strlit("\n• ");
    if frames.len() > 0 {
        assert(frame_line(frames[0])[0] == '\n');
    }
}

/// Relies on `tracing_error::SpanTrace::new` and `SpanTrace::with_spans`:
/// walks the given span and its ancestors, innermost first, handing each
/// span's metadata and rendered field text to the callback. What is walked
/// depends on the subscriber's registry, so nothing is promised of the
/// frames that come back.
#[verifier::external_body]
fn collect_frames(span: &tracing::Span) -> (r: Vec<Frame>) {
    let mut frames = Vec::new();
    tracing_error::SpanTrace::new(span.clone()).with_spans(|meta, fields| {
        frames.push(Frame::new(meta.target(), meta.name(), fields));
        true
    });
    frames
}

/// Renders the trace of the given span and its ancestors: whatever frames the
/// logging facility reports, the result is their rendering, innermost first.
pub fn span_trace_text(span: &tracing::Span) -> (r: String)
    ensures
        exists|frames: Seq<Frame>| r@ == trace_text(frames),
        r@.len() > 0 ==> r@[0] == '\n',
{
    let frames = collect_frames(span);
    let r = render_trace(&frames);
    proof {
        assert(r@ == trace_text(frames@));
        lemma_trace_starts_fresh(frames@);
    }
    r
}

} // verus!
