use eyre_span::Frame;
use eyre_span::render_trace;

#[test]
fn renders_three_frames_innermost_first() {
    let frames = vec![
        Frame::new("app::db", "query", "sql=\x1B[33mselect 1\x1B[0m"),
        Frame::new("app", "request", ""),
        Frame::new("app", "server", "port=80"),
    ];
    let out = render_trace(&frames);
    assert_eq!(
        out,
        "\n\u{2022} app::db::query{sql=select 1}\n\u{2022} app::request\n\u{2022} app::server{port=80}"
    );
}

#[test]
fn frame_without_fields_gets_no_block() {
    let frames = vec![Frame::new("t", "n", "")];
    assert_eq!(render_trace(&frames), "\n\u{2022} t::n");
}

#[test]
fn field_text_is_scrubbed_even_when_unterminated() {
    let frames = vec![Frame::new("t", "n", "k=v\x1B[31")];
    assert_eq!(render_trace(&frames), "\n\u{2022} t::n{k=v}");
}

#[test]
fn no_frames_render_to_nothing() {
    let frames: Vec<Frame> = Vec::new();
    assert_eq!(render_trace(&frames), "");
}
