use ngx_metrics::FrameInfo;
use ngx_metrics::OutputBuffer;
use ngx_metrics::SerializeOutcome;
use ngx_metrics::boundary_code;
use ngx_metrics::dump_stack;
use ngx_metrics::serialize_stack;

fn script_frame(name: &[u8], source: &[u8], line: i32) -> FrameInfo {
    FrameInfo { name: Some(name.to_vec()), source: source.to_vec(), line }
}

fn native_frame() -> FrameInfo {
    FrameInfo { name: None, source: b"=[C]".to_vec(), line: -1 }
}

fn two_frame_stack() -> Vec<FrameInfo> {
    vec![
        script_frame(b"foo", b"/x/y/mod.lua", 10),
        script_frame(b"bar", b"/x/y/mod.lua", 3),
    ]
}

const TWO_FRAME_TEXT: &[u8] = b"foo@mod.lua:10 bar@mod.lua:3";

#[test]
fn empty_stack_writes_nothing() {
    let frames: Vec<FrameInfo> = Vec::new();
    let mut out = OutputBuffer::new(16);
    let r = serialize_stack(&frames, &mut out);
    assert_eq!(r, SerializeOutcome::Complete(0));
    assert_eq!(boundary_code(r), 0);
    assert_eq!(out.contents(), Vec::<u8>::new());
    assert_eq!(out.byte_at(0), 0);
    assert!(!out.is_truncated());
}

#[test]
fn native_frames_only_write_nothing() {
    let frames = vec![native_frame(), native_frame(), native_frame()];
    let mut out = OutputBuffer::new(64);
    let r = serialize_stack(&frames, &mut out);
    assert_eq!(r, SerializeOutcome::Complete(0));
    assert_eq!(out.contents(), Vec::<u8>::new());
    assert_eq!(out.byte_at(0), 0);
}

#[test]
fn two_frame_stack_renders_whole() {
    let frames = two_frame_stack();
    let mut out = OutputBuffer::new(128);
    let r = serialize_stack(&frames, &mut out);
    assert_eq!(out.contents(), TWO_FRAME_TEXT.to_vec());
    assert_eq!(r, SerializeOutcome::Complete(TWO_FRAME_TEXT.len()));
    assert_eq!(boundary_code(r), TWO_FRAME_TEXT.len() as i32);
    assert_eq!(out.byte_at(TWO_FRAME_TEXT.len()), 0);
    assert!(!out.is_truncated());
}

#[test]
fn tiny_buffer_takes_a_prefix() {
    let frames = two_frame_stack();
    let mut out = OutputBuffer::new(5);
    let r = serialize_stack(&frames, &mut out);
    assert_eq!(r, SerializeOutcome::Truncated(4));
    assert_eq!(boundary_code(r), 4);
    assert_eq!(out.contents(), TWO_FRAME_TEXT[..4].to_vec());
    assert_eq!(out.byte_at(4), 0);
    assert!(out.is_truncated());
}

#[test]
fn exact_fit_is_complete() {
    let frames = two_frame_stack();
    let mut out = OutputBuffer::new(TWO_FRAME_TEXT.len() + 1);
    let r = serialize_stack(&frames, &mut out);
    assert_eq!(r, SerializeOutcome::Complete(TWO_FRAME_TEXT.len()));
    assert_eq!(out.contents(), TWO_FRAME_TEXT.to_vec());
    assert_eq!(out.byte_at(TWO_FRAME_TEXT.len()), 0);
    assert!(!out.is_truncated());
}

#[test]
fn one_byte_short_truncates() {
    let frames = two_frame_stack();
    let mut out = OutputBuffer::new(TWO_FRAME_TEXT.len());
    let r = serialize_stack(&frames, &mut out);
    let kept = TWO_FRAME_TEXT.len() - 1;
    assert_eq!(r, SerializeOutcome::Truncated(kept));
    assert_eq!(out.contents(), TWO_FRAME_TEXT[..kept].to_vec());
    assert_eq!(out.byte_at(kept), 0);
    assert!(out.is_truncated());
}

#[test]
fn repeated_runs_are_identical() {
    let frames = two_frame_stack();
    let mut first = OutputBuffer::new(20);
    let mut second = OutputBuffer::new(20);
    let r1 = serialize_stack(&frames, &mut first);
    let r2 = serialize_stack(&frames, &mut second);
    assert_eq!(r1, r2);
    assert_eq!(first.contents(), second.contents());
    assert_eq!(first.position(), second.position());
    assert_eq!(first.is_truncated(), second.is_truncated());
}

#[test]
fn reused_buffer_is_reset_first() {
    let frames = two_frame_stack();
    let mut out = OutputBuffer::new(128);
    let r1 = serialize_stack(&frames, &mut out);
    let r2 = serialize_stack(&frames, &mut out);
    assert_eq!(r1, r2);
    assert_eq!(out.contents(), TWO_FRAME_TEXT.to_vec());
}

#[test]
fn anonymous_frame_gets_placeholder() {
    let frames = vec![FrameInfo { name: None, source: b"/srv/init.lua".to_vec(), line: 7 }];
    let mut out = OutputBuffer::new(64);
    let r = serialize_stack(&frames, &mut out);
    assert_eq!(out.contents(), b"[anonymous]@init.lua:7".to_vec());
    assert_eq!(r, SerializeOutcome::Complete(22));
}

#[test]
fn native_frame_among_script_frames_is_skipped() {
    let frames = vec![
        script_frame(b"foo", b"/x/y/mod.lua", 10),
        native_frame(),
        script_frame(b"bar", b"/x/y/mod.lua", 3),
    ];
    let mut out = OutputBuffer::new(128);
    let r = serialize_stack(&frames, &mut out);
    assert_eq!(out.contents(), TWO_FRAME_TEXT.to_vec());
    assert_eq!(r, SerializeOutcome::Complete(TWO_FRAME_TEXT.len()));
}

#[test]
fn innermost_native_frame_leaves_no_separator() {
    let frames = vec![native_frame(), script_frame(b"foo", b"/x/y/mod.lua", 10)];
    let mut out = OutputBuffer::new(64);
    let r = serialize_stack(&frames, &mut out);
    assert_eq!(out.contents(), b"foo@mod.lua:10".to_vec());
    assert_eq!(r, SerializeOutcome::Complete(14));
}

#[test]
fn invalid_utf8_name_gets_placeholder() {
    let frames = vec![FrameInfo {
        name: Some(vec![0xff, 0xfe, 0x80]),
        source: b"/a/run.lua".to_vec(),
        line: 2,
    }];
    let mut out = OutputBuffer::new(64);
    serialize_stack(&frames, &mut out);
    assert_eq!(out.contents(), b"[invalid utf8]@run.lua:2".to_vec());
}

#[test]
fn valid_utf8_name_passes_through() {
    let frames = vec![script_frame(b"handler", b"/a/run.lua", 2)];
    let mut out = OutputBuffer::new(64);
    serialize_stack(&frames, &mut out);
    assert_eq!(out.contents(), b"handler@run.lua:2".to_vec());
}

#[test]
fn invalid_utf8_source_gets_placeholder() {
    let frames = vec![FrameInfo {
        name: Some(b"f".to_vec()),
        source: vec![0xc0, 0x2f, 0xff],
        line: 5,
    }];
    let mut out = OutputBuffer::new(64);
    serialize_stack(&frames, &mut out);
    assert_eq!(out.contents(), b"f@[invalid utf8]:5".to_vec());
}

#[test]
fn negative_and_zero_lines_render_signed_decimal() {
    let frames = vec![
        script_frame(b"a", b"m.lua", -1),
        script_frame(b"b", b"m.lua", 0),
        script_frame(b"c", b"m.lua", 2147483647),
    ];
    let mut out = OutputBuffer::new(128);
    serialize_stack(&frames, &mut out);
    assert_eq!(out.contents(), b"a@m.lua:-1 b@m.lua:0 c@m.lua:2147483647".to_vec());
}

#[test]
fn capacity_one_holds_only_the_terminator() {
    let frames = two_frame_stack();
    let mut out = OutputBuffer::new(1);
    let r = serialize_stack(&frames, &mut out);
    assert_eq!(r, SerializeOutcome::Truncated(0));
    assert_eq!(out.contents(), Vec::<u8>::new());
    assert_eq!(out.byte_at(0), 0);
}

#[test]
fn dump_stack_signals_truncation() {
    let frames = two_frame_stack();
    let mut out = OutputBuffer::new(128);
    assert!(dump_stack(&frames, &mut out).is_ok());
    assert_eq!(out.contents(), TWO_FRAME_TEXT.to_vec());

    let mut small = OutputBuffer::new(8);
    assert!(dump_stack(&frames, &mut small).is_err());
    assert_eq!(small.contents(), TWO_FRAME_TEXT[..7].to_vec());
}

#[test]
fn failure_sentinel_encodes_as_one() {
    assert_eq!(boundary_code(SerializeOutcome::Failed), 1);
    assert_eq!(boundary_code(SerializeOutcome::Complete(0)), 0);
    assert_eq!(boundary_code(SerializeOutcome::Truncated(4)), 4);
}
