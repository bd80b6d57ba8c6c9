use ngx_metrics::OutputBuffer;
use ngx_metrics::get_filename;

#[test]
fn filename_is_basename() {
    assert_eq!(get_filename(&b"/a/b/c.lua".to_vec()), b"c.lua".to_vec());
    assert_eq!(get_filename(&b"plain.lua".to_vec()), b"plain.lua".to_vec());
    assert_eq!(get_filename(&b"/only".to_vec()), b"only".to_vec());
    assert_eq!(get_filename(&b"trailing/".to_vec()), Vec::<u8>::new());
    assert_eq!(get_filename(&Vec::<u8>::new()), Vec::<u8>::new());
}

#[test]
fn filename_of_native_sentinel_is_c_marker() {
    assert_eq!(get_filename(&b"=[C]".to_vec()), b"[C]".to_vec());
}

#[test]
fn fresh_buffer_is_zeroed() {
    let out = OutputBuffer::new(8);
    assert_eq!(out.capacity(), 8);
    assert_eq!(out.position(), 0);
    assert!(!out.is_truncated());
    for i in 0..8 {
        assert_eq!(out.byte_at(i), 0);
    }
}

#[test]
fn writes_accumulate_until_full() {
    let mut out = OutputBuffer::new(4);
    assert!(out.write(&b"ab".to_vec()).is_ok());
    assert_eq!(out.position(), 2);
    assert!(!out.is_truncated());

    // Only one byte is left before the reserved terminator: the write is
    // cut and signalled.
    assert!(out.write(&b"cd".to_vec()).is_err());
    assert_eq!(out.position(), 3);
    assert!(out.is_truncated());
    assert_eq!(out.contents(), b"abc".to_vec());
    assert_eq!(out.byte_at(3), 0);

    // A truncated buffer takes nothing further.
    assert!(out.write(&b"e".to_vec()).is_err());
    assert_eq!(out.contents(), b"abc".to_vec());
}

#[test]
fn empty_write_always_fits() {
    let mut out = OutputBuffer::new(1);
    assert!(out.write(&Vec::<u8>::new()).is_ok());
    assert_eq!(out.position(), 0);
    assert!(!out.is_truncated());
}

#[test]
fn reset_clears_text_and_flag() {
    let mut out = OutputBuffer::new(4);
    assert!(out.write(&b"abcd".to_vec()).is_err());
    out.reset();
    assert_eq!(out.position(), 0);
    assert!(!out.is_truncated());
    for i in 0..4 {
        assert_eq!(out.byte_at(i), 0);
    }
}
