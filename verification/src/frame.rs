//! One call frame: the raw snapshot handed over by the scripting runtime,
//! the filter that drops native frames, and the formatter that renders a
//! frame as `name@filename:line`.

use vstd::prelude::*;

use crate::text::AT;
use crate::text::COLON;
use crate::text::SLASH;
use crate::text::SPACE;
use crate::text::anonymous_marker;
use crate::text::anonymous_marker_bytes;
use crate::text::bytes_are_utf8;
use crate::text::c_marker;
use crate::text::c_marker_bytes;
use crate::text::copy_bytes;
use crate::text::dec_of_int;
use crate::text::i32_to_dec;
use crate::text::invalid_utf8_marker;
use crate::text::invalid_utf8_marker_bytes;
use crate::text::is_valid_utf8;
use crate::text::native_marker;

verus! {

/// Snapshot of one call frame, exactly as the runtime reports it: the
/// function's name (absent for an anonymous frame), the source identifier,
/// and the line currently executing. The two byte strings are expected to
/// be text but are not guaranteed valid.
pub struct FrameInfo {
    pub name: Option<Vec<u8>>,
    pub source: Vec<u8>,
    pub line: i32,
}

/// A raw byte string as displayed: itself when it decodes as text, the
/// `[invalid utf8]` placeholder otherwise.
pub open spec fn resolved_text(b: Seq<u8>) -> Seq<u8> {
    if is_valid_utf8(b) {
        b
    } else {
        invalid_utf8_marker()
    }
}

/// A frame's display name: `[anonymous]` when the runtime reports none.
pub open spec fn resolved_name_of(name: Option<Vec<u8>>) -> Seq<u8> {
    match name {
        Option::None => anonymous_marker(),
        Option::Some(b) => resolved_text(b@),
    }
}

/// A frame's display name.
pub open spec fn resolved_name(f: FrameInfo) -> Seq<u8> {
    resolved_name_of(f.name)
}

/// A frame's source identifier as displayed.
pub open spec fn resolved_source(f: FrameInfo) -> Seq<u8> {
    resolved_text(f.source@)
}

/// Whether a frame is rendered at all: frames whose displayed source is the
/// native sentinel are skipped.
pub open spec fn is_displayed(f: FrameInfo) -> bool {
    resolved_source(f) != native_marker()
}

/// The suffix of `s` after its last `'/'`; all of `s` when it has none.
pub open spec fn after_last_slash(s: Seq<u8>) -> Seq<u8>
    decreases s.len(),
{
    if s.len() == 0 {
        s
    } else if s[s.len() - 1] == SLASH {
        Seq::empty()
    } else {
        after_last_slash(s.drop_last()).push(s[s.len() - 1])
    }
}

/// The filename displayed for a source identifier: `[C]` for the native
/// sentinel, the basename (suffix after the last `'/'`) otherwise.
pub open spec fn filename_of(src: Seq<u8>) -> Seq<u8> {
    if src == native_marker() {
        c_marker()
    } else {
        after_last_slash(src)
    }
}

/// One rendered frame: `name@filename:line`.
pub open spec fn rendered_frame(f: FrameInfo) -> Seq<u8> {
    resolved_name(f) + seq![AT] + filename_of(resolved_source(f)) + seq![COLON] + dec_of_int(
        f.line as int,
    )
}

/// What a frame contributes to the output: nothing when it is filtered
/// out; its rendering otherwise, preceded by the single joining space
/// unless it is the first frame rendered (`first`: no earlier frame
/// produced any text).
pub open spec fn frame_text(f: FrameInfo, first: bool) -> Seq<u8> {
    if !is_displayed(f) {
        Seq::empty()
    } else if first {
        rendered_frame(f)
    } else {
        seq![SPACE] + rendered_frame(f)
    }
}

/// A frame with no name renders under the `[anonymous]` placeholder,
/// and otherwise exactly as a named frame does.
pub proof fn lemma_anonymous_frame(f: FrameInfo)
    requires
        f.name is None,
    ensures
        rendered_frame(f) == anonymous_marker() + seq![AT] + filename_of(resolved_source(f))
            + seq![COLON] + dec_of_int(f.line as int),
{
}

/// Tells whether `source` is exactly the native sentinel `=[C]`.
pub fn is_native_source(source: &Vec<u8>) -> (r: bool)
    ensures
        r == (source@ == native_marker()),
{
    if source.len() != 4 {
        proof {
            assert(source@ != native_marker());
        }
        return false;
    }
    let r = source[0] == 61 && source[1] == 91 && source[2] == 67 && source[3] == 93;
    proof {
        if r {
            assert(source@ =~= native_marker());
        } else {
            assert(source@ != native_marker());
        }
    }
    r
}

/// Renders a raw byte string for display, substituting the placeholder
/// when it is not valid text.
pub fn resolve_text_bytes(b: &Vec<u8>) -> (r: Vec<u8>)
    ensures
        r@ == resolved_text(b@),
{
    if bytes_are_utf8(b) {
        copy_bytes(b)
    } else {
        invalid_utf8_marker_bytes()
    }
}

/// Resolves a frame's display name, substituting `[anonymous]` when the
/// runtime reports none.
pub fn resolve_name_bytes(name: &Option<Vec<u8>>) -> (r: Vec<u8>)
    ensures
        r@ == resolved_name_of(*name),
{
    match name {
        Option::None => anonymous_marker_bytes(),
        Option::Some(b) => resolve_text_bytes(b),
    }
}

/// Derives the displayed filename from a (already resolved) source
/// identifier.
pub fn get_filename(source: &Vec<u8>) -> (r: Vec<u8>)
    ensures
        r@ == filename_of(source@),
{
    if is_native_source(source) {
        return c_marker_bytes();
    }
    let mut cut: usize = 0;
    let mut i: usize = 0;
    while i < source.len()
        invariant
            cut <= i <= source.len(),
            cut == 0 || source@[cut - 1] == SLASH,
            forall|j: int| cut <= j < i ==> source@[j] != SLASH,
        decreases source.len() - i,
    {
        if source[i] == SLASH {
            cut = i + 1;
        }
        i += 1;
    }
    proof {
        lemma_after_last_slash(source@, cut as int);
    }
    let mut r: Vec<u8> = Vec::new();
    let mut j: usize = cut;
    while j < source.len()
        invariant
            cut <= j <= source.len(),
            r@ == source@.subrange(cut as int, j as int),
        decreases source.len() - j,
    {
        r.push(source[j]);
        proof {
            assert(r@ =~= source@.subrange(cut as int, j + 1));
        }
        j += 1;
    }
    r
}

/// The suffix after the last slash is the subrange that starts right after
/// that slash.
proof fn lemma_after_last_slash(s: Seq<u8>, cut: int)
    requires
        0 <= cut <= s.len(),
        cut == 0 || s[cut - 1] == SLASH,
        forall|j: int| cut <= j < s.len() ==> s[j] != SLASH,
    ensures
        after_last_slash(s) == s.subrange(cut, s.len() as int),
    decreases s.len(),
{
    if s.len() == 0 {
        assert(after_last_slash(s) =~= s.subrange(cut, s.len() as int));
    } else if cut == s.len() {
        assert(s[s.len() - 1] == SLASH);
        assert(after_last_slash(s) =~= s.subrange(cut, s.len() as int));
    } else {
        assert(s[s.len() - 1] != SLASH);
        let t = s.drop_last();
        assert(forall|j: int| cut <= j < t.len() ==> t[j] == s[j]);
        lemma_after_last_slash(t, cut);
        assert(after_last_slash(s) == after_last_slash(t).push(s[s.len() - 1]));
        assert(t.subrange(cut, t.len() as int).push(s[s.len() - 1]) =~= s.subrange(
            cut,
            s.len() as int,
        ));
    }
}

/// Renders one frame as `name@filename:line`.
pub fn render_frame(f: &FrameInfo) -> (r: Vec<u8>)
    ensures
        r@ == rendered_frame(*f),
{
    let mut r = resolve_name_bytes(&f.name);
    r.push(AT);
    let src = resolve_text_bytes(&f.source);
    let mut fname = get_filename(&src);
    r.append(&mut fname);
    r.push(COLON);
    let mut dec = i32_to_dec(f.line);
    r.append(&mut dec);
    proof {
        assert(r@ =~= rendered_frame(*f));
    }
    r
}

} // verus!
