//! The serializer: walks the frame snapshots innermost first, filters and
//! formats each through the frame module, and writes the result through the
//! bounded writer, stopping at the first truncation.

use vstd::prelude::*;

use crate::frame::FrameInfo;
use crate::frame::frame_text;
use crate::frame::is_displayed;
use crate::frame::is_native_source;
use crate::frame::render_frame;
use crate::frame::resolve_text_bytes;
use crate::frame::resolved_source;
use crate::text::SPACE;
use crate::writer::OutputBuffer;
use crate::writer::Truncated;

verus! {

/// Everything the first `n` frames render to, in order: each displayed
/// frame's text, space-joined — the joining space comes only between
/// rendered frames, so a filtered frame leaves no trace at all.
pub open spec fn full_text_upto(frames: Seq<FrameInfo>, n: int) -> Seq<u8>
    decreases n,
{
    if n <= 0 {
        Seq::empty()
    } else {
        let prev = full_text_upto(frames, n - 1);
        prev + frame_text(frames[n - 1], prev.len() == 0)
    }
}

/// Everything the given stack renders to, with no capacity bound: the
/// space-joined rendering of every displayed frame.
pub open spec fn full_text(frames: Seq<FrameInfo>) -> Seq<u8> {
    full_text_upto(frames, frames.len() as int)
}

/// What fewer frames render to is a prefix of what more frames render to.
pub proof fn lemma_full_text_upto_prefix(frames: Seq<FrameInfo>, n: int, m: int)
    requires
        0 <= n <= m <= frames.len(),
    ensures
        full_text_upto(frames, n).is_prefix_of(full_text_upto(frames, m)),
    decreases m - n,
{
    if n < m {
        lemma_full_text_upto_prefix(frames, n, m - 1);
        assert(full_text_upto(frames, n).is_prefix_of(full_text_upto(frames, m - 1)
            + frame_text(frames[m - 1], full_text_upto(frames, m - 1).len() == 0)));
    }
}

/// A stack with no frames renders to nothing.
pub proof fn lemma_empty_stack_renders_nothing(frames: Seq<FrameInfo>)
    requires
        frames.len() == 0,
    ensures
        full_text(frames) == Seq::<u8>::empty(),
{
}

/// A stack of native frames alone renders to nothing: every frame is
/// filtered out.
pub proof fn lemma_native_only_renders_nothing(frames: Seq<FrameInfo>)
    requires
        forall|i: int| 0 <= i < frames.len() ==> !is_displayed(frames[i]),
    ensures
        full_text(frames) == Seq::<u8>::empty(),
{
    lemma_native_only_upto(frames, frames.len() as int);
}

proof fn lemma_native_only_upto(frames: Seq<FrameInfo>, n: int)
    requires
        n <= frames.len(),
        forall|i: int| 0 <= i < frames.len() ==> !is_displayed(frames[i]),
    ensures
        full_text_upto(frames, n) == Seq::<u8>::empty(),
    decreases n,
{
    if n > 0 {
        lemma_native_only_upto(frames, n - 1);
        assert(full_text_upto(frames, n) =~= Seq::<u8>::empty());
    }
}

/// Walks the frames from the innermost outward, skips the native ones, and
/// writes each rendered frame through the bounded writer. Stops at the
/// first truncation and signals it; everything that fits before the
/// reserved terminator byte is written, and nothing more.
pub fn dump_stack(frames: &Vec<FrameInfo>, out: &mut OutputBuffer) -> (r: Result<(), Truncated>)
    requires
        old(out).wf(),
        old(out).pos_spec() == 0,
        !old(out).truncated_spec(),
    ensures
        final(out).wf(),
        final(out).capacity_spec() == old(out).capacity_spec(),
        ({
            let full = full_text(frames@);
            let cap1 = old(out).capacity_spec() - 1;
            &&& (r is Ok <==> full.len() <= cap1)
            &&& (final(out).truncated_spec() <==> full.len() > cap1)
            &&& final(out).pos_spec() == vstd::math::min(full.len() as int, cap1)
            &&& final(out).written() == full.subrange(0, final(out).pos_spec())
        }),
{
    let ghost cap1 = old(out).capacity_spec() - 1;
    let mut level: usize = 0;
    while level < frames.len()
        invariant
            out.wf(),
            cap1 == old(out).capacity_spec() - 1,
            out.capacity_spec() == cap1 + 1,
            level <= frames.len(),
            !out.truncated_spec(),
            out.pos_spec() == full_text_upto(frames@, level as int).len(),
            out.written() == full_text_upto(frames@, level as int),
        decreases frames.len() - level,
    {
        let f = &frames[level];
        let rsrc = resolve_text_bytes(&f.source);
        if is_native_source(&rsrc) {
            proof {
                assert(rsrc@ == resolved_source(frames@[level as int]));
                assert(full_text_upto(frames@, level + 1) =~= full_text_upto(
                    frames@,
                    level as int,
                ));
            }
            level += 1;
            continue;
        }
        let mut piece: Vec<u8> = Vec::new();
        if out.position() > 0 {
            piece.push(SPACE);
        }
        let mut body = render_frame(f);
        piece.append(&mut body);
        proof {
            assert(piece@ =~= frame_text(
                frames@[level as int],
                full_text_upto(frames@, level as int).len() == 0,
            ));
        }
        let ghost before = *out;
        match out.write(&piece) {
            Result::Ok(()) => {
                proof {
                    assert(full_text_upto(frames@, level + 1) =~= before.written() + piece@);
                }
                level += 1;
            },
            Result::Err(t) => {
                proof {
                    let full = full_text(frames@);
                    lemma_full_text_upto_prefix(frames@, level + 1, frames@.len() as int);
                    assert(full_text_upto(frames@, level + 1) =~= before.written() + piece@);
                    assert(out.written() =~= full_text_upto(frames@, level + 1).subrange(
                        0,
                        cap1,
                    ));
                    assert(out.written() =~= full.subrange(0, cap1));
                    assert(full.len() >= full_text_upto(frames@, level + 1).len() > cap1);
                }
                return Result::Err(t);
            },
        }
    }
    proof {
        assert(full_text(frames@) == full_text_upto(frames@, frames@.len() as int));
    }
    Result::Ok(())
}

/// How one serialization ended: the whole trace fit (`Complete`), the
/// buffer took only a prefix (`Truncated`), or the buffer contract itself
/// failed and the output was reset to empty (`Failed`). The first two carry
/// the number of text bytes written.
#[derive(Clone, Copy, PartialEq, Eq, Structural, Debug)]
pub enum SerializeOutcome {
    Complete(usize),
    Truncated(usize),
    Failed,
}

/// What a finished serialization leaves in the buffer, whatever state the
/// buffer started in: exactly the longest prefix of the stack's full
/// rendering that fits before the reserved terminator byte, a zero tail
/// behind it, and the truncation flag set exactly when the rendering was
/// cut.
pub open spec fn serialize_post(frames: Seq<FrameInfo>, out: OutputBuffer) -> bool {
    let full = full_text(frames);
    let cap1 = out.capacity_spec() - 1;
    &&& out.wf()
    &&& out.pos_spec() == vstd::math::min(full.len() as int, cap1)
    &&& out.written() == full.subrange(0, out.pos_spec())
    &&& out.bytes()[out.pos_spec()] == 0
    &&& (out.truncated_spec() <==> full.len() > cap1)
}

/// Serializes the whole stack: zero-fills the buffer, walks and writes the
/// frames, and reports how it ended with the byte count. The count is the
/// full rendering's length when it fit, and `capacity - 1` when the output
/// was cut; either way the buffer holds exactly that prefix, terminated.
/// The verified walk cannot fail, so `Failed` is never returned.
pub fn serialize_stack(frames: &Vec<FrameInfo>, out: &mut OutputBuffer) -> (r: SerializeOutcome)
    requires
        old(out).wf(),
    ensures
        final(out).capacity_spec() == old(out).capacity_spec(),
        serialize_post(frames@, *final(out)),
        ({
            let full = full_text(frames@);
            let cap1 = old(out).capacity_spec() - 1;
            if full.len() <= cap1 {
                r == SerializeOutcome::Complete(full.len() as usize)
            } else {
                r == SerializeOutcome::Truncated(cap1 as usize)
            }
        }),
{
    out.reset();
    match dump_stack(frames, out) {
        Result::Ok(()) => SerializeOutcome::Complete(out.position()),
        Result::Err(Truncated) => SerializeOutcome::Truncated(out.position()),
    }
}

/// The stable integer encoding of an outcome for the foreign boundary: the
/// byte count on completion or truncation, the sentinel `1` on failure.
pub fn boundary_code(r: SerializeOutcome) -> (c: i32)
    requires
        (match r {
            SerializeOutcome::Complete(n) => n <= 0x7fff_ffff,
            SerializeOutcome::Truncated(n) => n <= 0x7fff_ffff,
            SerializeOutcome::Failed => true,
        }),
    ensures
        (match r {
            SerializeOutcome::Complete(n) => c == n as i32,
            SerializeOutcome::Truncated(n) => c == n as i32,
            SerializeOutcome::Failed => c == 1,
        }),
{
    match r {
        SerializeOutcome::Complete(n) => n as i32,
        SerializeOutcome::Truncated(n) => n as i32,
        SerializeOutcome::Failed => 1,
    }
}

/// Serialization is deterministic, so repeating it is idempotent: two runs
/// over the same stack into buffers of the same capacity leave the two
/// buffers byte-for-byte identical, cursor and truncation flag included.
pub proof fn lemma_serialize_idempotent(frames: Seq<FrameInfo>, a: OutputBuffer, b: OutputBuffer)
    requires
        serialize_post(frames, a),
        serialize_post(frames, b),
        a.capacity_spec() == b.capacity_spec(),
    ensures
        a.pos_spec() == b.pos_spec(),
        a.truncated_spec() == b.truncated_spec(),
        a.bytes() == b.bytes(),
{
    assert forall|i: int| 0 <= i < a.bytes().len() implies a.bytes()[i] == b.bytes()[i] by {
        if i < a.pos_spec() {
            assert(a.bytes()[i] == a.written()[i]);
            assert(b.bytes()[i] == b.written()[i]);
        }
    }
    assert(a.bytes() =~= b.bytes());
}

} // verus!
