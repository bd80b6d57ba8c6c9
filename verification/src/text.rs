//! Byte-level text helpers: the literal markers the formatter emits,
//! decimal rendering of line numbers, and UTF-8 classification of the
//! raw byte strings handed over by the scripting runtime.

use vstd::prelude::*;

verus! {

/// `' '`, the separator between rendered frames.
pub const SPACE: u8 = 32;

/// `'@'`, between a frame's name and its filename.
pub const AT: u8 = 64;

/// `':'`, between a frame's filename and its line number.
pub const COLON: u8 = 58;

/// `'/'`, the path separator used for filename extraction.
pub const SLASH: u8 = 47;

/// `'-'`, the sign of a negative line number.
pub const MINUS: u8 = 45;

/// The bytes of `"[anonymous]"`, shown for a frame without a name.
pub open spec fn anonymous_marker() -> Seq<u8> {
    seq![91u8, 97u8, 110u8, 111u8, 110u8, 121u8, 109u8, 111u8, 117u8, 115u8, 93u8]
}

/// The bytes of `"[invalid utf8]"`, shown for a byte string that does not
/// decode as text.
pub open spec fn invalid_utf8_marker() -> Seq<u8> {
    seq![91u8, 105u8, 110u8, 118u8, 97u8, 108u8, 105u8, 100u8, 32u8, 117u8, 116u8, 102u8, 56u8, 93u8]
}

/// The bytes of `"=[C]"`, the runtime's sentinel source for a native frame.
pub open spec fn native_marker() -> Seq<u8> {
    seq![61u8, 91u8, 67u8, 93u8]
}

/// The bytes of `"[C]"`, the filename shown for the native sentinel.
pub open spec fn c_marker() -> Seq<u8> {
    seq![91u8, 67u8, 93u8]
}

pub fn anonymous_marker_bytes() -> (r: Vec<u8>)
    ensures
        r@ == anonymous_marker(),
{
    let mut r: Vec<u8> = Vec::new();
    r.push(91);
    r.push(97);
    r.push(110);
    r.push(111);
    r.push(110);
    r.push(121);
    r.push(109);
    r.push(111);
    r.push(117);
    r.push(115);
    r.push(93);
    proof {
        assert(r@ =~= anonymous_marker());
    }
    r
}

pub fn invalid_utf8_marker_bytes() -> (r: Vec<u8>)
    ensures
        r@ == invalid_utf8_marker(),
{
    let mut r: Vec<u8> = Vec::new();
    r.push(91);
    r.push(105);
    r.push(110);
    r.push(118);
    r.push(97);
    r.push(108);
    r.push(105);
    r.push(100);
    r.push(32);
    r.push(117);
    r.push(116);
    r.push(102);
    r.push(56);
    r.push(93);
    proof {
        assert(r@ =~= invalid_utf8_marker());
    }
    r
}

pub fn c_marker_bytes() -> (r: Vec<u8>)
    ensures
        r@ == c_marker(),
{
    let mut r: Vec<u8> = Vec::new();
    r.push(91);
    r.push(67);
    r.push(93);
    proof {
        assert(r@ =~= c_marker());
    }
    r
}

/// Whether a byte sequence is valid UTF-8; the meaning is fixed by
/// `core::str::from_utf8`, which `bytes_are_utf8` consults.
pub uninterp spec fn is_valid_utf8(b: Seq<u8>) -> bool;

/// Relies on `core::str::from_utf8`: it returns `Ok` exactly when the bytes
/// are valid UTF-8, a property of the bytes alone.
#[verifier::external_body]
pub(crate) fn bytes_are_utf8(b: &Vec<u8>) -> (r: bool)
    ensures
        r == is_valid_utf8(b@),
{
    core::str::from_utf8(b.as_slice()).is_ok()
}

/// A fresh copy of a byte string.
pub fn copy_bytes(b: &Vec<u8>) -> (r: Vec<u8>)
    ensures
        r@ == b@,
{
    let mut r: Vec<u8> = Vec::new();
    let mut i: usize = 0;
    while i < b.len()
        invariant
            i <= b.len(),
            r@ == b@.subrange(0, i as int),
        decreases b.len() - i,
    {
        r.push(b[i]);
        proof {
            assert(r@ =~= b@.subrange(0, i + 1));
        }
        i += 1;
    }
    proof {
        assert(b@.subrange(0, b@.len() as int) =~= b@);
    }
    r
}

/// The decimal digits of `n`, most significant first.
pub open spec fn dec_digits(n: nat) -> Seq<u8>
    decreases n,
{
    if n < 10 {
        seq![(48 + n) as u8]
    } else {
        dec_digits(n / 10).push((48 + n % 10) as u8)
    }
}

/// The decimal rendering of `n`: its digits, with a leading `'-'` when
/// `n` is negative.
pub open spec fn dec_of_int(n: int) -> Seq<u8> {
    if n < 0 {
        seq![MINUS].add(dec_digits((-n) as nat))
    } else {
        dec_digits(n as nat)
    }
}

/// Renders `m` in decimal.
pub fn u64_to_dec(m: u64) -> (r: Vec<u8>)
    ensures
        r@ == dec_digits(m as nat),
{
    let mut acc: Vec<u8> = Vec::new();
    let mut cur: u64 = m;
    while cur >= 10
        invariant
            dec_digits(m as nat) == dec_digits(cur as nat).add(acc@),
        decreases cur,
    {
        let ghost prev = acc@;
        let d: u8 = (cur % 10) as u8;
        let x: u8 = 48 + d;
        acc.insert(0, x);
        proof {
            assert(x == (48 + (cur as nat) % 10) as u8);
            assert(dec_digits(cur as nat) == dec_digits((cur as nat) / 10).push(x));
            assert(dec_digits((cur as nat) / 10).push(x).add(prev) =~= dec_digits(
                (cur as nat) / 10,
            ).add(acc@));
            assert((cur / 10) as nat == (cur as nat) / 10);
        }
        cur = cur / 10;
    }
    let ghost prev = acc@;
    let d: u8 = cur as u8;
    let x: u8 = 48 + d;
    acc.insert(0, x);
    proof {
        assert(dec_digits(cur as nat) == seq![x]);
        assert(dec_digits(cur as nat).add(prev) =~= acc@);
    }
    acc
}

/// Renders `n` in decimal, sign included.
pub fn i32_to_dec(n: i32) -> (r: Vec<u8>)
    ensures
        r@ == dec_of_int(n as int),
{
    if n < 0 {
        let m: u64 = (-(n as i64)) as u64;
        proof {
            assert(m as nat == (-(n as int)) as nat);
        }
        let mut r: Vec<u8> = Vec::new();
        r.push(MINUS);
        let mut digits = u64_to_dec(m);
        r.append(&mut digits);
        proof {
            assert(r@ =~= dec_of_int(n as int));
        }
        r
    } else {
        u64_to_dec(n as u64)
    }
}

} // verus!
