//! Identification of MP4 audio files by their major brand.
use crate::file::FileFormat;
use vstd::prelude::*;

verus! {

/// MP4 audio file reader.
#[derive(Debug, Clone, Copy, PartialEq, Eq, Structural)]
pub struct Mp4;

/// The bytes `ftyp` of the file type box.
pub open spec fn ftyp_bytes() -> Seq<u8> {
    seq![102u8, 116, 121, 112]
}

/// The major brand `mp42`.
pub open spec fn mp42_brand() -> Seq<u8> {
    seq![109u8, 112, 52, 50]
}

/// The major brand `M4A ` of Apple audio.
pub open spec fn m4a_brand() -> Seq<u8> {
    seq![77u8, 52, 65, 32]
}

/// Whether `b` opens an MP4 audio file: at least 12 bytes, a file type box
/// (`ftyp` at offset 4) whose major brand (offset 8) is `mp42` or `M4A `.
pub open spec fn is_mp4_audio(b: Seq<u8>) -> bool {
    &&& b.len() >= 12
    &&& b.subrange(4, 8) == ftyp_bytes()
    &&& (b.subrange(8, 12) == mp42_brand() || b.subrange(8, 12) == m4a_brand())
}

fn same4(b: &[u8], p: usize, c0: u8, c1: u8, c2: u8, c3: u8) -> (r: bool)
    requires
        p + 4 <= b@.len(),
    ensures
        r == (b@.subrange(p as int, p + 4) == seq![c0, c1, c2, c3]),
{
    let r = b[p] == c0 && b[p + 1] == c1 && b[p + 2] == c2 && b[p + 3] == c3;
    proof {
        let s = b@.subrange(p as int, p + 4);
        if r {
            assert(s =~= seq![c0, c1, c2, c3]);
        } else if s == seq![c0, c1, c2, c3] {
            assert(s[0] == b@[p as int]);
            assert(s[1] == b@[p + 1]);
            assert(s[2] == b@[p + 2]);
            assert(s[3] == b@[p + 3]);
        }
    }
    r
}

/// Identifies MP4 audio files by the major brand of their file type box.
/// Wants 12 bytes: returns `None` when `b` is shorter.
pub fn identify(b: &[u8]) -> (r: Option<FileFormat>)
    ensures
        r is Some <==> is_mp4_audio(b@),
        r matches Some(f) ==> f is MP4A,
{
    if b.len() >= 12 && same4(b, 4, 102, 116, 121, 112) {
        if same4(b, 8, 109, 112, 52, 50) || same4(b, 8, 77, 52, 65, 32) {
            return Some(FileFormat::MP4A(Mp4));
        }
    }
    None
}

} // verus!
