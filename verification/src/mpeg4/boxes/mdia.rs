//! Reader for the media header box.
use crate::mpeg4::boxes::{be16, be32, be64, read_u16, read_u32, read_u64, MP4Box, FULL_BOX_HEADER_SIZE};
use vstd::prelude::*;

verus! {

/// Bytes a media header box of `version` needs for its fields.
pub open spec fn mdhd_size(version: u8) -> nat {
    if version == 1 {
        42
    } else {
        30
    }
}

/// Media Header Box
/// creation and modification times are seconds since midnight 1/1/1904 in UTC.
/// creation: Creation of the track.
/// modification: Last modification of the track.
/// timescale: number of units that pass in a second.
/// duration: in units of the timescale (e.g. samples);
/// language: ISO 639-2/T, three five-bit characters in 16 bits.
/// Version 1 stores the times and the duration in 64 bits, version 0 in 32.
/// The box is a full box (it has a version). Returns false, changing nothing,
/// when it is too short for its fields.
pub fn get_mdhd(
    bx: &MP4Box,
    creation: &mut u64,
    modification: &mut u64,
    timescale: &mut u32,
    duration: &mut u64,
    language: &mut u16,
) -> (ok: bool)
    requires
        bx@.version_flag is Some,
    ensures
        ok == (bx@.version_flag matches Some(vf) && bx@.data.len() >= mdhd_size(vf.version)),
        ok && bx@.version_flag->0.version == 1 ==> {
            let d = bx@.data;
            &&& *final(creation) == be64(d, 12)
            &&& *final(modification) == be64(d, 20)
            &&& *final(timescale) == be32(d, 28)
            &&& *final(duration) == be64(d, 32)
            &&& *final(language) == be16(d, 40)
        },
        ok && bx@.version_flag->0.version != 1 ==> {
            let d = bx@.data;
            &&& *final(creation) == be32(d, 12)
            &&& *final(modification) == be32(d, 16)
            &&& *final(timescale) == be32(d, 20)
            &&& *final(duration) == be32(d, 24)
            &&& *final(language) == be16(d, 28)
        },
        !ok ==> *final(creation) == *old(creation) && *final(modification) == *old(modification)
            && *final(timescale) == *old(timescale) && *final(duration) == *old(duration)
            && *final(language) == *old(language),
{
    let b = bx.buf;
    let p = FULL_BOX_HEADER_SIZE;
    match &bx.version_flag {
        None => false,
        Some(vf) => {
            if vf.version == 1 {
                if b.len() < 42 {
                    return false;
                }
                *creation = read_u64(b, p);
                *modification = read_u64(b, p + 8);
                *timescale = read_u32(b, p + 16);
                *duration = read_u64(b, p + 20);
                *language = read_u16(b, p + 28);
            } else {
                if b.len() < 30 {
                    return false;
                }
                *creation = read_u32(b, p) as u64;
                *modification = read_u32(b, p + 4) as u64;
                *timescale = read_u32(b, p + 8);
                *duration = read_u32(b, p + 12) as u64;
                *language = read_u16(b, p + 16);
            }
            true
        },
    }
}

} // verus!
