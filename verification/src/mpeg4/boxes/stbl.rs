//! Reader functionality for the sample table and its descendents.
use crate::mpeg4::boxes::{
    be16, be32, read_u16, read_u32, MP4Box, BOX_HEADER_SIZE, FULL_BOX_HEADER_SIZE,
};
use crate::mpeg4::formats::{
    audio_object_type_of, channel_config_of, AudioObjectTypes, ChannelConfig,
};
use vstd::prelude::*;

verus! {

/// Bytes an MP4A audio sample entry needs for the fields read from it.
pub const MP4A_READ_SIZE: usize = 36;

/// Read the basic sound format data out of an MP4A Audio Sample Entry Box
/// (version 0 of the QuickTime sound description):
/// after the box header come 6 reserved bytes, the data reference index,
/// version, revision level and vendor, then the number of channels and the
/// sample size, compression id and packet size, and the sample rate as a
/// 16.16 fixed point number.
pub fn read_mp4a(bx: &MP4Box, channels: &mut u16, sample_size: &mut u16, sample_rate: &mut u32)
    requires
        bx@.data.len() >= MP4A_READ_SIZE,
    ensures
        *final(channels) == be16(bx@.data, 24),
        *final(sample_size) == be16(bx@.data, 26),
        *final(sample_rate) == be32(bx@.data, 32),
{
    let b = bx.buf;
    *channels = read_u16(b, BOX_HEADER_SIZE + 16);
    *sample_size = read_u16(b, BOX_HEADER_SIZE + 18);
    *sample_rate = read_u32(b, BOX_HEADER_SIZE + 24);
}

/// Sampling frequencies by index, 13 to 15 are reserved or explicit.
pub open spec fn sample_frequency(i: int) -> u32 {
    if i == 0 {
        96_000
    } else if i == 1 {
        88_200
    } else if i == 2 {
        64_000
    } else if i == 3 {
        48_000
    } else if i == 4 {
        44_100
    } else if i == 5 {
        32000
    } else if i == 6 {
        24_000
    } else if i == 7 {
        22_050
    } else if i == 8 {
        16_000
    } else if i == 9 {
        12_000
    } else if i == 10 {
        11_025
    } else if i == 11 {
        8_000
    } else if i == 12 {
        7_350
    } else {
        0
    }
}

fn sample_frequency_at(i: u8) -> (r: u32)
    requires
        i < 16,
    ensures
        r == sample_frequency(i as int),
{
    let table: [u32; 16] = [
        96_000,
        88_200,
        64_000,
        48_000,
        44_100,
        32000,
        24_000,
        22_050,
        16_000,
        12_000,
        11_025,
        8_000,
        7_350,
        0,
        0,
        0,
    ];
    table[i as usize]
}

/// What the elementary stream descriptor box tells of the audio.
#[derive(Debug, Clone, Copy, PartialEq, Eq, Structural)]
pub struct EsdsFields {
    pub decoder: u8,
    pub avg_bitrate: u32,
    pub max_bitrate: u32,
    pub codec: AudioObjectTypes,
    pub sample_frequency: u32,
    pub channel_config: ChannelConfig,
}

/// The length of a descriptor: up to four bytes, seven bits each, the last
/// one with its top bit clear. Reading stops with length 0 at the end of the
/// buffer. Gives the length and the position after it.
pub open spec fn descriptor_length(s: Seq<u8>, p: int, k: nat, acc: nat) -> (nat, int)
    decreases 4 - k,
{
    if k >= 4 {
        (acc, p)
    } else if p >= s.len() {
        (0, p)
    } else {
        let l = s[p];
        let acc2 = acc * 128 + (l % 128) as nat;
        if l < 128 {
            (acc2, p + 1)
        } else {
            descriptor_length(s, p + 1, k + 1, acc2)
        }
    }
}

/// The audio specific config of `length` bytes at `p` (2, 3, 5 or 6 bytes;
/// for any other length nothing is read and the values are cleared).
/// Gives the new position and fields, `None` when the buffer is too short.
pub open spec fn audio_specific_config(s: Seq<u8>, p: int, length: nat, f: EsdsFields) -> Option<
    (int, EsdsFields),
> {
    if length == 2 {
        if p + 2 > s.len() {
            None
        } else {
            let bits = be16(s, p);
            Some(
                (
                    p + 2,
                    EsdsFields {
                        codec: audio_object_type_of((bits / 2048) as u8),
                        channel_config: channel_config_of(((bits / 8) % 16) as u8),
                        sample_frequency: sample_frequency((bits / 128) % 16),
                        ..f
                    },
                ),
            )
        }
    } else if length == 3 {
        if p + 3 > s.len() {
            None
        } else {
            Some(
                (
                    p + 3,
                    EsdsFields {
                        codec: audio_object_type_of((32 + (be16(s, p) / 32) % 64) as u8),
                        channel_config: channel_config_of(((be16(s, p + 1) / 32) % 16) as u8),
                        sample_frequency: sample_frequency(((s[p + 1] / 2) % 16) as int),
                        ..f
                    },
                ),
            )
        }
    } else if length == 5 {
        if p + 5 > s.len() {
            None
        } else {
            Some(
                (
                    p + 5,
                    EsdsFields {
                        codec: audio_object_type_of((s[p] / 8) as u8),
                        sample_frequency: ((be32(s, p + 1) / 128) % 0x100_0000) as u32,
                        channel_config: channel_config_of(((s[p + 4] / 8) % 16) as u8),
                        ..f
                    },
                ),
            )
        }
    } else if length == 6 {
        if p + 6 > s.len() {
            None
        } else {
            Some(
                (
                    p + 6,
                    EsdsFields {
                        codec: audio_object_type_of((32 + (be16(s, p) / 32) % 64) as u8),
                        sample_frequency: ((be32(s, p + 1) / 2) % 0x100_0000) as u32,
                        channel_config: channel_config_of(((be16(s, p + 4) / 32) % 16) as u8),
                        ..f
                    },
                ),
            )
        }
    } else {
        Some(
            (
                p,
                EsdsFields {
                    codec: AudioObjectTypes::Null,
                    sample_frequency: 0,
                    channel_config: ChannelConfig::Unknown,
                    ..f
                },
            ),
        )
    }
}

/// The end of an ES descriptor body at `p`: ES id and flags, then the
/// dependent stream id, the URL and the OCR stream id as the flags announce
/// them. `None` when the buffer is too short.
pub open spec fn es_descriptor_end(s: Seq<u8>, p: int) -> Option<int> {
    if p + 3 > s.len() {
        None
    } else {
        let flags = s[p + 2];
        let q1 = if flags >= 128 { p + 5 } else { p + 3 };
        if q1 > s.len() {
            None
        } else {
            let q2 = if (flags / 64) % 2 == 1 {
                if q1 + 1 > s.len() {
                    -1
                } else {
                    q1 + 1 + s[q1]
                }
            } else {
                q1
            };
            if q2 < 0 || q2 > s.len() {
                None
            } else {
                let q3 = if (flags / 32) % 2 == 1 { q2 + 2 } else { q2 };
                if q3 > s.len() {
                    None
                } else {
                    Some(q3)
                }
            }
        }
    }
}

/// One descriptor at `p`: its tag, its length, and the body read by tag
/// (3: ES descriptor, 4: decoder config, 5: audio specific config, 6: one
/// byte; any other tag reads no body). `None` when the buffer is too short.
#[verifier::opaque]
pub open spec fn esds_step(s: Seq<u8>, p: int, f: EsdsFields) -> Option<(int, EsdsFields)> {
    let tag = s[p];
    let (length, q) = descriptor_length(s, p + 1, 0, 0);
    if tag == 3 {
        match es_descriptor_end(s, q) {
            None => None,
            Some(e) => Some((e, f)),
        }
    } else if tag == 4 {
        if q + 13 > s.len() {
            None
        } else {
            Some(
                (
                    q + 13,
                    EsdsFields {
                        decoder: s[q],
                        max_bitrate: be32(s, q + 5) as u32,
                        avg_bitrate: be32(s, q + 9) as u32,
                        ..f
                    },
                ),
            )
        }
    } else if tag == 5 {
        audio_specific_config(s, q, length, f)
    } else if tag == 6 {
        if q + 1 > s.len() {
            None
        } else {
            Some((q + 1, f))
        }
    } else {
        Some((q, f))
    }
}

/// Reading the descriptors from `p` while more than two bytes are left, or
/// until a descriptor does not fit in the buffer.
pub open spec fn esds_walk(s: Seq<u8>, p: int, f: EsdsFields) -> EsdsFields
    decreases s.len() - p,
{
    if p < 0 || s.len() - p <= 2 {
        f
    } else {
        match esds_step(s, p, f) {
            None => f,
            Some((q, g)) => if p < q <= s.len() {
                esds_walk(s, q, g)
            } else {
                g
            },
        }
    }
}

fn read_descriptor_length(b: &[u8], p: usize) -> (r: (u32, usize))
    requires
        p <= b@.len(),
    ensures
        r.0 as nat == descriptor_length(b@, p as int, 0, 0).0,
        r.1 as int == descriptor_length(b@, p as int, 0, 0).1,
        p <= r.1 <= b@.len(),
        r.0 < 0x1000_0000,
{
    let len = b.len();
    let mut length: u32 = 0;
    let mut q = p;
    let mut k: usize = 0;
    while k < 4
        invariant
            len == b@.len(),
            p <= q <= len,
            k <= 4,
            q == p + k,
            length < pow128(k as nat),
            descriptor_length(b@, p as int, 0, 0) == descriptor_length(
                b@,
                q as int,
                k as nat,
                length as nat,
            ),
        decreases 4 - k,
    {
        if q >= len {
            return (0, q);
        }
        let l = b[q];
        proof {
            lemma_pow128_step(k as nat, length as nat, (l % 128) as nat);
        }
        length = length * 128 + (l % 128) as u32;
        q = q + 1;
        k = k + 1;
        if l < 128 {
            return (length, q);
        }
    }
    (length, q)
}

/// `128` to the power `k`, for `k` up to four.
pub open spec fn pow128(k: nat) -> nat {
    if k == 0 {
        1
    } else if k == 1 {
        128
    } else if k == 2 {
        16384
    } else if k == 3 {
        2097152
    } else {
        0x1000_0000
    }
}

proof fn lemma_pow128_step(k: nat, a: nat, d: nat)
    requires
        k < 4,
        a < pow128(k),
        d < 128,
    ensures
        a * 128 + d < pow128(k + 1),
{
}

fn read_es_descriptor(b: &[u8], p: usize) -> (r: Option<usize>)
    requires
        p <= b@.len(),
    ensures
        match es_descriptor_end(b@, p as int) {
            None => r is None,
            Some(e) => r == Some(e as usize),
        },
{
    let len = b.len();
    if len - p < 3 {
        return None;
    }
    let flags = b[p + 2];
    let mut q = p + 3;
    if flags >= 128 {
        if len - q < 2 {
            return None;
        }
        q = q + 2;
    }
    if (flags / 64) % 2 == 1 {
        if len - q < 1 {
            return None;
        }
        let ul = b[q] as usize;
        q = q + 1;
        if len - q < ul {
            return None;
        }
        q = q + ul;
    }
    if (flags / 32) % 2 == 1 {
        if len - q < 2 {
            return None;
        }
        q = q + 2;
    }
    Some(q)
}

fn read_audio_specific_config(b: &[u8], p: usize, length: u32, f: EsdsFields) -> (r: Option<
    (usize, EsdsFields),
>)
    requires
        p <= b@.len(),
    ensures
        match audio_specific_config(b@, p as int, length as nat, f) {
            None => r is None,
            Some((q, g)) => r == Some((q as usize, g)),
        },
{
    let len = b.len();
    if length == 2 {
        if len - p < 2 {
            return None;
        }
        let bits = read_u16(b, p);
        let fi = ((bits / 128) % 16) as u8;
        Some(
            (
                p + 2,
                EsdsFields {
                    codec: AudioObjectTypes::from((bits / 2048) as u8),
                    channel_config: ChannelConfig::from(((bits / 8) % 16) as u8),
                    sample_frequency: sample_frequency_at(fi),
                    ..f
                },
            ),
        )
    } else if length == 3 {
        if len - p < 3 {
            return None;
        }
        let w0 = read_u16(b, p);
        let w1 = read_u16(b, p + 1);
        let fi = (b[p + 1] / 2) % 16;
        Some(
            (
                p + 3,
                EsdsFields {
                    codec: AudioObjectTypes::from((32 + (w0 / 32) % 64) as u8),
                    channel_config: ChannelConfig::from(((w1 / 32) % 16) as u8),
                    sample_frequency: sample_frequency_at(fi),
                    ..f
                },
            ),
        )
    } else if length == 5 {
        if len - p < 5 {
            return None;
        }
        let w = read_u32(b, p + 1);
        Some(
            (
                p + 5,
                EsdsFields {
                    codec: AudioObjectTypes::from(b[p] / 8),
                    sample_frequency: (w / 128) % 0x100_0000,
                    channel_config: ChannelConfig::from((b[p + 4] / 8) % 16),
                    ..f
                },
            ),
        )
    } else if length == 6 {
        if len - p < 6 {
            return None;
        }
        let w0 = read_u16(b, p);
        let w = read_u32(b, p + 1);
        let w4 = read_u16(b, p + 4);
        Some(
            (
                p + 6,
                EsdsFields {
                    codec: AudioObjectTypes::from((32 + (w0 / 32) % 64) as u8),
                    sample_frequency: (w / 2) % 0x100_0000,
                    channel_config: ChannelConfig::from(((w4 / 32) % 16) as u8),
                    ..f
                },
            ),
        )
    } else {
        Some(
            (
                p,
                EsdsFields {
                    codec: AudioObjectTypes::Null,
                    sample_frequency: 0,
                    channel_config: ChannelConfig::Unknown,
                    ..f
                },
            ),
        )
    }
}

/// Reads the descriptors of an elementary stream descriptor box, starting
/// after its full box header, into `f` (see `esds_walk`). The decoder config
/// descriptor gives decoder and bitrates, the audio specific config the codec,
/// sampling frequency and channel configuration.
pub fn read_esds(bx: &MP4Box, f: &mut EsdsFields)
    ensures
        *final(f) == esds_walk(bx@.data, FULL_BOX_HEADER_SIZE as int, *old(f)),
{
    let b = bx.buf;
    let len = b.len();
    if len < FULL_BOX_HEADER_SIZE {
        return;
    }
    let mut p: usize = FULL_BOX_HEADER_SIZE;
    while len - p > 2
        invariant
            len == b@.len(),
            b@ == bx@.data,
            p <= len,
            esds_walk(b@, FULL_BOX_HEADER_SIZE as int, *old(f)) == esds_walk(b@, p as int, *f),
        decreases len - p,
    {
        let tag = b[p];
        let (length, q) = read_descriptor_length(b, p + 1);
        let step: Option<(usize, EsdsFields)> = if tag == 3 {
            match read_es_descriptor(b, q) {
                None => None,
                Some(e) => Some((e, *f)),
            }
        } else if tag == 4 {
            if len - q < 13 {
                None
            } else {
                Some(
                    (
                        q + 13,
                        EsdsFields {
                            decoder: b[q],
                            max_bitrate: read_u32(b, q + 5),
                            avg_bitrate: read_u32(b, q + 9),
                            ..*f
                        },
                    ),
                )
            }
        } else if tag == 5 {
            read_audio_specific_config(b, q, length, *f)
        } else if tag == 6 {
            if len - q < 1 {
                None
            } else {
                Some((q + 1, *f))
            }
        } else {
            Some((q, *f))
        };
        proof {
            reveal(esds_step);
        }
        assert(step matches Some((q2, g)) ==> esds_step(b@, p as int, *f) == Some((q2 as int, g)));
        assert(step is None ==> esds_step(b@, p as int, *f) is None);
        match step {
            None => {
                return;
            },
            Some((q2, g)) => {
                *f = g;
                p = q2;
            },
        }
    }
}

/// Reads the scheme type of a protection scheme box: the four character
/// code after its full box header.
pub fn read_schm(bx: &MP4Box, scheme: &mut u32)
    ensures
        bx@.data.len() >= FULL_BOX_HEADER_SIZE + 4 ==> *final(scheme) == be32(
            bx@.data,
            FULL_BOX_HEADER_SIZE as int,
        ),
        bx@.data.len() < FULL_BOX_HEADER_SIZE + 4 ==> *final(scheme) == *old(scheme),
{
    let b = bx.buf;
    if b.len() >= FULL_BOX_HEADER_SIZE + 4 {
        *scheme = read_u32(b, FULL_BOX_HEADER_SIZE);
    }
}

/// Bytes a sample description box needs for the fields of its first (audio) entry.
pub open spec fn stsd_audio_read_size() -> nat {
    50
}

/// Retrieve sample description data from an 'stsd' box directly into the
/// provided references: the entry's four character format, channels, bits per
/// sample and sample rate. The QuickTime encoding version is read into
/// `qt_enc_ver` only when it already holds a value. Reads nothing and returns
/// false when the box is too short for these fields.
pub fn get_audio_stsd(
    bx: &MP4Box,
    format: &mut [u8; 4],
    channels: &mut u16,
    sample_size: &mut u16,
    sample_rate: &mut u32,
    qt_enc_ver: &mut Option<u16>,
) -> (ok: bool)
    ensures
        ok == (bx@.data.len() >= stsd_audio_read_size()),
        ok ==> final(format)@ == bx@.data.subrange(20, 24),
        ok ==> *final(channels) == be16(bx@.data, 40),
        ok ==> *final(sample_size) == be16(bx@.data, 42),
        ok ==> *final(sample_rate) == be32(bx@.data, 46),
        ok ==> *final(qt_enc_ver) == (match *old(qt_enc_ver) {
            Some(_) => Some(be16(bx@.data, 32) as u16),
            None => None,
        }),
        !ok ==> *final(format) == *old(format) && *final(channels) == *old(channels)
            && *final(sample_size) == *old(sample_size) && *final(sample_rate) == *old(
            sample_rate,
        ) && *final(qt_enc_ver) == *old(qt_enc_ver),
{
    let b = bx.buf;
    if b.len() < 50 {
        return false;
    }
    *format = [b[20], b[21], b[22], b[23]];
    assert(final(format)@ =~= bx@.data.subrange(20, 24));
    if qt_enc_ver.is_some() {
        *qt_enc_ver = Some(read_u16(b, 32));
    }
    *channels = read_u16(b, 40);
    *sample_size = read_u16(b, 42);
    *sample_rate = read_u32(b, 46);
    true
}

/// `get_audio_stsd` without the QuickTime encoding version.
pub fn get_short_audio_stsd(
    bx: &MP4Box,
    format: &mut [u8; 4],
    channels: &mut u16,
    sample_size: &mut u16,
    sample_rate: &mut u32,
) -> (ok: bool)
    ensures
        ok == (bx@.data.len() >= stsd_audio_read_size()),
        ok ==> final(format)@ == bx@.data.subrange(20, 24),
        ok ==> *final(channels) == be16(bx@.data, 40),
        ok ==> *final(sample_size) == be16(bx@.data, 42),
        ok ==> *final(sample_rate) == be32(bx@.data, 46),
        !ok ==> *final(format) == *old(format) && *final(channels) == *old(channels)
            && *final(sample_size) == *old(sample_size) && *final(sample_rate) == *old(
            sample_rate,
        ),
{
    let mut none: Option<u16> = None;
    get_audio_stsd(bx, format, channels, sample_size, sample_rate, &mut none)
}

} // verus!
