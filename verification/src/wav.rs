//! Interface to WAV file format reading.
//!
//! Wav files only provide basic format information, so really only the
//! sample format of the track: the title (and anything else) has to be set
//! on one's own.
use crate::file::FileFormat;
use crate::track::{CodecFormat, PCMFormat, Track};
use vstd::prelude::*;

verus! {

/// Wav file format reader.
#[derive(Debug, Clone, Copy, PartialEq, Eq, Structural)]
pub struct Wav;

/// The bytes `RIFF` that open a WAV file.
pub open spec fn riff_header() -> Seq<u8> {
    seq![82u8, 73, 70, 70]
}

/// The bytes `WAVE` at offset 8 of a WAV file.
pub open spec fn wave_header() -> Seq<u8> {
    seq![87u8, 65, 86, 69]
}

/// Whether `b` opens a WAV file: at least 12 bytes, `RIFF` first and `WAVE`
/// at offset 8.
pub open spec fn is_wav(b: Seq<u8>) -> bool {
    b.len() >= 12 && b.take(4) == riff_header() && b.subrange(8, 12) == wave_header()
}

/// Read the first 12 bytes of the buffer and return a `Wav` if this buffer has
/// the right identifier, `None` otherwise (also with fewer than 12 bytes).
pub fn identify(b: &[u8]) -> (r: Option<FileFormat>)
    ensures
        r is Some <==> is_wav(b@),
        r matches Some(f) ==> f is WAV,
{
    if b.len() >= 12 && b[0] == 82 && b[1] == 73 && b[2] == 70 && b[3] == 70 && b[8] == 87 && b[9]
        == 65 && b[10] == 86 && b[11] == 69 {
        assert(b@.take(4) =~= riff_header());
        assert(b@.subrange(8, 12) =~= wave_header());
        Some(FileFormat::WAV(Wav))
    } else {
        proof {
            if b@.len() >= 12 && b@.take(4) == riff_header() {
                assert(b@.take(4)[0] == b@[0]);
                assert(b@.take(4)[3] == b@[3]);
                assert(b@.subrange(8, 12)[0] == b@[8]);
                assert(b@.subrange(8, 12)[3] == b@[11]);
            }
            if b@.len() >= 12 && b@.subrange(8, 12) == wave_header() {
                assert(b@.take(4)[1] == b@[1]);
                assert(b@.take(4)[2] == b@[2]);
                assert(b@.subrange(8, 12)[1] == b@[9]);
                assert(b@.subrange(8, 12)[2] == b@[10]);
            }
        }
        None
    }
}

/// Whether `r` is the track of a WAV header with the sample rate, channels,
/// bits per sample and number of samples given: the PCM sample format and
/// the file format; nothing else is known.
pub open spec fn is_wav_track(r: Track, sample_rate: u32, channels: u16, bits_per_sample: u16, samples: u32) -> bool {
    &&& r.file_format matches Some(s) && s@ == "wav"@
    &&& r.format == Some(
        CodecFormat::PCM(
            PCMFormat {
                sample_rate,
                channels: (channels % 256) as u8,
                bits_per_sample,
                total_samples: samples as u64,
            },
        ),
    )
    &&& r.title is None && r.artist is None && r.album_artist is None && r.album is None
    &&& r.track_number is None && r.track_total is None
    &&& r.disk_number is None && r.disk_total is None
    &&& r.metadata is None
}

/// What `hound::WavReader::new` reads from the bytes of a WAV file: the
/// sample rate, channels and bits per sample of its format, and its duration
/// in samples per channel; `None` when it fails.
pub uninterp spec fn wav_header(b: Seq<u8>) -> Option<(u32, u16, u16, u32)>;

/// Reads the header of the WAV file `b` with `hound::WavReader::new`: the
/// sample rate, channels, bits per sample and duration it gives are named
/// `wav_header`; an error gives `None`.
#[verifier::external_body]
fn read_wav_spec(b: &[u8]) -> (r: Option<(u32, u16, u16, u32)>)
    ensures
        r == wav_header(b@),
{
    let w = hound::WavReader::new(b).ok()?;
    let s = w.spec();
    Some((s.sample_rate, s.channels, s.bits_per_sample, w.duration()))
}

impl Wav {
    /// A track from the bytes `b` of a WAV file: what its header gives (see
    /// `wav_header`), as `get_track` makes it; `None` when the header cannot
    /// be read.
    pub fn get_track_from_bytes(&self, b: &[u8]) -> (r: Option<Track>)
        ensures
            wav_header(b@) is None ==> r is None,
            wav_header(b@) matches Some((sr, ch, bits, n)) ==> (r matches Some(tk) && is_wav_track(
                tk,
                sr,
                ch,
                bits,
                n,
            )),
    {
        match read_wav_spec(b) {
            None => None,
            Some((sr, ch, bits, n)) => Some(self.get_track(sr, ch, bits, n)),
        }
    }
}

impl Wav {
    /// Return the name of this format: "wav".
    pub fn name(&self) -> (r: &'static str)
        ensures
            r@ == "wav"@,
    {
        proof {
            reveal_strlit("wav");
        }
        "wav"
    }

    /// A track with what a WAV header gives: the PCM sample format (sample
    /// rate, channels, bits per sample and the number of samples) and the
    /// file format; nothing else is known.
    pub fn get_track(&self, sample_rate: u32, channels: u16, bits_per_sample: u16, samples: u32) -> (r:
        Track)
        ensures
            is_wav_track(r, sample_rate, channels, bits_per_sample, samples),
    {
        let mut tk = Track::default();
        proof {
            reveal_strlit("wav");
        }
        tk.file_format = Some(self.name().to_owned());
        let f = PCMFormat {
            sample_rate,
            channels: (channels % 256) as u8,
            bits_per_sample,
            total_samples: samples as u64,
        };
        tk.format = Some(CodecFormat::PCM(f));
        tk
    }
}

} // verus!
