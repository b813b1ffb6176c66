//! File formats and their identification from the first bytes of a file.
use crate::flac::{self, is_flac, Flac};
use crate::mp3::{self, is_mp3, Mp3};
use crate::mp4::{self, is_mp4_audio, Mp4};
use crate::mpeg4::{self, is_ftyp, mpeg4_of, Mpeg4};
use crate::mpeg4::boxes::ftyp_values;
use crate::wav::{self, is_wav, Wav};
use vstd::prelude::*;

verus! {

/// The number of bytes read from the start of a file to identify its format.
pub const IDENTIFY_SIZE: usize = 12;

/// The formats a file can be read in, each with its reader.
pub enum FileFormat {
    Flac(Flac),
    MPEG4(Mpeg4),
    MP4A(Mp4),
    MP3(Mp3),
    WAV(Wav),
}

/// The name shown for each format.
pub open spec fn format_text(f: FileFormat) -> Seq<char> {
    match f {
        FileFormat::Flac(_) => "Flac"@,
        FileFormat::MPEG4(_) => "MPEG-4"@,
        FileFormat::MP4A(_) => "MP4A"@,
        FileFormat::MP3(_) => "MP3"@,
        FileFormat::WAV(_) => "WAV"@,
    }
}

impl FileFormat {
    /// The name shown for this format: Flac, MPEG-4, MP4A, MP3 or WAV.
    pub fn to_string(&self) -> (r: String)
        ensures
            r@ == format_text(*self),
    {
        let s = match self {
            FileFormat::Flac(_) => "Flac",
            FileFormat::MPEG4(_) => "MPEG-4",
            FileFormat::MP4A(_) => "MP4A",
            FileFormat::MP3(_) => "MP3",
            FileFormat::WAV(_) => "WAV",
        };
        s.to_owned()
    }
}

/// Looks at the first bytes of a file (`IDENTIFY_SIZE` of them are read) to
/// see what kind of file it is. The readers are asked in turn: FLAC, MPEG-4,
/// MP4 audio, WAV and MP3; the first that recognises the bytes decides.
pub fn identify(b: &[u8]) -> (r: Option<FileFormat>)
    ensures
        is_flac(b@) ==> (r matches Some(f) && f is Flac),
        !is_flac(b@) && is_ftyp(b@) ==> (r matches Some(f) && f matches FileFormat::MPEG4(m)
            && m@ == mpeg4_of(ftyp_values(b@.skip(8)))),
        !is_flac(b@) && !is_ftyp(b@) && is_mp4_audio(b@) ==> (r matches Some(f) && f is MP4A),
        !is_flac(b@) && !is_ftyp(b@) && !is_mp4_audio(b@) && is_wav(b@) ==> (r matches Some(f)
            && f is WAV),
        !is_flac(b@) && !is_ftyp(b@) && !is_mp4_audio(b@) && !is_wav(b@) && is_mp3(b@) ==> (
        r matches Some(f) && f is MP3),
        !is_flac(b@) && !is_ftyp(b@) && !is_mp4_audio(b@) && !is_wav(b@) && !is_mp3(b@) ==> r is None,
{
    let f = flac::identify(b);
    if f.is_some() {
        return f;
    }
    let f = mpeg4::identify(b);
    if f.is_some() {
        return f;
    }
    let f = mp4::identify(b);
    if f.is_some() {
        return f;
    }
    let f = wav::identify(b);
    if f.is_some() {
        return f;
    }
    mp3::identify(b)
}

} // verus!
