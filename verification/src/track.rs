//! The model for an audio track generally, and as a function of file and audio codec format.
use crate::mpeg4::formats::{AudioObjectTypes, ChannelConfig};
use crate::text::{chars_to_string, decimal, pad_left, push_decimal, push_padded, push_str};
use std::path::PathBuf;
use std::time::Duration;
use vstd::prelude::*;

verus! {

/// `std::path::PathBuf`, carried as an opaque value.
#[verifier::external_type_specification]
#[verifier::external_body]
pub struct ExPathBuf(PathBuf);

/// An empty path (`PathBuf::new`).
#[verifier::external_body]
pub(crate) fn empty_path() -> PathBuf {
    PathBuf::new()
}

/// The `Duration` of `n` nanoseconds.
pub uninterp spec fn nanos_duration(n: u64) -> Duration;

/// `Duration::from_nanos`.
#[verifier::external_body]
pub(crate) fn duration_from_nanos(n: u64) -> (d: Duration)
    ensures
        d == nanos_duration(n),
{
    Duration::from_nanos(n)
}

/// The `Duration` of `secs` seconds and `nanos` nanoseconds.
pub uninterp spec fn parts_duration(secs: u64, nanos: u32) -> Duration;

/// `Duration::new`, for a number of nanoseconds below a second (so that no
/// carry into the seconds can overflow). A duration of `secs` seconds and
/// `nanos` nanoseconds is the duration of that many nanoseconds in all, when
/// that number fits in a `u64` (`Duration::from_nanos`).
#[verifier::external_body]
pub(crate) fn duration_new(secs: u64, nanos: u32) -> (d: Duration)
    requires
        nanos < 1_000_000_000,
    ensures
        d == parts_duration(secs, nanos),
        secs * 1_000_000_000 + nanos <= u64::MAX ==> d == nanos_duration(
            (secs * 1_000_000_000 + nanos) as u64,
        ),
{
    Duration::new(secs, nanos)
}

/// Whether `s` is the number of whole seconds in `d`: for a duration of `n`
/// nanoseconds that is `n / 1_000_000_000`, for one of `a` seconds and `b`
/// (below a second) nanoseconds it is `a`.
pub open spec fn secs_of(d: Duration, s: u64) -> bool {
    &&& forall|n: u64| d == nanos_duration(n) ==> s == n / 1_000_000_000
    &&& forall|a: u64, b: u32| b < 1_000_000_000 && d == parts_duration(a, b) ==> s == a
}

/// `Duration::as_secs`: the number of whole seconds in `d` (see `secs_of`).
#[verifier::external_body]
pub(crate) fn duration_secs(d: &Duration) -> (r: u64)
    ensures
        secs_of(*d, r),
{
    d.as_secs()
}

/// Nanoseconds that `total` samples take at `rate` samples per second,
/// rounded down and held at `u64::MAX`; with no rate, none for no samples
/// and `u64::MAX` otherwise.
pub open spec fn samples_nanos(total: u64, rate: u64) -> u64 {
    if rate == 0 {
        if total == 0 {
            0
        } else {
            u64::MAX
        }
    } else {
        let q = (total as nat) * 1_000_000_000 / (rate as nat);
        if q > u64::MAX {
            u64::MAX
        } else {
            q as u64
        }
    }
}

fn nanos_of_samples(total: u64, rate: u64) -> (r: u64)
    ensures
        r == samples_nanos(total, rate),
{
    if rate == 0 {
        if total == 0 {
            0
        } else {
            u64::MAX
        }
    } else {
        assert((total as nat) * 1_000_000_000 <= u64::MAX * 1_000_000_000) by (nonlinear_arith);
        let p: u128 = (total as u128) * 1_000_000_000u128;
        let q: u128 = p / (rate as u128);
        if q > u64::MAX as u128 {
            u64::MAX
        } else {
            q as u64
        }
    }
}

/// Describes sample data based on underlying encoding.
#[derive(Debug)]
pub enum CodecFormat {
    /// Describes PCM audio data
    PCM(PCMFormat),
    /// Describes MPEG 3 audio data
    MPEG3(MPEG3Format),
    /// Describes MPEG 4 audio data.
    MPEG4(MPEG4AudioFormat),
}

/// PCM Codec Format: basic PCM sample data.
#[derive(Debug, Clone, Copy, PartialEq, Eq, Structural)]
pub struct PCMFormat {
    /// Sample rate in hertz.
    pub sample_rate: u32,
    /// Channels of audio (eg. 1 for mono, 2 for stereo etc.).
    pub channels: u8,
    /// Sample size (e.g. 16, 24, 48).
    pub bits_per_sample: u16,
    /// Number of samples for this track, used to compute the duration.
    pub total_samples: u64,
}

impl PCMFormat {
    /// Length of time for the track: the samples at the sample rate
    /// (computed exactly in nanoseconds, see `samples_nanos`).
    pub fn duration(&self) -> (d: Duration)
        ensures
            d == nanos_duration(samples_nanos(self.total_samples, self.sample_rate as u64)),
    {
        duration_from_nanos(nanos_of_samples(self.total_samples, self.sample_rate as u64))
    }
}

impl Default for PCMFormat {
    fn default() -> (r: PCMFormat)
        ensures
            r == (PCMFormat { sample_rate: 0, channels: 0, bits_per_sample: 0, total_samples: 0 }),
    {
        PCMFormat { sample_rate: 0, channels: 0, bits_per_sample: 0, total_samples: 0 }
    }
}

/// MPEG audio version.
#[derive(Debug, Clone, Copy, PartialEq, Eq, Structural)]
pub enum MPVersion {
    Reserved,
    MPEG1,
    MPEG2,
    MPEG2_5,
    Unknown,
}

/// MPEG audio layer.
#[derive(Debug, Clone, Copy, PartialEq, Eq, Structural)]
pub enum MP3Layer {
    Reserved,
    Layer1,
    Layer2,
    Layer3,
    Unknown,
}

/// MPEG-3 Codec Format: MPEG layers 1 to 3.
#[derive(Debug)]
pub struct MPEG3Format {
    /// Encoded stream bitrate.
    pub bitrate: u16,
    /// Source sample rate.
    pub sample_rate: u16,
    /// MPEG audio encoding version.
    pub version: MPVersion,
    /// MPEG audio encoding layer.
    pub layer: MP3Layer,
    /// Track duration.
    pub duration: Duration,
}

/// The printable name of an MPEG audio version.
pub open spec fn version_text(v: MPVersion) -> Seq<char> {
    match v {
        MPVersion::Reserved => "Reserved"@,
        MPVersion::MPEG1 => "MPEG-1"@,
        MPVersion::MPEG2 => "MPEG-2"@,
        MPVersion::MPEG2_5 => "MPEG-2.5"@,
        MPVersion::Unknown => "Unknwon"@,
    }
}

/// The printable name of an MPEG audio layer.
pub open spec fn layer_text(l: MP3Layer) -> Seq<char> {
    match l {
        MP3Layer::Reserved => "Reserved"@,
        MP3Layer::Layer1 => "Layer 1"@,
        MP3Layer::Layer2 => "Layer 2"@,
        MP3Layer::Layer3 => "Layer 3"@,
        MP3Layer::Unknown => "Unknwon"@,
    }
}

impl MPEG3Format {
    /// Printable string for MPEG audio version (e.g. MPEG-1).
    pub fn version_string(&self) -> (r: String)
        ensures
            r@ == version_text(self.version),
    {
        let s = match self.version {
            MPVersion::Reserved => "Reserved",
            MPVersion::MPEG1 => "MPEG-1",
            MPVersion::MPEG2 => "MPEG-2",
            MPVersion::MPEG2_5 => "MPEG-2.5",
            MPVersion::Unknown => "Unknwon",
        };
        s.to_owned()
    }

    /// Suitable for printing a description of this format: "MPEG-1 - Layer 3".
    pub fn debug_text(&self) -> (r: String)
        ensures
            r@ == version_text(self.version) + " - "@ + layer_text(self.layer),
    {
        let mut out: Vec<char> = Vec::new();
        let v = self.version_string();
        push_str(&mut out, v.as_str());
        push_str(&mut out, " - ");
        let l = self.layer_string();
        push_str(&mut out, l.as_str());
        proof {
            reveal_strlit(" - ");
        }
        chars_to_string(out.as_slice())
    }

    /// Printable string for MPEG audio layer (e.g. Layer 3).
    pub fn layer_string(&self) -> (r: String)
        ensures
            r@ == layer_text(self.layer),
    {
        let s = match self.layer {
            MP3Layer::Reserved => "Reserved",
            MP3Layer::Layer1 => "Layer 1",
            MP3Layer::Layer2 => "Layer 2",
            MP3Layer::Layer3 => "Layer 3",
            MP3Layer::Unknown => "Unknwon",
        };
        s.to_owned()
    }
}

/// MPEG-4 CodecFormat
#[derive(Debug, Clone, Copy, PartialEq, Eq, Structural)]
pub struct MPEG4AudioFormat {
    /// 16.16 fixed point sample rate.
    pub sr: u32,
    /// Channels of audio (eg. 1 for mono, 2 for stereo etc.).
    pub channels: u8,
    /// Channel Configuration
    pub channel_config: ChannelConfig,
    /// Sample size (e.g. 16, 24, 48).
    pub bits_per_sample: u16,
    /// Number of samples for this track.
    pub total_samples: u64,
    /// Audio Codec (e.g. AAC)
    pub codec: AudioObjectTypes,
    /// General class of decoder used.
    pub decoder: u8,
    /// Maximum bitrate used by the stream.
    pub max_bitrate: u32,
    /// Average bitrate used by the stream.
    pub avg_bitrate: u32,
    /// Whether the stream is protected (DRM).
    pub protected: bool,
    /// The four character code of the protection scheme, when known.
    pub protection_scheme: Option<u32>,
}

impl MPEG4AudioFormat {
    /// Samples per second: the integer part of the 16.16 fixed point rate.
    pub fn sample_rate(&self) -> (r: u32)
        ensures
            r == self.sr / 65536,
    {
        self.sr / 65536
    }

    /// Length of the track: the samples at the sample rate.
    pub fn duration(&self) -> (d: Duration)
        ensures
            d == nanos_duration(samples_nanos(self.total_samples, (self.sr / 65536) as u64)),
    {
        duration_from_nanos(nanos_of_samples(self.total_samples, self.sample_rate() as u64))
    }
}

impl Default for MPEG4AudioFormat {
    fn default() -> (r: MPEG4AudioFormat)
        ensures
            r == mpeg4_audio_format_default(),
    {
        MPEG4AudioFormat {
            sr: 0,
            channels: 0,
            channel_config: ChannelConfig::Unknown,
            bits_per_sample: 0,
            total_samples: 0,
            codec: AudioObjectTypes::Null,
            decoder: 0,
            max_bitrate: 0,
            avg_bitrate: 0,
            protected: false,
            protection_scheme: None,
        }
    }
}

/// The MPEG-4 format with nothing read yet.
pub open spec fn mpeg4_audio_format_default() -> MPEG4AudioFormat {
    MPEG4AudioFormat {
        sr: 0,
        channels: 0,
        channel_config: ChannelConfig::Unknown,
        bits_per_sample: 0,
        total_samples: 0,
        codec: AudioObjectTypes::Null,
        decoder: 0,
        max_bitrate: 0,
        avg_bitrate: 0,
        protected: false,
        protection_scheme: None,
    }
}

/// Generalized access to audio metadata provided by the underlying format.
#[derive(Debug)]
pub enum FormatMetadata {
    /// Flac specific metadata
    Flac(FlacMetadata),
    /// ID3 metadata format.
    ID3(ID3Metadata),
    /// Mpeg4 specific metadata.
    MP4(MPEG4Metadata),
}

/// Flac Format Metadata: keys with one or more values each.
#[derive(Debug)]
pub struct FlacMetadata {
    /// Flac metadata is stored as comments: key/values pairs.
    pub comments: Vec<(String, Vec<String>)>,
}

/// ID3 Format Metadata
#[derive(Debug)]
pub struct ID3Metadata {
    /// Text metadata, by frame id.
    pub text: Vec<(String, Vec<String>)>,
    /// Comment metadata by frame id with values: Language, Description, Text.
    pub comments: Vec<(String, Vec<(String, String, String)>)>,
}

/// MPEG-4 Format Metadata, from the ilst box: text and single byte values
/// keyed by the four character code of the enclosing box, the media times
/// and the size of the media data.
#[derive(Debug)]
pub struct MPEG4Metadata {
    /// Text type data keyed by the enclosing box's four character code.
    pub text: Vec<(String, String)>,
    /// Single byte data keyed by the enclosing box's four character code.
    pub byte: Vec<(String, u8)>,
    /// Time the media was created, in seconds since 1904-01-01 00:00:00 UTC.
    pub creation: u64,
    /// Time the media was last updated, in seconds since 1904-01-01 00:00:00 UTC.
    pub modification: u64,
    /// The size of the Media Data Box.
    pub media_size: u32,
}

impl Default for MPEG4Metadata {
    fn default() -> (r: MPEG4Metadata)
        ensures
            r.text@.len() == 0,
            r.byte@.len() == 0,
            r.creation == UNIX_EPOCH_1904,
            r.modification == UNIX_EPOCH_1904,
            r.media_size == 0,
    {
        MPEG4Metadata {
            text: Vec::new(),
            byte: Vec::new(),
            creation: UNIX_EPOCH_1904,
            modification: UNIX_EPOCH_1904,
            media_size: 0,
        }
    }
}

/// The Unix epoch (1970-01-01 00:00:00 UTC) in seconds since 1904-01-01 00:00:00 UTC.
pub const UNIX_EPOCH_1904: u64 = 2_082_844_800;

/// The value of the first entry with key `k`.
pub open spec fn lookup<V>(s: Seq<(String, V)>, k: Seq<char>) -> Option<V>
    decreases s.len(),
{
    if s.len() == 0 {
        None
    } else if s[0].0@ == k {
        Some(s[0].1)
    } else {
        lookup(s.drop_first(), k)
    }
}

/// The index of the first entry with key `k`.
fn find_key<V>(m: &Vec<(String, V)>, k: &String) -> (r: Option<usize>)
    ensures
        r is None ==> lookup(m@, k@) is None && forall|j: int| 0 <= j < m@.len() ==> m@[j].0@ != k@,
        r matches Some(i) ==> i < m@.len() && m@[i as int].0@ == k@ && lookup(m@, k@) == Some(
            m@[i as int].1,
        ) && forall|j: int| 0 <= j < i ==> m@[j].0@ != k@,
{
    let n = m.len();
    let mut i: usize = 0;
    assert(m@.skip(0) =~= m@);
    while i < n
        invariant
            n == m@.len(),
            i <= n,
            forall|j: int| 0 <= j < i ==> m@[j].0@ != k@,
            lookup(m@, k@) == lookup(m@.skip(i as int), k@),
        decreases n - i,
    {
        assert(m@.skip(i as int).drop_first() =~= m@.skip(i + 1));
        if m[i].0 == *k {
            return Some(i);
        }
        i = i + 1;
    }
    None
}

proof fn lemma_lookup_update<V>(s: Seq<(String, V)>, i: int, e: (String, V), k: Seq<char>)
    requires
        0 <= i < s.len(),
        s[i].0@ == e.0@,
        forall|j: int| 0 <= j < i ==> s[j].0@ != e.0@,
    ensures
        lookup(s.update(i, e), k) == (if k == e.0@ { Some(e.1) } else { lookup(s, k) }),
    decreases s.len(),
{
    let t = s.update(i, e);
    if i == 0 {
        assert(t[0] == e);
        assert(t.drop_first() =~= s.drop_first());
    } else {
        assert(t[0] == s[0]);
        assert(s[0].0@ != e.0@);
        let d = s.drop_first();
        assert forall|j: int| 0 <= j < i - 1 implies d[j].0@ != e.0@ by {
            assert(d[j] == s[j + 1]);
        }
        assert(d[i - 1] == s[i]);
        lemma_lookup_update(d, i - 1, e, k);
        assert(t.drop_first() =~= d.update(i - 1, e));
    }
}

proof fn lemma_lookup_push<V>(s: Seq<(String, V)>, e: (String, V), k: Seq<char>)
    requires
        lookup(s, e.0@) is None,
    ensures
        lookup(s.push(e), k) == (if k == e.0@ { Some(e.1) } else { lookup(s, k) }),
    decreases s.len(),
{
    let t = s.push(e);
    if s.len() > 0 {
        assert(t[0] == s[0]);
        assert(s[0].0@ != e.0@);
        lemma_lookup_push(s.drop_first(), e, k);
        assert(t.drop_first() =~= s.drop_first().push(e));
    } else {
        assert(t[0] == e);
        assert(t.drop_first() =~= Seq::<(String, V)>::empty());
        assert(lookup(t.drop_first(), k) is None);
    }
}

/// Sets the value of key `k` to `v`, replacing a previous value.
pub fn insert_entry<V>(m: &mut Vec<(String, V)>, k: String, v: V)
    ensures
        forall|key: Seq<char>|
            #[trigger] lookup(final(m)@, key) == (if key == k@ { Some(v) } else { lookup(old(m)@, key) }),
        distinct_keys(old(m)@) ==> distinct_keys(final(m)@),
{
    match find_key(m, &k) {
        Some(i) => {
            let ghost e = (k, v);
            proof {
                assert forall|key: Seq<char>| #[trigger]
                    lookup(m@.update(i as int, e), key) == (if key == k@ {
                        Some(v)
                    } else {
                        lookup(m@, key)
                    }) by {
                    lemma_lookup_update(m@, i as int, e, key);
                }
            }
            let ghost before = m@;
            m.set(i, (k, v));
            proof {
                assert forall|a: int| 0 <= a < m@.len() implies #[trigger] m@[a].0@ == before[a].0@ by {
                }
                if distinct_keys(before) {
                    assert forall|a: int, b: int| 0 <= a < b < m@.len() implies (#[trigger] m@[a]).0@
                        != (#[trigger] m@[b]).0@ by {
                        assert(m@[a].0@ == before[a].0@);
                        assert(m@[b].0@ == before[b].0@);
                    }
                }
            }
        },
        None => {
            let ghost e = (k, v);
            proof {
                assert forall|key: Seq<char>| #[trigger]
                    lookup(m@.push(e), key) == (if key == k@ {
                        Some(v)
                    } else {
                        lookup(m@, key)
                    }) by {
                    lemma_lookup_push(m@, e, key);
                }
            }
            let ghost before = m@;
            m.push((k, v));
            proof {
                if distinct_keys(before) {
                    assert forall|a: int, b: int| 0 <= a < b < m@.len() implies (#[trigger] m@[a]).0@
                        != (#[trigger] m@[b]).0@ by {
                        assert(m@[a] == before[a]);
                        if b < before.len() {
                            assert(m@[b] == before[b]);
                        }
                    }
                }
            }
        },
    }
}

/// Adds `v` to the values of key `k`, starting a list for a new key.
pub fn append_entry<V>(m: &mut Vec<(String, Vec<V>)>, k: String, v: V)
    ensures
        forall|key: Seq<char>|
            #![trigger lookup(final(m)@, key)]
            key != k@ ==> lookup(final(m)@, key) == lookup(old(m)@, key),
        lookup(final(m)@, k@) matches Some(vals) && vals@ == (match lookup(old(m)@, k@) {
            Some(old_vals) => old_vals@.push(v),
            None => seq![v],
        }),
        distinct_keys(old(m)@) ==> distinct_keys(final(m)@),
{
    match find_key(m, &k) {
        Some(i) => {
            let ghost before = m@;
            let (key, mut vals) = m.remove(i);
            vals.push(v);
            m.insert(i, (key, vals));
            let ghost e = m@[i as int];
            proof {
                assert(m@ =~= before.update(i as int, e));
                assert forall|kk: Seq<char>| kk != k@ implies #[trigger] lookup(m@, kk) == lookup(before, kk) by {
                    lemma_lookup_update(before, i as int, e, kk);
                }
                lemma_lookup_update(before, i as int, e, k@);
                if distinct_keys(before) {
                    assert forall|a: int, b: int| 0 <= a < b < m@.len() implies (#[trigger] m@[a]).0@
                        != (#[trigger] m@[b]).0@ by {
                        assert(m@[a].0@ == before[a].0@);
                        assert(m@[b].0@ == before[b].0@);
                    }
                }
            }
        },
        None => {
            let mut vals = Vec::new();
            vals.push(v);
            let ghost e = (k, vals);
            proof {
                assert forall|kk: Seq<char>| kk != k@ implies #[trigger] lookup(m@.push(e), kk) == lookup(m@, kk) by {
                    lemma_lookup_push(m@, e, kk);
                }
                lemma_lookup_push(m@, e, k@);
            }
            let ghost before = m@;
            m.push((k, vals));
            proof {
                if distinct_keys(before) {
                    assert forall|a: int, b: int| 0 <= a < b < m@.len() implies (#[trigger] m@[a]).0@
                        != (#[trigger] m@[b]).0@ by {
                        assert(m@[a] == before[a]);
                        if b < before.len() {
                            assert(m@[b] == before[b]);
                        }
                    }
                }
            }
        },
    }
}

/// Captures general and codec specific metadata for a single audio track.
#[derive(Debug)]
pub struct Track {
    /// File location.
    pub path: PathBuf,
    /// File Format (as opposed to data format (e.g. Mpeg4 File with Flac codec data).
    pub file_format: Option<String>,
    /// Track title.
    pub title: Option<String>,
    /// Artist name.
    pub artist: Option<String>,
    /// Album artist name.
    pub album_artist: Option<String>,
    /// Album title.
    pub album: Option<String>,
    /// Track number out of a total number of tracks.
    pub track_number: Option<u32>,
    /// Total number of tracks for the album/collection this track is a part of.
    pub track_total: Option<u32>,
    /// The CD that this track appears on.
    pub disk_number: Option<u32>,
    /// The total number of CDs for the album that this track appears on.
    pub disk_total: Option<u32>,
    /// Codec format details.
    pub format: Option<CodecFormat>,
    /// Format specific metadata provided as key value pairs.
    pub metadata: Option<FormatMetadata>,
}

/// Whether `t` carries no information yet (everything but the path unset).
pub open spec fn is_blank_track(t: Track) -> bool {
    &&& t.file_format is None
    &&& t.title is None
    &&& t.artist is None
    &&& t.album_artist is None
    &&& t.album is None
    &&& t.track_number is None
    &&& t.track_total is None
    &&& t.disk_number is None
    &&& t.disk_total is None
    &&& t.format is None
    &&& t.metadata is None
}

impl Default for Track {
    fn default() -> (r: Track)
        ensures
            is_blank_track(r),
    {
        Track {
            path: empty_path(),
            file_format: None,
            title: None,
            artist: None,
            album_artist: None,
            album: None,
            track_number: None,
            track_total: None,
            disk_number: None,
            disk_total: None,
            format: None,
            metadata: None,
        }
    }
}

/// The track display: " 1 of 09" for number and total, the one known number
/// right-aligned in two places, or "-" for neither.
pub open spec fn tracks_text(number: Option<u32>, total: Option<u32>) -> Seq<char> {
    match total {
        Some(tt) => match number {
            Some(tn) => pad_left(decimal(tn as nat), 2, ' ') + " of "@ + pad_left(
                decimal(tt as nat),
                2,
                '0',
            ),
            None => pad_left(decimal(tt as nat), 2, ' '),
        },
        None => match number {
            Some(tn) => pad_left(decimal(tn as nat), 2, ' '),
            None => "-"@,
        },
    }
}

impl Track {
    /// Utility function to return a string that captures tracks as: " 1 of 09".
    pub fn tracks_display(&self) -> (r: String)
        ensures
            r@ == tracks_text(self.track_number, self.track_total),
    {
        let mut out: Vec<char> = Vec::new();
        match self.track_total {
            Some(tt) => match self.track_number {
                Some(tn) => {
                    let mut a: Vec<char> = Vec::new();
                    push_decimal(&mut a, tn as u64);
                    push_padded(&mut out, &a, 2, ' ');
                    push_str(&mut out, " of ");
                    let mut b: Vec<char> = Vec::new();
                    push_decimal(&mut b, tt as u64);
                    push_padded(&mut out, &b, 2, '0');
                },
                None => {
                    let mut a: Vec<char> = Vec::new();
                    push_decimal(&mut a, tt as u64);
                    push_padded(&mut out, &a, 2, ' ');
                },
            },
            None => match self.track_number {
                Some(tn) => {
                    let mut a: Vec<char> = Vec::new();
                    push_decimal(&mut a, tn as u64);
                    push_padded(&mut out, &a, 2, ' ');
                },
                None => {
                    push_str(&mut out, "-");
                },
            },
        }
        assert(out@ =~= tracks_text(self.track_number, self.track_total));
        chars_to_string(out.as_slice())
    }
}

} // verus!

verus! {

/// `a` comes before `b` in the order of optional numbers, where no number
/// comes before any number.
pub open spec fn opt_lt(a: Option<u32>, b: Option<u32>) -> bool {
    match (a, b) {
        (None, Some(_)) => true,
        (Some(x), Some(y)) => x < y,
        _ => false,
    }
}

/// Track `a` goes after track `b`: by disk number, then by track number.
pub open spec fn track_after(a: Track, b: Track) -> bool {
    opt_lt(b.disk_number, a.disk_number) || (a.disk_number == b.disk_number && opt_lt(
        b.track_number,
        a.track_number,
    ))
}

/// The first position of `s` holding a track that goes after `x` (the
/// length of `s` when there is none).
pub open spec fn first_after(s: Seq<Track>, x: Track) -> nat
    decreases s.len(),
{
    if s.len() == 0 {
        0
    } else if track_after(s[0], x) {
        0
    } else {
        1 + first_after(s.drop_first(), x)
    }
}

/// The tracks `s` ordered by disk number and then track number; tracks
/// with equal numbers keep their order (a stable sort).
pub open spec fn track_order(s: Seq<Track>) -> Seq<Track>
    decreases s.len(),
{
    if s.len() == 0 {
        s
    } else {
        let t = track_order(s.drop_last());
        t.insert(first_after(t, s.last()) as int, s.last())
    }
}

proof fn lemma_first_after(s: Seq<Track>, x: Track, j: int)
    requires
        0 <= j <= s.len(),
        forall|i: int| 0 <= i < j ==> !track_after(#[trigger] s[i], x),
        j == s.len() || track_after(s[j], x),
    ensures
        first_after(s, x) == j,
    decreases s.len(),
{
    if s.len() > 0 && j > 0 {
        let d = s.drop_first();
        assert forall|i: int| 0 <= i < j - 1 implies !track_after(#[trigger] d[i], x) by {
            assert(d[i] == s[i + 1]);
        }
        assert(!track_after(s[0], x));
        if j < s.len() {
            assert(d[j - 1] == s[j]);
        }
        lemma_first_after(d, x, j - 1);
    }
}

/// Orders tracks by disk number and then track number, keeping the order
/// of tracks with equal numbers.
pub fn sort_tracks(tracks: Vec<Track>) -> (r: Vec<Track>)
    ensures
        r@ == track_order(tracks@),
{
    // Take the tracks off the end, then insert them from the first on.
    let ghost orig = tracks@;
    let mut rest = tracks;
    let mut out: Vec<Track> = Vec::new();
    let mut taken: Vec<Track> = Vec::new();
    while rest.len() > 0
        invariant
            taken@.len() + rest@.len() == orig.len(),
            rest@ == orig.take(rest@.len() as int),
            forall|k: int| 0 <= k < taken@.len() ==> #[trigger] taken@[k] == orig[orig.len() - 1 - k],
        decreases rest@.len(),
    {
        let t = rest.pop().unwrap();
        taken.push(t);
        assert(rest@ =~= orig.take(rest@.len() as int));
    }
    assert(orig.take(0) =~= Seq::<Track>::empty());
    while taken.len() > 0
        invariant
            taken@.len() <= orig.len(),
            out@ == track_order(orig.take(orig.len() - taken@.len())),
            forall|k: int| 0 <= k < taken@.len() ==> #[trigger] taken@[k] == orig[orig.len() - 1 - k],
        decreases taken@.len(),
    {
        let t = taken.pop().unwrap();
        let ghost done = orig.len() - taken@.len() - 1;
        let m = out.len();
        let mut j: usize = 0;
        while j < m && !after(&out[j], &t)
            invariant
                m == out@.len(),
                j <= m,
                forall|q: int| 0 <= q < j ==> !track_after(#[trigger] out@[q], t),
            decreases m - j,
        {
            j = j + 1;
        }
        proof {
            lemma_first_after(out@, t, j as int);
            let p = orig.take(done + 1);
            assert(p.drop_last() =~= orig.take(done));
            assert(p.last() == t);
        }
        out.insert(j, t);
    }
    assert(orig.take(orig.len() as int) =~= orig);
    out
}

fn opt_less(a: Option<u32>, b: Option<u32>) -> (r: bool)
    ensures
        r == opt_lt(a, b),
{
    match (a, b) {
        (None, Some(_)) => true,
        (Some(x), Some(y)) => x < y,
        _ => false,
    }
}

fn after(a: &Track, b: &Track) -> (r: bool)
    ensures
        r == track_after(*a, *b),
{
    opt_less(b.disk_number, a.disk_number) || (a.disk_number == b.disk_number && opt_less(
        b.track_number,
        a.track_number,
    ))
}

} // verus!

verus! {

/// Whether no track of `s` goes after a later one.
pub open spec fn tracks_ordered(s: Seq<Track>) -> bool {
    forall|i: int, j: int| 0 <= i < j < s.len() ==> !track_after(#[trigger] s[i], #[trigger] s[j])
}

/// Ordering tracks gives them in order of disk and track number, and keeps
/// every track: the result holds the same tracks as many times each.
pub proof fn lemma_track_order(s: Seq<Track>)
    ensures
        tracks_ordered(track_order(s)),
        track_order(s).to_multiset() == s.to_multiset(),
    decreases s.len(),
{
    broadcast use vstd::seq_lib::to_multiset_build, vstd::seq_lib::to_multiset_insert;

    if s.len() == 0 {
    } else {
        let t = track_order(s.drop_last());
        let x = s.last();
        lemma_track_order(s.drop_last());
        let j = first_after(t, x) as int;
        lemma_first_after_bounds(t, x);
        let r = t.insert(j, x);
        assert(r == track_order(s));
        assert forall|a: int, b: int| 0 <= a < b < r.len() implies !track_after(
            #[trigger] r[a],
            #[trigger] r[b],
        ) by {
            if b < j {
                assert(r[a] == t[a] && r[b] == t[b]);
            } else if b == j {
                assert(r[a] == t[a]);
            } else if a == j {
                assert(r[b] == t[b - 1]);
                assert(track_after(t[j], x));
                if b - 1 > j {
                    assert(!track_after(t[j], t[b - 1]));
                }
            } else if a < j {
                assert(r[a] == t[a] && r[b] == t[b - 1]);
            } else {
                assert(r[a] == t[a - 1] && r[b] == t[b - 1]);
            }
        }
        assert(s =~= s.drop_last().push(x));
    }
}

proof fn lemma_first_after_bounds(s: Seq<Track>, x: Track)
    ensures
        first_after(s, x) <= s.len(),
        forall|i: int| 0 <= i < first_after(s, x) ==> !track_after(#[trigger] s[i], x),
        first_after(s, x) < s.len() ==> track_after(s[first_after(s, x) as int], x),
    decreases s.len(),
{
    if s.len() > 0 && !track_after(s[0], x) {
        let d = s.drop_first();
        lemma_first_after_bounds(d, x);
        assert forall|i: int| 0 <= i < first_after(s, x) implies !track_after(#[trigger] s[i], x) by {
            if i > 0 {
                assert(s[i] == d[i - 1]);
            }
        }
        if first_after(s, x) < s.len() {
            assert(s[first_after(s, x) as int] == d[first_after(d, x) as int]);
        }
    }
}

} // verus!

verus! {

/// A track found at path `p` whose file is called `name`: it keeps its path,
/// and a track without a title is titled with the file name.
pub open spec fn placed(tk: Track, p: PathBuf, name: String) -> Track {
    Track { title: if tk.title is None { Some(name) } else { tk.title }, path: p, ..tk }
}

/// The tracks among the entries `e` (path, track read from it if it is an
/// audio file, file name), in order, placed at their paths.
pub open spec fn entry_tracks(e: Seq<(PathBuf, Option<Track>, String)>) -> Seq<Track>
    decreases e.len(),
{
    if e.len() == 0 {
        Seq::empty()
    } else {
        let rest = entry_tracks(e.drop_last());
        match e.last().1 {
            Some(tk) => rest.push(placed(tk, e.last().0, e.last().2)),
            None => rest,
        }
    }
}

/// The paths of the entries `e` that are not audio files, in order.
pub open spec fn entry_files(e: Seq<(PathBuf, Option<Track>, String)>) -> Seq<PathBuf>
    decreases e.len(),
{
    if e.len() == 0 {
        Seq::empty()
    } else {
        let rest = entry_files(e.drop_last());
        match e.last().1 {
            Some(_) => rest,
            None => rest.push(e.last().0),
        }
    }
}

/// Splits what was found in a directory into tracks and other files. Each
/// entry is a path, the track read from it when it is an audio file (`None`
/// for directories and other files), and the file's name. Tracks without a
/// title take the file name; tracks come back ordered by disk and track
/// number (see `track_order`), other files in the order given.
pub fn files_from(entries: Vec<(PathBuf, Option<Track>, String)>) -> (r: (Vec<Track>, Vec<PathBuf>))
    ensures
        r.0@ == track_order(entry_tracks(entries@)),
        r.1@ == entry_files(entries@),
{
    let ghost orig = entries@;
    let mut rest = entries;
    let mut taken: Vec<(PathBuf, Option<Track>, String)> = Vec::new();
    while rest.len() > 0
        invariant
            taken@.len() + rest@.len() == orig.len(),
            rest@ == orig.take(rest@.len() as int),
            forall|k: int| 0 <= k < taken@.len() ==> #[trigger] taken@[k] == orig[orig.len() - 1 - k],
        decreases rest@.len(),
    {
        let e = rest.pop().unwrap();
        taken.push(e);
        assert(rest@ =~= orig.take(rest@.len() as int));
    }
    let mut tracks: Vec<Track> = Vec::new();
    let mut files: Vec<PathBuf> = Vec::new();
    assert(orig.take(0) =~= Seq::<(PathBuf, Option<Track>, String)>::empty());
    while taken.len() > 0
        invariant
            taken@.len() <= orig.len(),
            tracks@ == entry_tracks(orig.take(orig.len() - taken@.len())),
            files@ == entry_files(orig.take(orig.len() - taken@.len())),
            forall|k: int| 0 <= k < taken@.len() ==> #[trigger] taken@[k] == orig[orig.len() - 1 - k],
        decreases taken@.len(),
    {
        let (p, tk, name) = taken.pop().unwrap();
        let ghost done = orig.len() - taken@.len() - 1;
        proof {
            let q = orig.take(done + 1);
            assert(q.drop_last() =~= orig.take(done));
            assert(q.last() == orig[done]);
        }
        match tk {
            Some(t) => {
                let mut t = t;
                if t.title.is_none() {
                    t.title = Some(name);
                }
                t.path = p;
                tracks.push(t);
            },
            None => {
                files.push(p);
            },
        }
    }
    assert(orig.take(orig.len() as int) =~= orig);
    (sort_tracks(tracks), files)
}

} // verus!

verus! {

/// Whether every key of `v` has at least one value.
pub open spec fn all_valued<V>(v: Seq<(String, Vec<V>)>) -> bool {
    forall|i: int| 0 <= i < v.len() ==> (#[trigger] v[i]).1@.len() > 0
}

/// Whether no key occurs twice in `v`.
pub open spec fn distinct_keys<V>(v: Seq<(String, V)>) -> bool {
    forall|i: int, j: int| 0 <= i < j < v.len() ==> (#[trigger] v[i]).0@ != (#[trigger] v[j]).0@
}

} // verus!

verus! {

/// Looking up in entries with one more entry at the end: the new entry
/// answers for its key only when no earlier entry has that key.
pub proof fn lemma_lookup_push_pub<V>(s: Seq<(String, V)>, e: (String, V), k: Seq<char>)
    ensures
        lookup(s.push(e), k) == (if lookup(s, k) is Some {
            lookup(s, k)
        } else if k == e.0@ {
            Some(e.1)
        } else {
            None
        }),
    decreases s.len(),
{
    let t = s.push(e);
    if s.len() > 0 {
        assert(t[0] == s[0]);
        assert(t.drop_first() =~= s.drop_first().push(e));
        if s[0].0@ != k {
            lemma_lookup_push_pub(s.drop_first(), e, k);
            assert(lookup(t, k) == lookup(t.drop_first(), k));
            assert(lookup(s, k) == lookup(s.drop_first(), k));
        }
    } else {
        assert(t[0] == e);
        assert(t.drop_first() =~= Seq::<(String, V)>::empty());
        assert(lookup(t.drop_first(), k) is None);
        assert(lookup(s, k) is None);
    }
}

} // verus!

verus! {

/// Whether every key of `v` has at least one value (see `all_valued`).
pub fn every_key_valued<V>(v: &Vec<(String, Vec<V>)>) -> (r: bool)
    ensures
        r == all_valued(v@),
{
    let n = v.len();
    let mut i: usize = 0;
    while i < n
        invariant
            n == v@.len(),
            i <= n,
            forall|k: int| 0 <= k < i ==> (#[trigger] v@[k]).1@.len() > 0,
        decreases n - i,
    {
        if v[i].1.len() == 0 {
            return false;
        }
        i = i + 1;
    }
    true
}

} // verus!
