//! Identification of FLAC files, and the rules that fill a track from FLAC
//! stream information and Vorbis comments.
use crate::file::FileFormat;
use crate::mp3::{tag_tags, tags_of, values_map, TagModel};
use crate::mpeg4::boxes::{be24, be32, read_u32};
use crate::text::{join_strings, join_with, parse_u32, parse_u32_spec};
use crate::track::{
    distinct_keys, insert_entry, lookup, CodecFormat, FlacMetadata, FormatMetadata,
    PCMFormat, Track,
};
use vstd::prelude::*;

verus! {

/// FLAC file reader.
#[derive(Debug, Clone, Copy, PartialEq, Eq, Structural)]
pub struct Flac;

/// The marker `fLaC` that opens a FLAC stream.
pub open spec fn flac_marker() -> Seq<u8> {
    seq![102u8, 76, 97, 67]
}

/// Whether `b` opens a FLAC stream: at least 4 bytes, the first four `fLaC`.
pub open spec fn is_flac(b: Seq<u8>) -> bool {
    b.len() >= 4 && b.take(4) == flac_marker()
}

/// `metaflac::Tag::is_candidate` on the bytes `b`: it reads four bytes and
/// compares them with `fLaC`; a failed read (fewer than four bytes) is `false`.
#[verifier::external_body]
fn tag_is_candidate(b: &[u8]) -> (r: bool)
    ensures
        r == is_flac(b@),
{
    let mut c = std::io::Cursor::new(b);
    metaflac::Tag::is_candidate(&mut c)
}

/// Identifies FLAC files by their stream marker, as the FLAC tag reader does.
pub fn identify(b: &[u8]) -> (r: Option<FileFormat>)
    ensures
        r is Some <==> is_flac(b@),
        r matches Some(f) ==> f is Flac,
{
    if tag_is_candidate(b) {
        Some(FileFormat::Flac(Flac))
    } else {
        None
    }
}

} // verus!

verus! {

/// The stream information block of a FLAC file (what a track needs of it).
#[derive(Debug, Clone, Copy, PartialEq, Eq, Structural)]
pub struct StreamInfo {
    pub sample_rate: u32,
    pub num_channels: u8,
    pub bits_per_sample: u8,
    pub total_samples: u64,
}

/// The metadata blocks of a FLAC file that fill a track: stream information,
/// Vorbis comments (each key with its values), and any other block.
pub enum FlacBlock {
    StreamInfo(StreamInfo),
    VorbisComment(Vec<(String, Vec<String>)>),
    Other,
}

/// The PCM format of stream information.
pub open spec fn stream_format(si: StreamInfo) -> PCMFormat {
    PCMFormat {
        sample_rate: si.sample_rate,
        channels: si.num_channels,
        bits_per_sample: si.bits_per_sample as u16,
        total_samples: si.total_samples,
    }
}

/// Fills the format of a track from stream information.
pub fn si_hydrate(si: &StreamInfo, tk: &mut Track)
    ensures
        final(tk).format == Some(CodecFormat::PCM(stream_format(*si))),
        tags_of(*final(tk)) == tags_of(*old(tk)),
        final(tk).metadata == old(tk).metadata && final(tk).file_format == old(tk).file_format,
        final(tk).path == old(tk).path && final(tk).album_artist == old(tk).album_artist,
{
    let f = PCMFormat {
        sample_rate: si.sample_rate,
        channels: si.num_channels,
        bits_per_sample: si.bits_per_sample as u16,
        total_samples: si.total_samples,
    };
    tk.format = Some(CodecFormat::PCM(f));
}

/// The values of comment `key`, all joined by `/`.
pub open spec fn joined_values(c: Seq<(String, Vec<String>)>, key: Seq<char>) -> Option<Seq<char>> {
    match lookup(c, key) {
        Some(v) => Some(join_with(v@, '/')),
        None => None,
    }
}

/// The number in the first value of comment `key`.
pub open spec fn number_value(c: Seq<(String, Vec<String>)>, key: Seq<char>) -> Option<u32> {
    match lookup(c, key) {
        Some(v) => if v@.len() > 0 {
            parse_u32_spec(v@[0]@)
        } else {
            None
        },
        None => None,
    }
}

/// The tags that Vorbis comments `c` give: title, album and artist (or
/// else album artist) with their values joined by `/`, the track number and
/// total, and, from the comments as kept, the alternative track total and
/// the disk total and number.
pub open spec fn vorbis_tags(m: TagModel, c: Seq<(String, Vec<String>)>) -> TagModel {
    let title = match joined_values(c, "TITLE"@) {
        Some(t) => Some(t),
        None => m.title,
    };
    let album = match joined_values(c, "ALBUM"@) {
        Some(t) => Some(t),
        None => m.album,
    };
    let artist = match joined_values(c, "ARTIST"@) {
        Some(t) => Some(t),
        None => match joined_values(c, "ALBUMARTIST"@) {
            Some(t) => Some(t),
            None => m.artist,
        },
    };
    let total = match number_value(c, "TOTALTRACKS"@) {
        Some(t) => Some(t),
        None => number_value(c, "TRACKTOTAL"@),
    };
    TagModel {
        title,
        album,
        artist,
        track_number: number_value(c, "TRACKNUMBER"@),
        track_total: total,
        disk_total: match number_value(c, "DISCTOTAL"@) {
            Some(t) => Some(t),
            None => m.disk_total,
        },
        disk_number: match number_value(c, "DISCNUMBER"@) {
            Some(t) => Some(t),
            None => m.disk_number,
        },
    }
}

fn get<'a>(c: &'a Vec<(String, Vec<String>)>, key: &str) -> (r: Option<&'a Vec<String>>)
    ensures
        match lookup(c@, key@) {
            Some(v) => r == Some(&v),
            None => r is None,
        },
{
    let k = key.to_owned();
    let n = c.len();
    let mut i: usize = 0;
    assert(c@.skip(0) =~= c@);
    while i < n
        invariant
            n == c@.len(),
            k@ == key@,
            i <= n,
            lookup(c@, key@) == lookup(c@.skip(i as int), key@),
        decreases n - i,
    {
        assert(c@.skip(i as int).drop_first() =~= c@.skip(i + 1));
        if c[i].0 == k {
            return Some(&c[i].1);
        }
        i = i + 1;
    }
    None
}

fn joined(c: &Vec<(String, Vec<String>)>, key: &str) -> (r: Option<String>)
    ensures
        match joined_values(c@, key@) {
            Some(t) => r matches Some(s) && s@ == t,
            None => r is None,
        },
{
    match get(c, key) {
        Some(v) => Some(join_strings(v, '/')),
        None => None,
    }
}

fn number(c: &Vec<(String, Vec<String>)>, key: &str) -> (r: Option<u32>)
    ensures
        r == number_value(c@, key@),
{
    match get(c, key) {
        Some(v) => if v.len() > 0 {
            parse_u32(v[0].as_str())
        } else {
            None
        },
        None => None,
    }
}

proof fn lemma_lookup_absent(s: Seq<(String, Vec<String>)>, k: Seq<char>)
    requires
        forall|i: int| 0 <= i < s.len() ==> (#[trigger] s[i]).0@ != k,
    ensures
        lookup(s, k) is None,
    decreases s.len(),
{
    if s.len() > 0 {
        lemma_lookup_absent(s.drop_first(), k);
    }
}

/// Values as text.
pub open spec fn values_of(o: Option<Vec<String>>) -> Option<Seq<Seq<char>>> {
    match o {
        Some(v) => Some(v@.map_values(|s: String| s@)),
        None => None,
    }
}

fn copy_values(v: &Vec<String>) -> (r: Vec<String>)
    ensures
        r@ == v@,
{
    let mut r: Vec<String> = Vec::new();
    let n = v.len();
    let mut i: usize = 0;
    while i < n
        invariant
            n == v@.len(),
            i <= n,
            r@ == v@.take(i as int),
        decreases n - i,
    {
        r.push(v[i].clone());
        assert(r@ =~= v@.take(i + 1));
        i = i + 1;
    }
    assert(v@.take(n as int) =~= v@);
    r
}

/// The comments kept: those `c` gives, over those there were before.
pub open spec fn kept_comments(before: Seq<(String, Vec<String>)>, c: Seq<(String, Vec<String>)>, key: Seq<char>) -> Option<
    Vec<String>,
> {
    match lookup(c, key) {
        Some(v) => Some(v),
        None => lookup(before, key),
    }
}

/// Fills a track from Vorbis comments `c` (see `vorbis_tags`); with FLAC
/// metadata on the track, the comments are kept there too (see
/// `kept_comments`). Without FLAC metadata only the title, track number,
/// album and artist are filled.
pub fn vorbis_hydrate(c: &Vec<(String, Vec<String>)>, tk: &mut Track)
    requires
        distinct_keys(c@),
    ensures
        match old(tk).metadata {
            Some(FormatMetadata::Flac(md0)) => {
                &&& tags_of(*final(tk)) == vorbis_tags(tags_of(*old(tk)), c@)
                &&& final(tk).metadata matches Some(FormatMetadata::Flac(md))
                &&& forall|key: Seq<char>|
                    #![trigger lookup(md.comments@, key)]
                    values_of(lookup(md.comments@, key)) == values_of(
                        kept_comments(md0.comments@, c@, key),
                    )
            },
            _ => true,
        },
        final(tk).format == old(tk).format && final(tk).file_format == old(tk).file_format,
        final(tk).path == old(tk).path && final(tk).album_artist == old(tk).album_artist,
{
    proof {
        reveal_strlit("TITLE");
        reveal_strlit("TRACKNUMBER");
        reveal_strlit("ALBUM");
        reveal_strlit("ARTIST");
        reveal_strlit("ALBUMARTIST");
        reveal_strlit("TOTALTRACKS");
        reveal_strlit("TRACKTOTAL");
        reveal_strlit("DISCTOTAL");
        reveal_strlit("DISCNUMBER");
    }
    match joined(c, "TITLE") {
        Some(t) => {
            tk.title = Some(t);
        },
        None => {},
    }
    tk.track_number = number(c, "TRACKNUMBER");
    match joined(c, "ALBUM") {
        Some(t) => {
            tk.album = Some(t);
        },
        None => {},
    }
    match joined(c, "ARTIST") {
        Some(t) => {
            tk.artist = Some(t);
        },
        None => match joined(c, "ALBUMARTIST") {
            Some(t) => {
                tk.artist = Some(t);
            },
            None => {},
        },
    }
    let md0 = tk.metadata.take();
    match md0 {
        Some(FormatMetadata::Flac(md)) => {
            let mut md = md;
            let ghost start = md.comments@;
            let n = c.len();
            let mut i: usize = 0;
            while i < n
                invariant
                    n == c@.len(),
                    distinct_keys(c@),
                    i <= n,
                    forall|key: Seq<char>|
                        #![trigger lookup(md.comments@, key)]
                        values_of(lookup(md.comments@, key)) == values_of(
                            kept_comments(start, c@.take(i as int), key),
                        ),
                decreases n - i,
            {
                let ghost before = md.comments@;
                let e = &c[i];
                let vals = copy_values(&e.1);
                insert_entry(&mut md.comments, e.0.clone(), vals);
                proof {
                    let t = c@.take(i + 1);
                    assert(t =~= c@.take(i as int).push(c@[i as int]));
                    assert forall|key: Seq<char>| #[trigger]
                        lookup(md.comments@, key) == lookup(md.comments@, key) implies values_of(
                        lookup(md.comments@, key),
                    ) == values_of(kept_comments(start, t, key)) by {
                        assert(lookup(md.comments@, key) == (if key == c@[i as int].0@ {
                            Some(vals)
                        } else {
                            lookup(before, key)
                        }));
                        if key == c@[i as int].0@ {
                            assert forall|j: int| 0 <= j < i implies (#[trigger] c@.take(i as int)[j]).0@
                                != key by {
                                assert(c@.take(i as int)[j] == c@[j]);
                            }
                            lemma_lookup_absent(c@.take(i as int), key);
                            crate::track::lemma_lookup_push_pub(c@.take(i as int), c@[i as int], key);
                        } else {
                            crate::track::lemma_lookup_push_pub(c@.take(i as int), c@[i as int], key);
                        }
                    }
                }
                i = i + 1;
            }
            assert(c@.take(n as int) =~= c@);
            tk.track_total = number(c, "TOTALTRACKS");
            if tk.track_total.is_none() {
                tk.track_total = number(c, "TRACKTOTAL");
            }
            match number(c, "DISCTOTAL") {
                Some(d) => {
                    tk.disk_total = Some(d);
                },
                None => {},
            }
            match number(c, "DISCNUMBER") {
                Some(d) => {
                    tk.disk_number = Some(d);
                },
                None => {},
            }
            tk.metadata = Some(FormatMetadata::Flac(md));
        },
        other => {
            tk.metadata = other;
        },
    }
}

} // verus!

verus! {

/// Whether every block of Vorbis comments has distinct keys.
pub open spec fn blocks_distinct(bs: Seq<FlacBlock>) -> bool {
    forall|i: int|
        0 <= i < bs.len() ==> (#[trigger] bs[i] matches FlacBlock::VorbisComment(c) ==> distinct_keys(
            c@,
        ))
}

/// The tags after the blocks `bs` in turn (see `vorbis_tags`).
pub open spec fn blocks_tags(m: TagModel, bs: Seq<FlacBlock>) -> TagModel
    decreases bs.len(),
{
    if bs.len() == 0 {
        m
    } else {
        let p = blocks_tags(m, bs.drop_last());
        match bs.last() {
            FlacBlock::VorbisComment(c) => vorbis_tags(p, c@),
            _ => p,
        }
    }
}

/// The format after the blocks `bs`: that of the last stream information.
pub open spec fn blocks_format(f: Option<CodecFormat>, bs: Seq<FlacBlock>) -> Option<CodecFormat>
    decreases bs.len(),
{
    if bs.len() == 0 {
        f
    } else {
        match bs.last() {
            FlacBlock::StreamInfo(si) => Some(CodecFormat::PCM(stream_format(si))),
            _ => blocks_format(f, bs.drop_last()),
        }
    }
}

/// The values of comment `key` after the blocks `bs`: those of the last
/// block of comments that has the key.
pub open spec fn blocks_comment(bs: Seq<FlacBlock>, key: Seq<char>) -> Option<Seq<Seq<char>>>
    decreases bs.len(),
{
    if bs.len() == 0 {
        None
    } else {
        match bs.last() {
            FlacBlock::VorbisComment(c) => if lookup(c@, key) is Some {
                values_of(lookup(c@, key))
            } else {
                blocks_comment(bs.drop_last(), key)
            },
            _ => blocks_comment(bs.drop_last(), key),
        }
    }
}

impl Flac {
    /// The name of this format: "flac".
    pub fn name(&self) -> (r: &'static str)
        ensures
            r@ == "flac"@,
    {
        proof {
            reveal_strlit("flac");
        }
        "flac"
    }

    /// A track of the FLAC file at `path` from its metadata blocks: the last
    /// stream information gives the PCM format, the Vorbis comments the tags
    /// (see `blocks_tags`) and the track's FLAC metadata (see `blocks_comment`).
    pub fn get_track(&self, path: std::path::PathBuf, blocks: Vec<FlacBlock>) -> (tk: Track)
        requires
            blocks_distinct(blocks@),
        ensures
            tk.file_format matches Some(s) && s@ == "flac"@,
            tk.path == path,
            tk.album_artist is None,
            tk.format == blocks_format(None, blocks@),
            tags_of(tk) == blocks_tags(crate::mp3::tag_tags(None), blocks@),
            tk.metadata matches Some(FormatMetadata::Flac(md)) && forall|key: Seq<char>|
                #![trigger lookup(md.comments@, key)]
                values_of(lookup(md.comments@, key)) == blocks_comment(blocks@, key),
    {
        let mut tk = Track::default();
        proof {
            reveal_strlit("flac");
        }
        tk.file_format = Some(self.name().to_owned());
        tk.path = path;
        tk.metadata = Some(FormatMetadata::Flac(FlacMetadata { comments: Vec::new() }));
        let ghost t0 = tags_of(tk);
        let n = blocks.len();
        let mut i: usize = 0;
        while i < n
            invariant
                n == blocks@.len(),
                blocks_distinct(blocks@),
                i <= n,
                tk.file_format matches Some(s) && s@ == "flac"@,
                tk.path == path,
                tk.album_artist is None,
                tk.format == blocks_format(None, blocks@.take(i as int)),
                tags_of(tk) == blocks_tags(t0, blocks@.take(i as int)),
                tk.metadata matches Some(FormatMetadata::Flac(md)) && forall|key: Seq<char>|
                    #![trigger lookup(md.comments@, key)]
                    values_of(lookup(md.comments@, key)) == blocks_comment(blocks@.take(i as int), key),
            decreases n - i,
        {
            proof {
                let q = blocks@.take(i + 1);
                assert(q.drop_last() =~= blocks@.take(i as int));
                assert(q.last() == blocks@[i as int]);
            }
            match &blocks[i] {
                FlacBlock::StreamInfo(si) => si_hydrate(si, &mut tk),
                FlacBlock::VorbisComment(c) => {
                    assert(blocks_distinct(blocks@));
                    assert(blocks@[i as int] matches FlacBlock::VorbisComment(cc) && cc == *c);
                    vorbis_hydrate(c, &mut tk);
                },
                FlacBlock::Other => {},
            }
            i = i + 1;
        }
        assert(blocks@.take(n as int) =~= blocks@);
        tk
    }
}

} // verus!

verus! {

/// The little-endian 32 bit integer at `i` in `s`.
pub open spec fn le32(s: Seq<u8>, i: int) -> int {
    s[i] + s[i + 1] * 256 + s[i + 2] * 65536 + s[i + 3] * 16777216
}

/// Whether `s[i..j]` holds the byte `=`.
pub open spec fn has_equals(s: Seq<u8>, i: int, j: int) -> bool {
    exists|k: int| i <= k < j && s[k] == 61
}

/// Whether `n` Vorbis comments from `i` on each fit in `d` (a length, then
/// that many bytes) and each holds `=`, as the FLAC reader takes them apart.
pub open spec fn comments_fit(d: Seq<u8>, i: int, n: nat) -> bool
    decreases n,
{
    if n == 0 {
        true
    } else {
        &&& 0 <= i && i + 4 <= d.len()
        &&& i + 4 + le32(d, i) <= d.len()
        &&& has_equals(d, i + 4, i + 4 + le32(d, i))
        &&& comments_fit(d, i + 4 + le32(d, i), (n - 1) as nat)
    }
}

/// Whether a Vorbis comment block `d` can be taken apart: vendor string,
/// number of comments and the comments all fit.
pub open spec fn vorbis_fits(d: Seq<u8>) -> bool {
    &&& d.len() >= 4
    &&& 4 + le32(d, 0) + 4 <= d.len()
    &&& comments_fit(d, 8 + le32(d, 0), le32(d, 4 + le32(d, 0)) as nat)
}

/// Whether a picture block `d` can be taken apart: type, MIME type and
/// description with their lengths, four numbers, and the data with its length.
pub open spec fn picture_fits(d: Seq<u8>) -> bool {
    &&& d.len() >= 12
    &&& 12 + be32(d, 4) <= d.len()
    &&& {
        let q = 12 + be32(d, 4) + be32(d, 8 + be32(d, 4));
        q + 20 <= d.len() && q + 20 + be32(d, q + 16) <= d.len()
    }
}

/// Whether `n` cue sheet tracks from `i` on fit in `d`: 36 bytes each, the
/// last of them the number of indices, then 12 bytes for each index.
pub open spec fn cue_tracks_fit(d: Seq<u8>, i: int, n: nat) -> bool
    decreases n,
{
    if n == 0 {
        true
    } else {
        &&& 0 <= i && i + 36 <= d.len()
        &&& i + 36 + 12 * d[i + 35] <= d.len()
        &&& cue_tracks_fit(d, i + 36 + 12 * d[i + 35], (n - 1) as nat)
    }
}

/// Whether a cue sheet block `d` can be taken apart: a 396 byte head whose
/// last byte is the number of tracks, then the tracks.
pub open spec fn cue_fits(d: Seq<u8>) -> bool {
    d.len() >= 396 && cue_tracks_fit(d, 396, d[395] as nat)
}

/// Whether a metadata block of type `t` with data `d` can be taken apart:
/// stream information needs its 34 bytes, an application block its 4 byte
/// id; Vorbis comments, pictures and cue sheets must fit (see above).
pub open spec fn block_fits(t: u8, d: Seq<u8>) -> bool {
    &&& t == 0 ==> d.len() >= 34
    &&& t == 2 ==> d.len() >= 4
    &&& t == 4 ==> vorbis_fits(d)
    &&& t == 5 ==> cue_fits(d)
    &&& t == 6 ==> picture_fits(d)
}

/// Whether the metadata blocks from `p` on can be taken apart: each block
/// header (last flag and type, 24 bit length) with its data, which ends
/// early at the end of the buffer, until the last block.
pub open spec fn blocks_fit(b: Seq<u8>, p: int) -> bool
    decreases b.len() - p,
{
    if p < 0 || p + 4 > b.len() {
        true
    } else {
        let l = be24(b, p + 1);
        let end = if p + 4 + l <= b.len() { p + 4 + l } else { b.len() as int };
        block_fits(b[p] % 128, b.subrange(p + 4, end)) && (b[p] >= 128 || p + 4 + l > b.len()
            || blocks_fit(b, p + 4 + l))
    }
}

/// Whether `metaflac::Tag::read_from` can read `b` without panicking, as far
/// as this library takes it: at most 2^30 bytes; no ID3v2 tag in front (the
/// reader would skip it); and after `fLaC`, blocks that can be taken apart
/// (the reader slices them by their lengths). Bytes that do not start with
/// `fLaC` are refused by the reader.
pub open spec fn flac_readable(b: Seq<u8>) -> bool {
    &&& b.len() <= 0x4000_0000
    &&& !(b.len() >= 4 && b[0] == 73 && b[1] == 68 && b[2] == 51 && 2 <= b[3] <= 4)
    &&& is_flac(b) ==> blocks_fit(b, 4)
}

fn read_le32(b: &[u8], i: usize) -> (r: u32)
    requires
        i + 4 <= b@.len(),
    ensures
        r == le32(b@, i as int),
{
    (b[i] as u32) + (b[i + 1] as u32) * 256 + (b[i + 2] as u32) * 65536 + (b[i + 3] as u32) * 16777216
}

fn read_be24(b: &[u8], i: usize) -> (r: u32)
    requires
        i + 3 <= b@.len(),
    ensures
        r == be24(b@, i as int),
{
    (b[i] as u32) * 65536 + (b[i + 1] as u32) * 256 + (b[i + 2] as u32)
}

fn holds_equals(b: &[u8], i: usize, j: usize) -> (r: bool)
    requires
        i <= j <= b@.len(),
    ensures
        r == has_equals(b@, i as int, j as int),
{
    let mut k = i;
    while k < j
        invariant
            i <= k <= j <= b@.len(),
            forall|q: int| i <= q < k ==> b@[q] != 61,
        decreases j - k,
    {
        if b[k] == 61 {
            return true;
        }
        k = k + 1;
    }
    false
}

fn vorbis_fits_at(d: &[u8]) -> (r: bool)
    ensures
        r == vorbis_fits(d@),
{
    let len = d.len();
    if len < 4 {
        return false;
    }
    let vl = read_le32(d, 0) as usize;
    if vl > len - 4 || len - 4 - vl < 4 {
        return false;
    }
    let n = read_le32(d, 4 + vl);
    let mut i: usize = 8 + vl;
    let mut k: u32 = 0;
    while k < n
        invariant
            len == d@.len(),
            8 + vl <= len,
            i <= len,
            k <= n,
            vorbis_fits(d@) == comments_fit(d@, i as int, (n - k) as nat),
            n == le32(d@, 4 + vl),
            vl == le32(d@, 0),
        decreases n - k,
    {
        if len - i < 4 {
            return false;
        }
        let cl = read_le32(d, i) as usize;
        if cl > len - i - 4 {
            return false;
        }
        if !holds_equals(d, i + 4, i + 4 + cl) {
            return false;
        }
        i = i + 4 + cl;
        k = k + 1;
    }
    true
}

fn picture_fits_at(d: &[u8]) -> (r: bool)
    ensures
        r == picture_fits(d@),
{
    let len = d.len();
    if len < 12 {
        return false;
    }
    let ml = read_u32(d, 4) as usize;
    if ml > len - 12 {
        return false;
    }
    let dl = read_u32(d, 8 + ml) as usize;
    if dl > len - 12 - ml || len - 12 - ml - dl < 20 {
        return false;
    }
    let q = 12 + ml + dl;
    let pl = read_u32(d, q + 16) as usize;
    pl <= len - q - 20
}

fn cue_fits_at(d: &[u8]) -> (r: bool)
    ensures
        r == cue_fits(d@),
{
    let len = d.len();
    if len < 396 {
        return false;
    }
    let n = d[395];
    let mut i: usize = 396;
    let mut k: u8 = 0;
    while k < n
        invariant
            len == d@.len(),
            396 <= i <= len,
            k <= n,
            n == d@[395],
            cue_fits(d@) == cue_tracks_fit(d@, i as int, (n - k) as nat),
        decreases n - k,
    {
        if len - i < 36 {
            return false;
        }
        let ni = d[i + 35] as usize;
        if 12 * ni > len - i - 36 {
            return false;
        }
        i = i + 36 + 12 * ni;
        k = k + 1;
    }
    true
}

fn block_fits_at(t: u8, d: &[u8]) -> (r: bool)
    ensures
        r == block_fits(t, d@),
{
    if t == 0 {
        d.len() >= 34
    } else if t == 2 {
        d.len() >= 4
    } else if t == 4 {
        vorbis_fits_at(d)
    } else if t == 5 {
        cue_fits_at(d)
    } else if t == 6 {
        picture_fits_at(d)
    } else {
        true
    }
}

/// Whether `b` can be read as FLAC metadata (see `flac_readable`).
pub fn readable_flac(b: &[u8]) -> (r: bool)
    ensures
        r == flac_readable(b@),
{
    let len = b.len();
    if len > 0x4000_0000 {
        return false;
    }
    if len >= 4 && b[0] == 73 && b[1] == 68 && b[2] == 51 && 2 <= b[3] && b[3] <= 4 {
        return false;
    }
    if !(len >= 4 && b[0] == 102 && b[1] == 76 && b[2] == 97 && b[3] == 67) {
        proof {
            if is_flac(b@) {
                assert(b@.take(4)[0] == b@[0] && b@.take(4)[1] == b@[1]);
                assert(b@.take(4)[2] == b@[2] && b@.take(4)[3] == b@[3]);
            }
        }
        return true;
    }
    assert(b@.take(4) =~= flac_marker());
    assert(flac_readable(b@) == blocks_fit(b@, 4));
    let mut p: usize = 4;
    while p + 4 <= len
        invariant
            len == b@.len(),
            len <= 0x4000_0000,
            4 <= p <= len,
            flac_readable(b@) == blocks_fit(b@, p as int),
        decreases len - p,
    {
        let l = read_be24(b, p + 1) as usize;
        let end = if l <= len - p - 4 { p + 4 + l } else { len };
        let d = slice_of(b, p + 4, end);
        proof {
            let pi = p as int;
            let lv = be24(b@, pi + 1);
            let e2 = if pi + 4 + lv <= b@.len() { pi + 4 + lv } else { b@.len() as int };
            assert(e2 == end);
            assert(blocks_fit(b@, pi) == (block_fits(b@[pi] % 128, b@.subrange(pi + 4, e2)) && (b@[pi]
                >= 128 || pi + 4 + lv > b@.len() || blocks_fit(b@, pi + 4 + lv))));
        }
        if !block_fits_at(b[p] % 128, d) {
            return false;
        }
        if b[p] >= 128 {
            return true;
        }
        if l > len - p - 4 {
            return true;
        }
        p = p + 4 + l;
    }
    true
}

fn slice_of(b: &[u8], i: usize, j: usize) -> (r: &[u8])
    requires
        i <= j <= b@.len(),
    ensures
        r@ == b@.subrange(i as int, j as int),
{
    &b[i..j]
}

} // verus!

verus! {

/// The kind of a failure to read FLAC metadata: reading ran out of bytes,
/// text was not UTF-8, or the input was not FLAC metadata.
#[derive(Debug, Clone, Copy, PartialEq, Eq, Structural)]
pub enum FlacErrorKind {
    Io,
    StringDecoding,
    InvalidInput,
}

/// A metadata block as values: stream information, Vorbis comments as the
/// values of each key, or another block.
pub enum FlacBlockView {
    StreamInfo(StreamInfo),
    VorbisComment(Map<Seq<char>, Seq<Seq<char>>>),
    Other,
}

/// A metadata block as values.
pub open spec fn block_view(b: FlacBlock) -> FlacBlockView {
    match b {
        FlacBlock::StreamInfo(si) => FlacBlockView::StreamInfo(si),
        FlacBlock::VorbisComment(c) => FlacBlockView::VorbisComment(values_map(c@)),
        FlacBlock::Other => FlacBlockView::Other,
    }
}

/// Metadata blocks as values.
pub open spec fn blocks_view(bs: Seq<FlacBlock>) -> Seq<FlacBlockView> {
    bs.map_values(|b: FlacBlock| block_view(b))
}

/// The result of reading metadata blocks, as values.
pub open spec fn flac_result_view(r: Result<Vec<FlacBlock>, FlacErrorKind>) -> Result<
    Seq<FlacBlockView>,
    FlacErrorKind,
> {
    match r {
        Ok(bs) => Ok(blocks_view(bs@)),
        Err(k) => Err(k),
    }
}

/// What `metaflac::Tag::read_from` reads from the bytes of a FLAC file: its
/// metadata blocks in order, or the kind of its error.
pub uninterp spec fn flac_parse(b: Seq<u8>) -> Result<Seq<FlacBlockView>, FlacErrorKind>;

/// Reads the metadata blocks of the FLAC file `b` with
/// `metaflac::Tag::read_from`: the blocks (stream information, Vorbis
/// comments, others) or the kind of error are named `flac_parse`. The
/// comments of a block come from a map, so each key occurs once; the order of
/// the keys is not stated. Inputs on which the reader would panic are left
/// out (see `flac_readable`).
#[verifier::external_body]
fn read_flac_blocks(b: &[u8]) -> (r: Result<Vec<FlacBlock>, FlacErrorKind>)
    requires
        flac_readable(b@),
    ensures
        flac_result_view(r) == flac_parse(b@),
        r matches Ok(bs) ==> blocks_distinct(bs@),
{
    let mut rd = b;
    match metaflac::Tag::read_from(&mut rd) {
        Ok(t) => Ok(t.blocks().map(|bl| match bl {
            metaflac::Block::StreamInfo(s) => FlacBlock::StreamInfo(StreamInfo { sample_rate: s.sample_rate, num_channels: s.num_channels, bits_per_sample: s.bits_per_sample, total_samples: s.total_samples }),
            metaflac::Block::VorbisComment(v) => FlacBlock::VorbisComment(v.comments.clone().into_iter().collect()),
            _ => FlacBlock::Other,
        }).collect()),
        Err(e) => Err(match e.kind {
            metaflac::ErrorKind::Io(_) => FlacErrorKind::Io,
            metaflac::ErrorKind::StringDecoding(_) => FlacErrorKind::StringDecoding,
            metaflac::ErrorKind::InvalidInput => FlacErrorKind::InvalidInput,
        }),
    }
}

/// Texts joined with `sep` between each two.
pub open spec fn join_texts(v: Seq<Seq<char>>, sep: char) -> Seq<char>
    decreases v.len(),
{
    if v.len() == 0 {
        Seq::empty()
    } else if v.len() == 1 {
        v[0]
    } else {
        join_texts(v.drop_last(), sep) + seq![sep] + v.last()
    }
}

/// The values of comment `key` in `cm`, joined by `/`.
pub open spec fn joined_in(cm: Map<Seq<char>, Seq<Seq<char>>>, key: Seq<char>) -> Option<Seq<char>> {
    if cm.contains_key(key) {
        Some(join_texts(cm[key], '/'))
    } else {
        None
    }
}

/// The number in the first value of comment `key` in `cm`.
pub open spec fn number_in(cm: Map<Seq<char>, Seq<Seq<char>>>, key: Seq<char>) -> Option<u32> {
    if cm.contains_key(key) && cm[key].len() > 0 {
        parse_u32_spec(cm[key][0])
    } else {
        None
    }
}

/// The tags that the Vorbis comments `cm` give (as `vorbis_tags`).
pub open spec fn vorbis_tags_in(m: TagModel, cm: Map<Seq<char>, Seq<Seq<char>>>) -> TagModel {
    TagModel {
        title: match joined_in(cm, "TITLE"@) {
            Some(t) => Some(t),
            None => m.title,
        },
        album: match joined_in(cm, "ALBUM"@) {
            Some(t) => Some(t),
            None => m.album,
        },
        artist: match joined_in(cm, "ARTIST"@) {
            Some(t) => Some(t),
            None => match joined_in(cm, "ALBUMARTIST"@) {
                Some(t) => Some(t),
                None => m.artist,
            },
        },
        track_number: number_in(cm, "TRACKNUMBER"@),
        track_total: match number_in(cm, "TOTALTRACKS"@) {
            Some(t) => Some(t),
            None => number_in(cm, "TRACKTOTAL"@),
        },
        disk_total: match number_in(cm, "DISCTOTAL"@) {
            Some(t) => Some(t),
            None => m.disk_total,
        },
        disk_number: match number_in(cm, "DISCNUMBER"@) {
            Some(t) => Some(t),
            None => m.disk_number,
        },
    }
}

/// The tags after the blocks `bs` in turn (as `blocks_tags`).
pub open spec fn blocks_tags_in(m: TagModel, bs: Seq<FlacBlockView>) -> TagModel
    decreases bs.len(),
{
    if bs.len() == 0 {
        m
    } else {
        let p = blocks_tags_in(m, bs.drop_last());
        match bs.last() {
            FlacBlockView::VorbisComment(cm) => vorbis_tags_in(p, cm),
            _ => p,
        }
    }
}

/// The format after the blocks `bs`: that of the last stream information.
pub open spec fn blocks_format_in(f: Option<CodecFormat>, bs: Seq<FlacBlockView>) -> Option<CodecFormat>
    decreases bs.len(),
{
    if bs.len() == 0 {
        f
    } else {
        match bs.last() {
            FlacBlockView::StreamInfo(si) => Some(CodecFormat::PCM(stream_format(si))),
            _ => blocks_format_in(f, bs.drop_last()),
        }
    }
}

/// The values of comment `key` after the blocks `bs`: those of the last
/// block of comments that has the key.
pub open spec fn blocks_comment_in(bs: Seq<FlacBlockView>, key: Seq<char>) -> Option<Seq<Seq<char>>>
    decreases bs.len(),
{
    if bs.len() == 0 {
        None
    } else {
        match bs.last() {
            FlacBlockView::VorbisComment(cm) => if cm.contains_key(key) {
                Some(cm[key])
            } else {
                blocks_comment_in(bs.drop_last(), key)
            },
            _ => blocks_comment_in(bs.drop_last(), key),
        }
    }
}

/// Whether `tk` is the track of the FLAC file at `path` with the metadata
/// blocks `bs`: the last stream information gives the PCM format, the Vorbis
/// comments the tags and the track's FLAC metadata.
pub open spec fn is_flac_track(tk: Track, path: std::path::PathBuf, bs: Seq<FlacBlockView>) -> bool {
    &&& tk.file_format matches Some(s) && s@ == "flac"@
    &&& tk.path == path
    &&& tk.album_artist is None
    &&& tk.format == blocks_format_in(None, bs)
    &&& tags_of(tk) == blocks_tags_in(tag_tags(None), bs)
    &&& tk.metadata matches Some(FormatMetadata::Flac(md)) && forall|key: Seq<char>|
        #![trigger lookup(md.comments@, key)]
        values_of(lookup(md.comments@, key)) == blocks_comment_in(bs, key)
}

proof fn lemma_join_texts(v: Seq<String>, sep: char)
    ensures
        join_with(v, sep) == join_texts(v.map_values(|s: String| s@), sep),
    decreases v.len(),
{
    if v.len() > 1 {
        lemma_join_texts(v.drop_last(), sep);
        assert(v.map_values(|s: String| s@).drop_last() =~= v.drop_last().map_values(|s: String| s@));
    }
}

proof fn lemma_key_in(c: Seq<(String, Vec<String>)>, key: Seq<char>)
    ensures
        joined_values(c, key) == joined_in(values_map(c), key),
        number_value(c, key) == number_in(values_map(c), key),
{
    match lookup(c, key) {
        Some(v) => {
            lemma_join_texts(v@, '/');
            assert(values_map(c)[key] == v@.map_values(|s: String| s@));
        },
        None => {},
    }
}

proof fn lemma_vorbis_in(m: TagModel, c: Seq<(String, Vec<String>)>)
    ensures
        vorbis_tags(m, c) == vorbis_tags_in(m, values_map(c)),
{
    lemma_key_in(c, "TITLE"@);
    lemma_key_in(c, "ALBUM"@);
    lemma_key_in(c, "ARTIST"@);
    lemma_key_in(c, "ALBUMARTIST"@);
    lemma_key_in(c, "TRACKNUMBER"@);
    lemma_key_in(c, "TOTALTRACKS"@);
    lemma_key_in(c, "TRACKTOTAL"@);
    lemma_key_in(c, "DISCTOTAL"@);
    lemma_key_in(c, "DISCNUMBER"@);
}

proof fn lemma_blocks_in(m: TagModel, bs: Seq<FlacBlock>)
    ensures
        blocks_tags(m, bs) == blocks_tags_in(m, blocks_view(bs)),
        blocks_format(None, bs) == blocks_format_in(None, blocks_view(bs)),
        forall|key: Seq<char>| #[trigger] blocks_comment(bs, key) == blocks_comment_in(blocks_view(bs), key),
    decreases bs.len(),
{
    if bs.len() > 0 {
        lemma_blocks_in(m, bs.drop_last());
        assert(blocks_view(bs).drop_last() =~= blocks_view(bs.drop_last()));
        assert(blocks_view(bs).last() == block_view(bs.last()));
        match bs.last() {
            FlacBlock::VorbisComment(c) => {
                lemma_vorbis_in(blocks_tags(m, bs.drop_last()), c@);
                assert forall|key: Seq<char>|
                    #[trigger] blocks_comment(bs, key) == blocks_comment_in(blocks_view(bs), key) by {
                    assert(blocks_comment(bs.drop_last(), key) == blocks_comment_in(
                        blocks_view(bs.drop_last()),
                        key,
                    ));
                    if lookup(c@, key) is Some {
                        assert(values_map(c@).contains_key(key));
                        assert(values_map(c@)[key] == lookup(c@, key)->0@.map_values(|s: String| s@));
                    }
                }
            },
            _ => {
                assert forall|key: Seq<char>|
                    #[trigger] blocks_comment(bs, key) == blocks_comment_in(blocks_view(bs), key) by {
                    assert(blocks_comment(bs.drop_last(), key) == blocks_comment_in(
                        blocks_view(bs.drop_last()),
                        key,
                    ));
                }
            },
        }
    }
}

impl Flac {
    /// A track of the FLAC file at `path` from its bytes `b`: the metadata
    /// blocks read from them (see `flac_parse`) make the track as `get_track`
    /// does (see `is_flac_track`). Input that is not FLAC gives no track;
    /// another error gives its kind.
    pub fn get_track_from_bytes(&self, path: std::path::PathBuf, b: &[u8]) -> (r: Result<
        Option<Track>,
        FlacErrorKind,
    >)
        requires
            flac_readable(b@),
        ensures
            match flac_parse(b@) {
                Err(FlacErrorKind::InvalidInput) => r matches Ok(None),
                Err(k) => r == Err::<Option<Track>, FlacErrorKind>(k),
                Ok(bs) => r matches Ok(Some(tk)) && is_flac_track(tk, path, bs),
            },
    {
        match read_flac_blocks(b) {
            Err(k) => match k {
                FlacErrorKind::InvalidInput => Ok(None),
                _ => Err(k),
            },
            Ok(bs) => {
                let ghost v = bs@;
                let tk = self.get_track(path, bs);
                proof {
                    lemma_blocks_in(tag_tags(None), v);
                }
                Ok(Some(tk))
            },
        }
    }
}

} // verus!

verus! {

/// After a block of Vorbis comments that holds the key `ALBUM` with values
/// `v`, the track's album is those values joined by `/`; `TITLE` gives the
/// title in the same way, and `ARTIST` the artist.
pub proof fn lemma_vorbis_album_title_artist(t1: Track, t2: Track, c: Seq<(String, Vec<String>)>)
    requires
        tags_of(t2) == vorbis_tags(tags_of(t1), c),
    ensures
        lookup(c, "ALBUM"@) matches Some(v) ==> (t2.album matches Some(a) && a@ == join_with(v@, '/')),
        lookup(c, "TITLE"@) matches Some(v) ==> (t2.title matches Some(a) && a@ == join_with(v@, '/')),
        lookup(c, "ARTIST"@) matches Some(v) ==> (t2.artist matches Some(a) && a@ == join_with(v@, '/')),
        lookup(c, "ALBUM"@) is None ==> t2.album == t1.album || (t2.album matches Some(a)
            && t1.album matches Some(b) && a@ == b@),
{
}

/// After a block of Vorbis comments that holds the key `TRACKNUMBER`, the
/// track's number is the number that the key's first value reads as.
pub proof fn lemma_vorbis_track_number(t1: Track, t2: Track, c: Seq<(String, Vec<String>)>)
    requires
        tags_of(t2) == vorbis_tags(tags_of(t1), c),
    ensures
        lookup(c, "TRACKNUMBER"@) matches Some(v) ==> (v@.len() > 0 ==> t2.track_number
            == parse_u32_spec(v@[0]@)),
        lookup(c, "TRACKNUMBER"@) is None ==> t2.track_number is None,
{
}

/// A FLAC track whose last metadata block is a block of Vorbis comments
/// holding `ALBUM` with values `v` has for album those values joined by `/`
/// (and likewise `TITLE` and `ARTIST`), as `Flac::get_track` makes it.
pub proof fn lemma_flac_track_album(tk: Track, bs: Seq<FlacBlock>, c: Vec<(String, Vec<String>)>)
    requires
        tags_of(tk) == blocks_tags(tag_tags(None), bs),
        bs.len() > 0,
        bs.last() == FlacBlock::VorbisComment(c),
    ensures
        lookup(c@, "ALBUM"@) matches Some(v) ==> (tk.album matches Some(a) && a@ == join_with(v@, '/')),
        lookup(c@, "TITLE"@) matches Some(v) ==> (tk.title matches Some(a) && a@ == join_with(v@, '/')),
        lookup(c@, "ARTIST"@) matches Some(v) ==> (tk.artist matches Some(a) && a@ == join_with(
            v@,
            '/',
        )),
{
}

/// A FLAC track read from bytes (see `is_flac_track`) whose last metadata
/// block holds comments under `ALBUM` has for album those values joined by
/// `/` (and likewise `TITLE` and `ARTIST`).
pub proof fn lemma_flac_bytes_album(tk: Track, path: std::path::PathBuf, bs: Seq<FlacBlockView>, cm: Map<Seq<char>, Seq<Seq<char>>>)
    requires
        is_flac_track(tk, path, bs),
        bs.len() > 0,
        bs.last() == FlacBlockView::VorbisComment(cm),
    ensures
        cm.contains_key("ALBUM"@) ==> (tk.album matches Some(a) && a@ == join_texts(cm["ALBUM"@], '/')),
        cm.contains_key("TITLE"@) ==> (tk.title matches Some(a) && a@ == join_texts(cm["TITLE"@], '/')),
        cm.contains_key("ARTIST"@) ==> (tk.artist matches Some(a) && a@ == join_texts(
            cm["ARTIST"@],
            '/',
        )),
{
}

} // verus!

verus! {

/// After a block of Vorbis comments, the track total is the number in the
/// first value of `TOTALTRACKS`, or else of `TRACKTOTAL`; the disk number and
/// total are those of `DISCNUMBER` and `DISCTOTAL` (kept when absent); and
/// without `ARTIST` the artist is `ALBUMARTIST`'s values joined by `/`.
pub proof fn lemma_vorbis_totals_and_fallbacks(t1: Track, t2: Track, c: Seq<(String, Vec<String>)>)
    requires
        tags_of(t2) == vorbis_tags(tags_of(t1), c),
    ensures
        lookup(c, "TOTALTRACKS"@) matches Some(v) ==> (v@.len() > 0 && parse_u32_spec(v@[0]@) is Some
            ==> t2.track_total == parse_u32_spec(v@[0]@)),
        lookup(c, "TOTALTRACKS"@) is None ==> (lookup(c, "TRACKTOTAL"@) matches Some(v) ==> (v@.len()
            > 0 ==> t2.track_total == parse_u32_spec(v@[0]@))),
        lookup(c, "DISCNUMBER"@) matches Some(v) ==> (v@.len() > 0 && parse_u32_spec(v@[0]@) is Some
            ==> t2.disk_number == parse_u32_spec(v@[0]@)),
        lookup(c, "DISCNUMBER"@) is None ==> t2.disk_number == t1.disk_number,
        lookup(c, "DISCTOTAL"@) matches Some(v) ==> (v@.len() > 0 && parse_u32_spec(v@[0]@) is Some
            ==> t2.disk_total == parse_u32_spec(v@[0]@)),
        lookup(c, "DISCTOTAL"@) is None ==> t2.disk_total == t1.disk_total,
        lookup(c, "ARTIST"@) is None ==> (lookup(c, "ALBUMARTIST"@) matches Some(v) ==> (t2.artist matches Some(
            a,
        ) && a@ == join_with(v@, '/'))),
{
}

/// A FLAC track whose last metadata block is stream information has the PCM
/// format of that stream: its sample rate, channels, bits per sample and
/// total samples.
pub proof fn lemma_flac_stream_format(tk: Track, bs: Seq<FlacBlock>, si: StreamInfo)
    requires
        tk.format == blocks_format(None, bs),
        bs.len() > 0,
        bs.last() == FlacBlock::StreamInfo(si),
    ensures
        tk.format matches Some(CodecFormat::PCM(p)) && p.sample_rate == si.sample_rate && p.channels
            == si.num_channels && p.bits_per_sample == si.bits_per_sample && p.total_samples
            == si.total_samples,
{
}

/// The FLAC metadata of a track (as `Flac::get_track` makes it) holds, for a
/// key of the last block of comments, that block's values for it.
pub proof fn lemma_flac_comments_kept(tk: Track, bs: Seq<FlacBlock>, c: Vec<(String, Vec<String>)>, key: Seq<char>)
    requires
        tk.metadata matches Some(FormatMetadata::Flac(md)) && forall|k: Seq<char>|
            #![trigger lookup(md.comments@, k)]
            values_of(lookup(md.comments@, k)) == blocks_comment(bs, k),
        bs.len() > 0,
        bs.last() == FlacBlock::VorbisComment(c),
        lookup(c@, key) is Some,
    ensures
        tk.metadata matches Some(FormatMetadata::Flac(md)) && lookup(md.comments@, key) matches Some(w)
            && w@.map_values(|s: String| s@) == lookup(c@, key)->0@.map_values(|s: String| s@),
{
    match tk.metadata {
        Some(FormatMetadata::Flac(md)) => {
            assert(values_of(lookup(md.comments@, key)) == blocks_comment(bs, key));
        },
        _ => {},
    }
}

} // verus!
