//! Implementation of MPEG4 metadata reading.
pub mod boxes;
pub mod find;
pub mod formats;
pub mod util;

use crate::file::FileFormat;
use crate::text::{
    chars_to_string, debug_quoted, debug_text, decimal, lossy_utf8, push_decimal, push_str,
    utf8_lossy,
};
use crate::track::{
    insert_entry, lookup, mpeg4_audio_format_default, CodecFormat, FormatMetadata,
    MPEG4AudioFormat, MPEG4Metadata, Track, UNIX_EPOCH_1904,
};
use boxes::box_types::{
    box_type_text, four_cc_text, ContainerType, FourCC, AART, AARTC, DATA, DISK, DRMS, ESDS, FTYP, MDAT, MDHD, MP4A, PINF, SCHM,
    SOAL, SOAR, SONM, TRKN, XALB, XART, XARTC, XNAM,
};
use boxes::ilst::{data_box_content, get_data_box, DataBoxContent, DataContentView};
use boxes::mdia::{get_mdhd, mdhd_size};
use boxes::stbl::{esds_walk, read_esds, read_mp4a, read_schm, EsdsFields, MP4A_READ_SIZE};
use boxes::{
    lemma_parse_box_step, be16, be32, be64, boxes_of, ftyp_values, get_ftyp_box_values, parse_box, read_u16, read_u32,
    BoxView, FtypView, MP4Box, MP4Buffer, FULL_BOX_HEADER_SIZE,
};
use find::lemma_boxes_of_unfold;
use util::{can_add, lemma_complete_is_prefix, level_add, level_complete, path_text, BoxCounter, LevelStack, Tabs};
use vstd::prelude::*;

verus! {

/// MPEG4 file model which includes data from an FTYP box.
pub struct Mpeg4 {
    pub brand: String,
    pub version: u8,
    pub flags: u32,
    pub compatible_brands: Vec<String>,
}

/// `Mpeg4` seen as values.
pub struct Mpeg4View {
    pub brand: Seq<char>,
    pub version: u8,
    pub flags: u32,
    pub compatible_brands: Seq<Seq<char>>,
}

impl View for Mpeg4 {
    type V = Mpeg4View;

    open spec fn view(&self) -> Mpeg4View {
        Mpeg4View {
            brand: self.brand@,
            version: self.version,
            flags: self.flags,
            compatible_brands: self.compatible_brands@.map_values(|s: String| s@),
        }
    }
}

impl Default for Mpeg4 {
    fn default() -> (r: Mpeg4)
        ensures
            r@.brand.len() == 0,
            r.version == 0,
            r.flags == 0,
            r@.compatible_brands.len() == 0,
    {
        Mpeg4 { brand: String::new(), version: 0, flags: 0, compatible_brands: Vec::new() }
    }
}

/// The file model for FTYP values: the brands as (lossy) UTF-8 text.
pub open spec fn mpeg4_of(f: FtypView) -> Mpeg4View {
    Mpeg4View {
        brand: lossy_utf8(f.brand),
        version: f.version,
        flags: f.flags,
        compatible_brands: f.compat_brands.map_values(|b: Seq<u8>| lossy_utf8(b)),
    }
}

/// Whether `b` starts with a file type box: a box header whose type is `ftyp`.
pub open spec fn is_ftyp(b: Seq<u8>) -> bool {
    b.len() >= 8 && be32(b, 4) == FTYP
}

/// Takes the first few bytes and indicates by returning a FileFormat if this
/// module can parse the file for metadata: the bytes must start with a file
/// type box, whose values are read from the bytes that follow its header.
pub fn identify(b: &[u8]) -> (r: Option<FileFormat>)
    ensures
        r is Some <==> is_ftyp(b@),
        r matches Some(f) ==> f matches FileFormat::MPEG4(m) && m@ == mpeg4_of(
            ftyp_values(b@.skip(8)),
        ),
{
    let len = b.len();
    if len < 8 {
        return None;
    }
    if read_u32(b, 4) != FTYP {
        return None;
    }
    let rest = &b[8..len];
    assert(rest@ =~= b@.skip(8));
    let f = get_ftyp_box_values(rest);
    let ghost fv = ftyp_values(b@.skip(8));
    let mut brands: Vec<String> = Vec::new();
    let n = f.compat_brands.len();
    let mut i: usize = 0;
    while i < n
        invariant
            n == f.compat_brands@.len(),
            f@ == fv,
            i <= n,
            brands@.len() == i,
            forall|j: int|
                0 <= j < i ==> #[trigger] brands@[j]@ == lossy_utf8(f.compat_brands@[j]@),
        decreases n - i,
    {
        brands.push(utf8_lossy(f.compat_brands[i]));
        i = i + 1;
    }
    let m = Mpeg4 {
        brand: utf8_lossy(f.brand),
        version: f.version,
        flags: f.flags,
        compatible_brands: brands,
    };
    assert(m@.compatible_brands =~= mpeg4_of(fv).compatible_brands);
    Some(FileFormat::MPEG4(m))
}

} // verus!

verus! {

/// What reading an MPEG-4 file tells of its track, as values: the track's
/// text fields and numbers, the audio format, the ilst metadata by key and the
/// media times (seconds since 1904) and size.
pub struct TrackModel {
    pub title: Option<Seq<char>>,
    pub artist: Option<Seq<char>>,
    pub album_artist: Option<Seq<char>>,
    pub album: Option<Seq<char>>,
    pub track_number: Option<u32>,
    pub track_total: Option<u32>,
    pub disk_number: Option<u32>,
    pub disk_total: Option<u32>,
    pub format: MPEG4AudioFormat,
    pub text: Map<Seq<char>, Seq<char>>,
    pub byte: Map<Seq<char>, u8>,
    pub creation: u64,
    pub modification: u64,
    pub media_size: u32,
}

/// An optional string as text.
pub open spec fn opt_text(o: Option<String>) -> Option<Seq<char>> {
    match o {
        Some(s) => Some(s@),
        None => None,
    }
}

/// The text entries of `s` as a map: each key to the value of its first entry.
pub open spec fn text_map(s: Seq<(String, String)>) -> Map<Seq<char>, Seq<char>> {
    Map::new(|k: Seq<char>| lookup(s, k) is Some, |k: Seq<char>| lookup(s, k)->0@)
}

/// The byte entries of `s` as a map: each key to the value of its first entry.
pub open spec fn byte_map(s: Seq<(String, u8)>) -> Map<Seq<char>, u8> {
    Map::new(|k: Seq<char>| lookup(s, k) is Some, |k: Seq<char>| lookup(s, k)->0)
}

/// The model of a track being read, its audio format and its metadata.
pub open spec fn model_of(tk: Track, f: MPEG4AudioFormat, md: MPEG4Metadata) -> TrackModel {
    TrackModel {
        title: opt_text(tk.title),
        artist: opt_text(tk.artist),
        album_artist: opt_text(tk.album_artist),
        album: opt_text(tk.album),
        track_number: tk.track_number,
        track_total: tk.track_total,
        disk_number: tk.disk_number,
        disk_total: tk.disk_total,
        format: f,
        text: text_map(md.text@),
        byte: byte_map(md.byte@),
        creation: md.creation,
        modification: md.modification,
        media_size: md.media_size,
    }
}

/// The model of a finished MPEG-4 track: present when the track carries an
/// MPEG-4 audio format and MPEG-4 metadata.
pub open spec fn track_model(tk: Track) -> Option<TrackModel> {
    match tk.format {
        Some(CodecFormat::MPEG4(f)) => match tk.metadata {
            Some(FormatMetadata::MP4(md)) => Some(model_of(tk, f, md)),
            _ => None,
        },
        _ => None,
    }
}

/// Nothing read yet.
pub open spec fn initial_model() -> TrackModel {
    TrackModel {
        title: None,
        artist: None,
        album_artist: None,
        album: None,
        track_number: None,
        track_total: None,
        disk_number: None,
        disk_total: None,
        format: mpeg4_audio_format_default(),
        text: Map::empty(),
        byte: Map::empty(),
        creation: UNIX_EPOCH_1904,
        modification: UNIX_EPOCH_1904,
        media_size: 0,
    }
}

/// Text found in a data box under the ilst entry `key`: kept in the text
/// metadata under the entry's four character code, and taken as the album,
/// album artist, title or artist by the entry; the sort-order entries fill
/// album, artist and title only where nothing is known yet.
pub open spec fn text_step(m: TrackModel, key: u32, val: Seq<char>) -> TrackModel {
    let m2 = TrackModel { text: m.text.insert(four_cc_text(key), val), ..m };
    if key == XALB {
        TrackModel { album: Some(val), ..m2 }
    } else if key == AARTC {
        TrackModel { album_artist: Some(val), ..m2 }
    } else if key == XNAM {
        TrackModel { title: Some(val), ..m2 }
    } else if key == XART || key == XARTC || key == AART {
        TrackModel { artist: Some(val), ..m2 }
    } else if key == SOAL {
        TrackModel { album: if m2.album is None { Some(val) } else { m2.album }, ..m2 }
    } else if key == SOAR {
        TrackModel { artist: if m2.artist is None { Some(val) } else { m2.artist }, ..m2 }
    } else if key == SONM {
        TrackModel { title: if m2.title is None { Some(val) } else { m2.title }, ..m2 }
    } else {
        m2
    }
}

/// Binary data found under the ilst entry `key`: the track entry holds the
/// track number and total, the disk entry the disk number and total, as
/// big-endian 16 bit numbers at offsets 2 and 4 (data shorter than 6 bytes
/// is passed over).
pub open spec fn number_step(m: TrackModel, key: u32, v: Seq<u8>) -> TrackModel {
    if key == TRKN && v.len() >= 6 {
        TrackModel {
            track_number: Some(be16(v, 2) as u32),
            track_total: Some(be16(v, 4) as u32),
            ..m
        }
    } else if key == DISK && v.len() >= 6 {
        TrackModel { disk_number: Some(be16(v, 2) as u32), disk_total: Some(be16(v, 4) as u32), ..m }
    } else {
        m
    }
}

/// A data box whose enclosing box (the top of the stack) has code `top`.
pub open spec fn data_step(m: TrackModel, top: Option<u32>, b: BoxView) -> TrackModel {
    match top {
        None => m,
        Some(key) => match data_box_content(b) {
            None => m,
            Some(DataContentView::Text(v)) => text_step(m, key, lossy_utf8(v)),
            Some(DataContentView::Data(v)) => number_step(m, key, v),
            Some(DataContentView::Byte(x)) => TrackModel {
                byte: m.byte.insert(four_cc_text(key), x),
                ..m
            },
        },
    }
}

/// An audio sample entry (`mp4a`, or `drms` when protected): channels (kept
/// to their low byte), sample size and the 16.16 sample rate; the entry is
/// protected when it is not `mp4a`. An entry too short for these is passed over.
pub open spec fn sample_entry_step(m: TrackModel, id: u32, d: Seq<u8>) -> TrackModel {
    if d.len() >= MP4A_READ_SIZE {
        TrackModel {
            format: MPEG4AudioFormat {
                channels: (be16(d, 24) % 256) as u8,
                bits_per_sample: be16(d, 26) as u16,
                sr: be32(d, 32) as u32,
                protected: id != MP4A,
                ..m.format
            },
            ..m
        }
    } else {
        m
    }
}

/// The decoder fields of a format, as the descriptor reader starts from.
pub open spec fn esds_start(f: MPEG4AudioFormat) -> EsdsFields {
    EsdsFields {
        decoder: f.decoder,
        avg_bitrate: f.avg_bitrate,
        max_bitrate: f.max_bitrate,
        codec: f.codec,
        sample_frequency: 0,
        channel_config: f.channel_config,
    }
}

/// An elementary stream descriptor box: decoder, bitrates, codec and channel
/// configuration as its descriptors give them.
pub open spec fn esds_model_step(m: TrackModel, d: Seq<u8>) -> TrackModel {
    let e = esds_walk(d, FULL_BOX_HEADER_SIZE as int, esds_start(m.format));
    TrackModel {
        format: MPEG4AudioFormat {
            decoder: e.decoder,
            avg_bitrate: e.avg_bitrate,
            max_bitrate: e.max_bitrate,
            codec: e.codec,
            channel_config: e.channel_config,
            ..m.format
        },
        ..m
    }
}

/// The times and duration of a media header box: creation, modification and
/// duration, 64 bits wide for version 1 and 32 otherwise; `None` when the box
/// is too short for its version.
pub open spec fn mdhd_fields(b: BoxView) -> Option<(u64, u64, u64)> {
    match b.version_flag {
        None => None,
        Some(vf) => if b.data.len() < mdhd_size(vf.version) {
            None
        } else if vf.version == 1 {
            Some((be64(b.data, 12) as u64, be64(b.data, 20) as u64, be64(b.data, 32) as u64))
        } else {
            Some((be32(b.data, 12) as u64, be32(b.data, 16) as u64, be32(b.data, 24) as u64))
        },
    }
}

/// A media header box: the duration is the number of samples, and the times
/// are the media's creation and modification.
pub open spec fn mdhd_step(m: TrackModel, b: BoxView) -> TrackModel {
    match mdhd_fields(b) {
        None => m,
        Some((c, md, d)) => TrackModel {
            creation: c,
            modification: md,
            format: MPEG4AudioFormat { total_samples: d, ..m.format },
            ..m
        },
    }
}

/// The protection scheme of a scheme type box: the four character code after
/// the full box header, 0 when the box is too short.
pub open spec fn scheme_of(d: Seq<u8>) -> u32 {
    if d.len() >= FULL_BOX_HEADER_SIZE + 4 {
        be32(d, FULL_BOX_HEADER_SIZE as int) as u32
    } else {
        0
    }
}

/// What one box tells of the track, given the code of the box enclosing it.
#[verifier::opaque]
pub open spec fn box_step(m: TrackModel, top: Option<u32>, b: BoxView) -> TrackModel {
    let id = b.box_type.box_spec().bt_id;
    if id == DATA {
        data_step(m, top, b)
    } else if id == MP4A || id == DRMS {
        sample_entry_step(m, id, b.data)
    } else if id == PINF {
        TrackModel { format: MPEG4AudioFormat { protected: true, ..m.format }, ..m }
    } else if id == SCHM {
        TrackModel {
            format: MPEG4AudioFormat { protection_scheme: Some(scheme_of(b.data)), ..m.format },
            ..m
        }
    } else if id == ESDS {
        esds_model_step(m, b.data)
    } else if id == MDHD {
        mdhd_step(m, b)
    } else if id == MDAT {
        TrackModel { media_size: b.size, ..m }
    } else {
        m
    }
}

/// The code of the box on top of the stack.
pub open spec fn top_id(levels: Seq<BoxCounter>) -> Option<u32> {
    if levels.len() > 0 {
        Some(levels.last().box_type.box_spec().bt_id)
    } else {
        None
    }
}

/// Reading the boxes `bs` in turn, with the stack of open containers: each
/// box tells what it does of the track, then goes onto the stack. Reading
/// stops at a box whose size the stack cannot count.
#[verifier::opaque]
pub open spec fn track_walk(m: TrackModel, levels: Seq<BoxCounter>, bs: Seq<BoxView>) -> TrackModel
    decreases bs.len(),
{
    if bs.len() == 0 {
        m
    } else {
        let b = bs[0];
        let m2 = box_step(m, top_id(levels), b);
        if can_add(levels, b.size as nat) {
            track_walk(m2, level_complete(level_add(levels, b)), bs.drop_first())
        } else {
            m2
        }
    }
}

} // verus!

verus! {

fn put_text(entries: &mut Vec<(String, String)>, k: String, v: String)
    ensures
        text_map(final(entries)@) == text_map(old(entries)@).insert(k@, v@),
{
    let ghost kv = k@;
    let ghost vv = v@;
    insert_entry(entries, k, v);
    assert forall|key: Seq<char>| #[trigger] text_map(entries@).contains_key(key) == text_map(
        old(entries)@,
    ).insert(kv, vv).contains_key(key) by {
        assert(lookup(entries@, key) == (if key == kv { Some(v) } else { lookup(old(entries)@, key) }));
    }
    assert forall|key: Seq<char>| #[trigger] text_map(entries@).contains_key(key) implies text_map(
        entries@,
    )[key] == text_map(old(entries)@).insert(kv, vv)[key] by {
        assert(lookup(entries@, key) == (if key == kv { Some(v) } else { lookup(old(entries)@, key) }));
    }
    assert(text_map(entries@) =~= text_map(old(entries)@).insert(kv, vv));
}

fn put_byte(entries: &mut Vec<(String, u8)>, k: String, v: u8)
    ensures
        byte_map(final(entries)@) == byte_map(old(entries)@).insert(k@, v),
{
    let ghost kv = k@;
    insert_entry(entries, k, v);
    assert forall|key: Seq<char>| #[trigger] byte_map(entries@).contains_key(key) == byte_map(
        old(entries)@,
    ).insert(kv, v).contains_key(key) by {
        assert(lookup(entries@, key) == (if key == kv { Some(v) } else { lookup(old(entries)@, key) }));
    }
    assert forall|key: Seq<char>| #[trigger] byte_map(entries@).contains_key(key) implies byte_map(
        entries@,
    )[key] == byte_map(old(entries)@).insert(kv, v)[key] by {
        assert(lookup(entries@, key) == (if key == kv { Some(v) } else { lookup(old(entries)@, key) }));
    }
    assert(byte_map(entries@) =~= byte_map(old(entries)@).insert(kv, v));
}

} // verus!

verus! {

/// A track being read from MPEG-4 boxes, with its audio format and metadata
/// kept apart until the walk is done.
struct Reading {
    tk: Track,
    format: MPEG4AudioFormat,
    md: MPEG4Metadata,
}

spec fn reading_model(r: Reading) -> TrackModel {
    model_of(r.tk, r.format, r.md)
}

/// The fields of a track that reading boxes leaves alone.
spec fn same_frame(a: Track, b: Track) -> bool {
    a.path == b.path && a.file_format == b.file_format && a.format == b.format && a.metadata
        == b.metadata
}

fn apply_text(r: &mut Reading, key: u32, val: String)
    ensures
        reading_model(*final(r)) == text_step(reading_model(*old(r)), key, val@),
        same_frame(final(r).tk, old(r).tk),
{
    let k = FourCC(key).to_string();
    put_text(&mut r.md.text, k, val.clone());
    if key == XALB {
        r.tk.album = Some(val);
    } else if key == AARTC {
        r.tk.album_artist = Some(val);
    } else if key == XNAM {
        r.tk.title = Some(val);
    } else if key == XART || key == XARTC || key == AART {
        r.tk.artist = Some(val);
    } else if key == SOAL {
        if r.tk.album.is_none() {
            r.tk.album = Some(val);
        }
    } else if key == SOAR {
        if r.tk.artist.is_none() {
            r.tk.artist = Some(val);
        }
    } else if key == SONM {
        if r.tk.title.is_none() {
            r.tk.title = Some(val);
        }
    }
}

fn apply_numbers(r: &mut Reading, key: u32, v: &[u8])
    ensures
        reading_model(*final(r)) == number_step(reading_model(*old(r)), key, v@),
        same_frame(final(r).tk, old(r).tk),
{
    if v.len() >= 6 {
        if key == TRKN {
            r.tk.track_number = Some(read_u16(v, 2) as u32);
            r.tk.track_total = Some(read_u16(v, 4) as u32);
        } else if key == DISK {
            r.tk.disk_number = Some(read_u16(v, 2) as u32);
            r.tk.disk_total = Some(read_u16(v, 4) as u32);
        }
    }
}

fn apply_data(r: &mut Reading, top: Option<u32>, b: &MP4Box)
    ensures
        reading_model(*final(r)) == data_step(reading_model(*old(r)), top, b@),
        same_frame(final(r).tk, old(r).tk),
{
    match top {
        None => {},
        Some(key) => if b.version_flag.is_some() {
            match get_data_box(b) {
            None => {},
            Some(DataBoxContent::Text(v)) => {
                let val = utf8_lossy(v);
                apply_text(r, key, val);
            },
            Some(DataBoxContent::Data(v)) => {
                apply_numbers(r, key, v);
            },
            Some(DataBoxContent::Byte(x)) => {
                let k = FourCC(key).to_string();
                put_byte(&mut r.md.byte, k, x);
            },
            }
        },
    }
}

fn apply_box(r: &mut Reading, top: Option<u32>, b: &MP4Box)
    ensures
        reading_model(*final(r)) == box_step(reading_model(*old(r)), top, b@),
        same_frame(final(r).tk, old(r).tk),
{
    proof {
        reveal(box_step);
    }
    let id = b.box_type.value();
    if id == DATA {
        apply_data(r, top, b);
    } else if id == MP4A || id == DRMS {
        if b.buf.len() >= MP4A_READ_SIZE {
            let mut channels: u16 = 0;
            read_mp4a(b, &mut channels, &mut r.format.bits_per_sample, &mut r.format.sr);
            r.format.channels = (channels % 256) as u8;
            r.format.protected = id != MP4A;
        }
    } else if id == PINF {
        r.format.protected = true;
    } else if id == SCHM {
        let mut v: u32 = 0;
        read_schm(b, &mut v);
        r.format.protection_scheme = Some(v);
    } else if id == ESDS {
        let mut e = EsdsFields {
            decoder: r.format.decoder,
            avg_bitrate: r.format.avg_bitrate,
            max_bitrate: r.format.max_bitrate,
            codec: r.format.codec,
            sample_frequency: 0,
            channel_config: r.format.channel_config,
        };
        read_esds(b, &mut e);
        r.format.decoder = e.decoder;
        r.format.avg_bitrate = e.avg_bitrate;
        r.format.max_bitrate = e.max_bitrate;
        r.format.codec = e.codec;
        r.format.channel_config = e.channel_config;
    } else if id == MDHD {
        let mut creation: u64 = 0;
        let mut modification: u64 = 0;
        let mut timescale: u32 = 0;
        let mut language: u16 = 0;
        let mut duration: u64 = r.format.total_samples;
        if b.version_flag.is_some() && get_mdhd(
            b,
            &mut creation,
            &mut modification,
            &mut timescale,
            &mut duration,
            &mut language,
        ) {
            r.format.total_samples = duration;
            r.md.creation = creation;
            r.md.modification = modification;
        }
    } else if id == MDAT {
        r.md.media_size = b.size;
    }
}

} // verus!

verus! {

/// Reads what box `b` tells of the track, given the stack of open containers
/// `path` (the box on top encloses `b`), then adds `b` to the stack. Returns
/// false, leaving the stack, when the stack cannot count the box's size.
fn read_box_for_track(r: &mut Reading, path: &mut LevelStack, b: MP4Box) -> (ok: bool)
    ensures
        reading_model(*final(r)) == box_step(reading_model(*old(r)), top_id(old(path)@), b@),
        same_frame(final(r).tk, old(r).tk),
        ok == can_add(old(path)@, b@.size as nat),
        ok ==> final(path)@ == level_complete(level_add(old(path)@, b@)),
        !ok ==> final(path)@ == old(path)@,
{
    let top: Option<u32> = match path.top() {
        Some(c) => Some(c.box_type.value()),
        None => None,
    };
    apply_box(r, top, &b);
    if path.has_room(b.size) {
        path.update(b);
        true
    } else {
        false
    }
}

/// Reads every box of `buf` in turn into the track (see `track_walk`).
fn read_track(buf: &[u8], r: &mut Reading)
    ensures
        reading_model(*final(r)) == track_walk(reading_model(*old(r)), Seq::empty(), boxes_of(buf@)),
        same_frame(final(r).tk, old(r).tk),
{
    let mut boxes = MP4Buffer { buf };
    let mut ls = LevelStack::new();
    loop
        invariant_except_break
            track_walk(reading_model(*old(r)), Seq::empty(), boxes_of(buf@)) == track_walk(
                reading_model(*r),
                ls@,
                boxes_of(boxes.buf@),
            ),
        invariant
            same_frame(r.tk, old(r).tk),
        ensures
            track_walk(reading_model(*old(r)), Seq::empty(), boxes_of(buf@)) == reading_model(*r),
            same_frame(r.tk, old(r).tk),
        decreases boxes.buf@.len(),
    {
        let ghost s = boxes.buf@;
        let ghost m = reading_model(*r);
        let ghost levels = ls@;
        proof {
            lemma_walk_unfold(m, levels, s);
        }
        match boxes.next() {
            None => {
                break ;
            },
            Some(b) => {
                let ok = read_box_for_track(r, &mut ls, b);
                if !ok {
                    break ;
                }
            },
        }
    }
}

/// One step of reading: the walk over the boxes of `s` is the walk from the
/// first box on.
proof fn lemma_walk_unfold(m: TrackModel, levels: Seq<BoxCounter>, s: Seq<u8>)
    ensures
        parse_box(s) is None ==> track_walk(m, levels, boxes_of(s)) == m,
        parse_box(s) matches Some((v, next)) ==> track_walk(m, levels, boxes_of(s)) == (if can_add(
            levels,
            v.size as nat,
        ) {
            track_walk(
                box_step(m, top_id(levels), v),
                level_complete(level_add(levels, v)),
                boxes_of(s.skip(next as int)),
            )
        } else {
            box_step(m, top_id(levels), v)
        }),
{
    reveal(track_walk);
    lemma_boxes_of_unfold(s);
}

impl Mpeg4 {
    /// The name of this format.
    pub fn name(&self) -> (r: &'static str)
        ensures
            r@ == "MPEG-4"@,
    {
        proof {
            reveal_strlit("MPEG-4");
        }
        "MPEG-4"
    }

    /// Fills a track from the bytes of an MPEG-4 file: the boxes are walked
    /// in order and each tells what it holds of the track (see `track_walk`);
    /// the track carries an MPEG-4 audio format and MPEG-4 metadata.
    pub fn get_track(&self, buf: &[u8]) -> (tk: Track)
        ensures
            track_model(tk) == Some(track_walk(initial_model(), Seq::empty(), boxes_of(buf@))),
            tk.file_format is None,
    {
        let mut r = Reading {
            tk: Track::default(),
            format: MPEG4AudioFormat::default(),
            md: MPEG4Metadata::default(),
        };
        assert(text_map(r.md.text@) =~= Map::empty());
        assert(byte_map(r.md.byte@) =~= Map::empty());
        assert(reading_model(r) == initial_model());
        read_track(buf, &mut r);
        let Reading { tk, format, md } = r;
        let mut tk = tk;
        tk.format = Some(CodecFormat::MPEG4(format));
        tk.metadata = Some(FormatMetadata::MP4(md));
        tk
    }
}

} // verus!

verus! {

/// `n` tab characters.
pub open spec fn tab_text(n: nat) -> Seq<char> {
    Seq::new(n, |_i: int| '\t')
}

/// `n - k`, or 0 when `k` is larger.
pub open spec fn sat_sub(n: nat, k: nat) -> nat {
    if n >= k {
        (n - k) as nat
    } else {
        0
    }
}

/// The line shown for box `b` at indentation `tabs` with the stack of open
/// containers `levels`: code, size, type and the path of the enclosing boxes.
pub open spec fn box_line(tabs: nat, levels: Seq<BoxCounter>, b: BoxView) -> Seq<char> {
    tab_text(tabs) + four_cc_text(b.box_type.box_spec().bt_id) + " ["@ + decimal(b.size as nat)
        + "]    "@ + box_type_text(b.box_type) + " - Path: "@ + debug_text(path_text(levels))
}

/// The lines shown as the top `n` containers of `stack` close, innermost
/// first, starting at indentation `tabs`: each closing takes one level of
/// indentation off and, while another container stays open below it, shows
/// `<code>` of the closed container.
pub open spec fn close_lines(tabs: nat, stack: Seq<BoxCounter>, n: nat) -> Seq<Seq<char>>
    decreases n,
{
    if n == 0 || stack.len() == 0 {
        Seq::empty()
    } else {
        let t = sat_sub(tabs, 1);
        let line = if stack.len() > 1 {
            seq![tab_text(t) + "<"@ + four_cc_text(stack.last().box_type.box_spec().bt_id) + ">"@]
        } else {
            Seq::empty()
        };
        line + close_lines(t, stack.drop_last(), (n - 1) as nat)
    }
}

/// The lines that show the structure of the boxes `bs`: a line for each box,
/// indented one level deeper inside each container, and a closing line as
/// each container is filled. The walk stops after a box whose size the stack
/// cannot count.
#[verifier::opaque]
pub open spec fn structure_walk(tabs: nat, levels: Seq<BoxCounter>, bs: Seq<BoxView>) -> Seq<
    Seq<char>,
>
    decreases bs.len(),
{
    if bs.len() == 0 {
        Seq::empty()
    } else {
        let b = bs[0];
        let line = box_line(tabs, levels, b);
        if !can_add(levels, b.size as nat) {
            seq![line]
        } else {
            let l1 = level_add(levels, b);
            let t1 = if b.box_type.box_spec().container != ContainerType::NotContainer {
                tabs + 1
            } else {
                tabs
            };
            let n = (l1.len() - level_complete(l1).len()) as nat;
            seq![line] + close_lines(t1, l1, n) + structure_walk(
                sat_sub(t1, n),
                level_complete(l1),
                bs.drop_first(),
            )
        }
    }
}

proof fn lemma_structure_none(tabs: nat, levels: Seq<BoxCounter>, s: Seq<u8>)
    requires
        parse_box(s) is None,
    ensures
        structure_walk(tabs, levels, boxes_of(s)) == Seq::<Seq<char>>::empty(),
{
    reveal(structure_walk);
    lemma_boxes_of_unfold(s);
}

proof fn lemma_structure_stop(tabs: nat, levels: Seq<BoxCounter>, s: Seq<u8>, v: BoxView, next: nat)
    requires
        parse_box(s) == Some((v, next)),
        !can_add(levels, v.size as nat),
    ensures
        structure_walk(tabs, levels, boxes_of(s)) == seq![box_line(tabs, levels, v)],
{
    reveal(structure_walk);
    lemma_boxes_of_unfold(s);
}

proof fn lemma_structure_step(
    tabs: nat,
    levels: Seq<BoxCounter>,
    s: Seq<u8>,
    v: BoxView,
    next: nat,
    t1: nat,
    n: nat,
)
    requires
        parse_box(s) == Some((v, next)),
        can_add(levels, v.size as nat),
        t1 == (if v.box_type.box_spec().container != ContainerType::NotContainer {
            tabs + 1
        } else {
            tabs
        }),
        n == level_add(levels, v).len() - level_complete(level_add(levels, v)).len(),
    ensures
        structure_walk(tabs, levels, boxes_of(s)) == seq![box_line(tabs, levels, v)] + close_lines(
            t1,
            level_add(levels, v),
            n,
        ) + structure_walk(
            sat_sub(t1, n),
            level_complete(level_add(levels, v)),
            boxes_of(s.skip(next as int)),
        ),
{
    reveal(structure_walk);
    lemma_boxes_of_unfold(s);
}

} // verus!

verus! {

/// The text of a list of strings.
pub open spec fn texts(v: Seq<String>) -> Seq<Seq<char>> {
    v.map_values(|s: String| s@)
}

fn push_line(out: &mut Vec<String>, line: Vec<char>)
    ensures
        texts(final(out)@) == texts(old(out)@).push(line@),
{
    let s = chars_to_string(line.as_slice());
    out.push(s);
    assert(texts(out@) =~= texts(old(out)@).push(line@));
}

fn show_box_line(tabs: &Tabs, path: &LevelStack, b: &MP4Box) -> (r: Vec<char>)
    requires
        tabs@.0 == tab_text(tabs@.0.len()),
    ensures
        r@ == box_line(tabs@.0.len(), path@, b@),
{
    let mut line: Vec<char> = Vec::new();
    let t = tabs.to_string();
    push_str(&mut line, t.as_str());
    let cc = b.box_type.four_cc();
    push_str(&mut line, cc.as_str());
    push_str(&mut line, " [");
    push_decimal(&mut line, b.size as u64);
    push_str(&mut line, "]    ");
    let bt = b.box_type.debug_text();
    push_str(&mut line, bt.as_str());
    push_str(&mut line, " - Path: ");
    let p = path.path_string();
    let q = debug_quoted(p.as_str());
    push_str(&mut line, q.as_str());
    proof {
        reveal_strlit(" [");
        reveal_strlit("]    ");
        reveal_strlit(" - Path: ");
    }
    assert(line@ =~= box_line(tabs@.0.len(), path@, b@));
    line
}

} // verus!

verus! {

fn show_closing(
    out: &mut Vec<String>,
    tabs: &mut Tabs,
    l1: Ghost<Seq<BoxCounter>>,
    stack_len: usize,
    done: &Vec<BoxCounter>,
)
    requires
        stack_len == l1@.len(),
        old(tabs)@.1 == '\t',
        old(tabs)@.0 == tab_text(old(tabs)@.0.len()),
        done@.len() <= l1@.len(),
        done@ == l1@.skip(l1@.len() - done@.len()).reverse(),
    ensures
        final(tabs)@.1 == '\t',
        final(tabs)@.0 == tab_text(final(tabs)@.0.len()),
        final(tabs)@.0.len() == sat_sub(old(tabs)@.0.len(), done@.len()),
        texts(final(out)@) == texts(old(out)@) + close_lines(
            old(tabs)@.0.len(),
            l1@,
            done@.len(),
        ),
{
    let ghost st0 = l1@;
    let ghost t0 = tabs@.0.len();
    let n = done.len();
    let ghost len1 = st0.len();
    let mut k: usize = 0;
    assert(st0.take(len1 - 0) =~= st0);
    while k < n
        invariant
            n == done@.len(),
            len1 == st0.len(),
            n <= len1,
            stack_len == len1,
            done@ == st0.skip(len1 - n).reverse(),
            k <= n,
            tabs@.1 == '\t',
            tabs@.0 == tab_text(tabs@.0.len()),
            tabs@.0.len() == sat_sub(t0, k as nat),
            texts(out@) + close_lines(tabs@.0.len(), st0.take(len1 - k), (n - k) as nat)
                == texts(old(out)@) + close_lines(t0, st0, n as nat),
        decreases n - k,
    {
        let ghost st = st0.take(len1 - k);
        let ghost before = texts(out@);
        let ghost tb = tabs@.0.len();
        assert(st.len() > 0);
        assert(done@[k as int] == st0[len1 - 1 - k]);
        assert(st.last() == st0[len1 - 1 - k]);
        assert(st.drop_last() =~= st0.take(len1 - (k + 1)));
        tabs.outdent();
        proof {
            if tb > 0 {
                assert(tabs@.0 =~= tab_text((tb - 1) as nat));
            }
        }
        if stack_len - k > 1 {
            let mut line: Vec<char> = Vec::new();
            let t = tabs.to_string();
            push_str(&mut line, t.as_str());
            line.push('<');
            let cc = done[k].box_type.four_cc();
            push_str(&mut line, cc.as_str());
            line.push('>');
            proof {
                reveal_strlit("<");
                reveal_strlit(">");
                assert(line@ =~= tab_text(sat_sub(tb, 1)) + "<"@ + four_cc_text(
                    st.last().box_type.box_spec().bt_id,
                ) + ">"@);
            }
            push_line(out, line);
        }
        proof {
            assert(close_lines(tb, st, (n - k) as nat) == (if st.len() > 1 {
                seq![tab_text(sat_sub(tb, 1)) + "<"@ + four_cc_text(st.last().box_type.box_spec().bt_id) + ">"@]
            } else {
                Seq::empty()
            }) + close_lines(sat_sub(tb, 1), st.drop_last(), (n - k - 1) as nat));
            if st.len() > 1 {
                assert(texts(out@) =~= before.push(tab_text(sat_sub(tb, 1)) + "<"@ + four_cc_text(
                    st.last().box_type.box_spec().bt_id,
                ) + ">"@));
            }
        }
        k = k + 1;
        proof {
            assert(texts(out@) + close_lines(tabs@.0.len(), st0.take(len1 - k), (n - k) as nat)
                =~= texts(old(out)@) + close_lines(t0, st0, n as nat));
        }
    }
}

} // verus!

verus! {

impl Mpeg4 {
    /// The structure of an MP4 buffer, as lines to display: for each box its
    /// four character code, size, type and the path to it, indented one tab
    /// deeper inside each container, and `<code>` as each container inside
    /// another one is filled (see `structure_walk`).
    pub fn display_structure(&self, buf: &[u8]) -> (lines: Vec<String>)
        ensures
            texts(lines@) == structure_walk(0, Seq::empty(), boxes_of(buf@)),
    {
        let mut out: Vec<String> = Vec::new();
        let mut boxes = MP4Buffer { buf };
        let mut ls = LevelStack::new();
        let mut tabs = Tabs::new();
        assert(tabs@.0 =~= tab_text(0));
        loop
            invariant_except_break
                texts(out@) + structure_walk(tabs@.0.len(), ls@, boxes_of(boxes.buf@))
                    == structure_walk(0, Seq::empty(), boxes_of(buf@)),
            invariant
                tabs@.1 == '\t',
                tabs@.0 == tab_text(tabs@.0.len()),
            ensures
                texts(out@) == structure_walk(0, Seq::empty(), boxes_of(buf@)),
            decreases boxes.buf@.len(),
        {
            let ghost s = boxes.buf@;
            let ghost before = texts(out@);
            let ghost t0 = tabs@.0.len();
            let ghost levels = ls@;
            proof {
                lemma_parse_box_step(s);
            }
            match boxes.next() {
                None => {
                    proof {
                        lemma_structure_none(t0, levels, s);
                    }
                    assert(texts(out@) =~= before + Seq::<Seq<char>>::empty());
                    break ;
                },
                Some(b) => {
                    let ghost v = b@;
                    let ghost next = (parse_box(s)->0).1;
                    let line = show_box_line(&tabs, &ls, &b);
                    push_line(&mut out, line);
                    if !ls.has_room(b.size) {
                        proof {
                            lemma_structure_stop(t0, levels, s, v, next);
                        }
                        assert(texts(out@) =~= before + seq![box_line(t0, levels, v)]);
                        break ;
                    }
                    if b.box_type.is_container() {
                        tabs.indent();
                        assert(tabs@.0 =~= tab_text(t0 + 1));
                    }
                    let ghost t1 = tabs@.0.len();
                    let ghost l1 = level_add(levels, v);
                    ls.add_box(b);
                    let stack_len = ls.len();
                    let done = ls.check_and_complete_with();
                    proof {
                        lemma_complete_is_prefix(l1);
                        assert(done@.len() == l1.len() - ls@.len());
                    }
                    let ghost mid = texts(out@);
                    show_closing(&mut out, &mut tabs, Ghost(l1), stack_len, &done);
                    proof {
                        let n = (l1.len() - level_complete(l1).len()) as nat;
                        lemma_structure_step(t0, levels, s, v, next, t1, n);
                        assert(texts(out@) == mid + close_lines(t1, l1, n));
                        assert(texts(out@) + structure_walk(tabs@.0.len(), ls@, boxes_of(boxes.buf@))
                            =~= before + structure_walk(t0, levels, boxes_of(s)));
                    }
                },
            }
        }
        out
    }
}

} // verus!

verus! {

/// Text found under the ilst entries ©ART (`0xa9617274`), ©alb
/// (`0xa9616c62`) and ©nam (`0xa96e616d`) sets the artist, album and title
/// to that text, and every text entry is kept under its four character code.
pub proof fn lemma_text_entries(m: TrackModel, key: u32, val: Seq<char>)
    ensures
        key == 0xa9617274u32 ==> text_step(m, key, val).artist == Some(val),
        key == 0xa9616c62u32 ==> text_step(m, key, val).album == Some(val),
        key == 0xa96e616du32 ==> text_step(m, key, val).title == Some(val),
        text_step(m, key, val).text == m.text.insert(four_cc_text(key), val),
{
}

/// A data box holding text under the ilst entry ©ART (`0xa9617274`) sets the
/// track's artist to its text (decoded as UTF-8, invalid bytes replaced);
/// under ©alb (`0xa9616c62`) the album and under ©nam (`0xa96e616d`) the title.
pub proof fn lemma_data_box_artist(m: TrackModel, key: u32, b: BoxView, v: Seq<u8>)
    requires
        b.box_type.box_spec().bt_id == 0x64617461u32,
        data_box_content(b) == Some(DataContentView::Text(v)),
    ensures
        key == 0xa9617274u32 ==> box_step(m, Some(key), b).artist == Some(lossy_utf8(v)),
        key == 0xa9616c62u32 ==> box_step(m, Some(key), b).album == Some(lossy_utf8(v)),
        key == 0xa96e616du32 ==> box_step(m, Some(key), b).title == Some(lossy_utf8(v)),
{
    reveal(box_step);
}

} // verus!

verus! {

/// Binary data of at least six bytes under the ilst entry `trkn`
/// (`0x74726b6e`) gives the track number and total as the big-endian 16 bit
/// numbers at offsets 2 and 4; under `disk` (`0x6469736b`) the disk number
/// and total. Other entries leave the numbers alone.
pub proof fn lemma_number_entries(m: TrackModel, key: u32, v: Seq<u8>)
    ensures
        key == 0x74726b6eu32 && v.len() >= 6 ==> number_step(m, key, v).track_number == Some(
            (v[2] * 256 + v[3]) as u32,
        ) && number_step(m, key, v).track_total == Some((v[4] * 256 + v[5]) as u32),
        key == 0x6469736bu32 && v.len() >= 6 ==> number_step(m, key, v).disk_number == Some(
            (v[2] * 256 + v[3]) as u32,
        ) && number_step(m, key, v).disk_total == Some((v[4] * 256 + v[5]) as u32),
        key != 0x74726b6eu32 && key != 0x6469736bu32 ==> number_step(m, key, v) == m,
{
}

/// The sort-order entries `soar` (`0x736f6172`), `soal` (`0x736f616c`) and
/// `sonm` (`0x736f6e6d`) give the artist, album and title only where none is
/// known yet; `aART` (`0x61415254`) gives the album artist.
pub proof fn lemma_sort_entries(m: TrackModel, key: u32, val: Seq<char>)
    ensures
        key == 0x736f6172u32 ==> text_step(m, key, val).artist == (if m.artist is None {
            Some(val)
        } else {
            m.artist
        }),
        key == 0x736f616cu32 ==> text_step(m, key, val).album == (if m.album is None {
            Some(val)
        } else {
            m.album
        }),
        key == 0x736f6e6du32 ==> text_step(m, key, val).title == (if m.title is None {
            Some(val)
        } else {
            m.title
        }),
        key == 0x61415254u32 ==> text_step(m, key, val).album_artist == Some(val),
{
}

} // verus!
