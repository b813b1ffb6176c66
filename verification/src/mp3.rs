//! MP3 metadata: identification of MP3 files and the rules that fill a track
//! from their ID3 frames.
use crate::file::FileFormat;
use crate::text::{parse_u32_chars, parse_u32_spec, str_chars};
use crate::track::{
    append_entry, duration_new, lookup, parts_duration, CodecFormat, FormatMetadata, ID3Metadata,
    MP3Layer, MPEG3Format, MPVersion, Track,
};
use vstd::prelude::*;

verus! {

/// MP3 file reader.
#[derive(Debug, Clone, Copy, PartialEq, Eq, Structural)]
pub struct Mp3;

/// The bytes `ID3` that open an MP3 file with an ID3v2 tag.
pub open spec fn id3_header() -> Seq<u8> {
    seq![73u8, 68, 51]
}

/// Whether `b` opens an MP3 file: at least 3 bytes, the first three `ID3`.
pub open spec fn is_mp3(b: Seq<u8>) -> bool {
    b.len() >= 3 && b.take(3) == id3_header()
}

/// Identifies files that are MP3 files, starting with the ID3 variants.
/// Wants 3 bytes: returns `None` when `b` is shorter.
pub fn identify(b: &[u8]) -> (r: Option<FileFormat>)
    ensures
        r is Some <==> is_mp3(b@),
        r matches Some(f) ==> f is MP3,
{
    if b.len() >= 3 && b[0] == 73 && b[1] == 68 && b[2] == 51 {
        assert(b@.take(3) =~= id3_header());
        Some(FileFormat::MP3(Mp3))
    } else {
        proof {
            if b@.len() >= 3 && b@.take(3) == id3_header() {
                assert(b@.take(3)[0] == b@[0]);
                assert(b@.take(3)[1] == b@[1]);
                assert(b@.take(3)[2] == b@[2]);
            }
        }
        None
    }
}

} // verus!

verus! {

/// The index of the first `/` in `s`.
pub open spec fn first_slash(s: Seq<char>, i: int) -> Option<int>
    decreases s.len() - i,
{
    if i < 0 || i >= s.len() {
        None
    } else if s[i] == '/' {
        Some(i)
    } else {
        first_slash(s, i + 1)
    }
}

/// The first part of `s` split at `/`: all of it when there is no `/`.
pub open spec fn first_part(s: Seq<char>) -> Seq<char> {
    match first_slash(s, 0) {
        Some(p) => s.take(p),
        None => s,
    }
}

/// Whether `s` split at `/` has a second part.
pub open spec fn has_second_part(s: Seq<char>) -> bool {
    first_slash(s, 0) is Some
}

/// The second part of `s` split at `/` (up to a further `/`).
pub open spec fn second_part(s: Seq<char>) -> Seq<char> {
    match first_slash(s, 0) {
        Some(p) => first_part(s.skip(p + 1)),
        None => Seq::empty(),
    }
}

proof fn lemma_first_slash(s: Seq<char>, i: int, p: Option<int>)
    requires
        0 <= i <= s.len(),
        p matches Some(q) ==> i <= q < s.len() && s[q] == '/' && forall|k: int| i <= k < q ==> s[k] != '/',
        p is None ==> forall|k: int| i <= k < s.len() ==> s[k] != '/',
    ensures
        first_slash(s, i) == p,
    decreases s.len() - i,
{
    if i < s.len() && s[i] != '/' {
        lemma_first_slash(s, i + 1, p);
    }
}

fn slash_at(s: &[char], from: usize) -> (r: Option<usize>)
    requires
        from <= s@.len(),
    ensures
        r matches Some(p) ==> from <= p < s@.len() && first_slash(s@, from as int) == Some(p as int),
        r is None ==> first_slash(s@, from as int) is None,
{
    let n = s.len();
    let mut i: usize = from;
    while i < n
        invariant
            n == s@.len(),
            from <= i <= n,
            forall|k: int| from <= k < i ==> s@[k] != '/',
        decreases n - i,
    {
        if s[i] == '/' {
            proof {
                lemma_first_slash(s@, from as int, Some(i as int));
            }
            return Some(i);
        }
        i = i + 1;
    }
    proof {
        lemma_first_slash(s@, from as int, None);
    }
    None
}

/// The number written before the first `/` of `s` (`None` when it is not a number).
fn first_number(s: &[char]) -> (r: Option<u32>)
    ensures
        r == parse_u32_spec(first_part(s@)),
{
    match slash_at(s, 0) {
        Some(p) => {
            assert(s@.subrange(0, p as int) =~= s@.take(p as int));
            parse_u32_chars(&s[0..p])
        },
        None => parse_u32_chars(s),
    }
}

/// The number written after the first `/` of `s`, when there is one.
fn second_number(s: &[char]) -> (r: Option<Option<u32>>)
    ensures
        has_second_part(s@) ==> r == Some(parse_u32_spec(second_part(s@))),
        !has_second_part(s@) ==> r is None,
{
    let n = s.len();
    match slash_at(s, 0) {
        Some(p) => {
            let rest = &s[p + 1..n];
            assert(rest@ =~= s@.skip(p + 1));
            Some(first_number(rest))
        },
        None => None,
    }
}

/// The tags of a track as values.
pub struct TagModel {
    pub title: Option<Seq<char>>,
    pub artist: Option<Seq<char>>,
    pub album: Option<Seq<char>>,
    pub track_number: Option<u32>,
    pub track_total: Option<u32>,
    pub disk_number: Option<u32>,
    pub disk_total: Option<u32>,
}

/// The tags of track `t`.
pub open spec fn tags_of(t: Track) -> TagModel {
    TagModel {
        title: crate::mpeg4::opt_text(t.title),
        artist: crate::mpeg4::opt_text(t.artist),
        album: crate::mpeg4::opt_text(t.album),
        track_number: t.track_number,
        track_total: t.track_total,
        disk_number: t.disk_number,
        disk_total: t.disk_total,
    }
}

/// What an ID3 text frame `id` holding `s` adds to the tags: the part
/// position (`TPOS`, as "number/total") gives the disk number and total, the
/// track (`TRCK`) the track number and total, the album (`TALB`) the album,
/// and the lead artist, band and conductor (`TPE1` to `TPE3`) the artist; a
/// tag already known is kept.
pub open spec fn frame_step(m: TagModel, id: Seq<char>, s: Seq<char>) -> TagModel {
    if id == "TPOS"@ {
        TagModel {
            disk_number: if m.disk_number is None { parse_u32_spec(first_part(s)) } else { m.disk_number },
            disk_total: if has_second_part(s) && m.disk_total is None {
                parse_u32_spec(second_part(s))
            } else {
                m.disk_total
            },
            ..m
        }
    } else if id == "TRCK"@ {
        TagModel {
            track_number: if m.track_number is None {
                parse_u32_spec(first_part(s))
            } else {
                m.track_number
            },
            track_total: if has_second_part(s) && m.track_total is None {
                parse_u32_spec(second_part(s))
            } else {
                m.track_total
            },
            ..m
        }
    } else if id == "TALB"@ {
        TagModel { album: if m.album is None { Some(s) } else { m.album }, ..m }
    } else if id == "TPE1"@ || id == "TPE2"@ || id == "TPE3"@ {
        TagModel { artist: if m.artist is None { Some(s) } else { m.artist }, ..m }
    } else {
        m
    }
}

fn same_text(a: &str, b: &str) -> (r: bool)
    ensures
        r == (a@ == b@),
{
    let x = str_chars(a);
    let y = str_chars(b);
    let n = x.len();
    if n != y.len() {
        assert(x@.len() != y@.len());
        return false;
    }
    let mut i: usize = 0;
    while i < n
        invariant
            x@ == a@,
            y@ == b@,
            n == x@.len(),
            n == y@.len(),
            i <= n,
            forall|k: int| 0 <= k < i ==> x@[k] == y@[k],
        decreases n - i,
    {
        if x[i] != y[i] {
            assert(x@[i as int] != y@[i as int]);
            return false;
        }
        i = i + 1;
    }
    assert(x@ =~= y@);
    true
}

/// Fills the tags of `tk` from the ID3 text frame `id` holding `s` (see
/// `frame_step`).
pub fn update_track(tk: &mut Track, id: &str, s: &str)
    ensures
        tags_of(*final(tk)) == frame_step(tags_of(*old(tk)), id@, s@),
        final(tk).path == old(tk).path && final(tk).file_format == old(tk).file_format,
        final(tk).album_artist == old(tk).album_artist,
        final(tk).format == old(tk).format && final(tk).metadata == old(tk).metadata,
{
    proof {
        reveal_strlit("TPOS");
        reveal_strlit("TRCK");
        reveal_strlit("TALB");
        reveal_strlit("TPE1");
        reveal_strlit("TPE2");
        reveal_strlit("TPE3");
    }
    let cs = str_chars(s);
    if same_text(id, "TPOS") {
        if tk.disk_number.is_none() {
            tk.disk_number = first_number(cs.as_slice());
        }
        if tk.disk_total.is_none() {
            match second_number(cs.as_slice()) {
                Some(v) => {
                    tk.disk_total = v;
                },
                None => {},
            }
        }
    } else if same_text(id, "TRCK") {
        if tk.track_number.is_none() {
            tk.track_number = first_number(cs.as_slice());
        }
        if tk.track_total.is_none() {
            match second_number(cs.as_slice()) {
                Some(v) => {
                    tk.track_total = v;
                },
                None => {},
            }
        }
    } else if same_text(id, "TALB") {
        if tk.album.is_none() {
            tk.album = Some(s.to_owned());
        }
    } else if same_text(id, "TPE1") || same_text(id, "TPE2") || same_text(id, "TPE3") {
        if tk.artist.is_none() {
            tk.artist = Some(s.to_owned());
        }
    }
}

} // verus!

verus! {

/// The content of an ID3 frame: text, a comment (language, description,
/// text), or something else.
pub enum Id3Content {
    Text(String),
    Comment(String, String, String),
    Other,
}

/// An ID3 frame: its id (e.g. `TALB`) and content.
pub struct Id3Frame {
    pub id: String,
    pub content: Id3Content,
}

/// The content of an ID3 frame as text.
pub enum Id3ContentView {
    Text(Seq<char>),
    Comment(Seq<char>, Seq<char>, Seq<char>),
    Other,
}

/// An ID3 frame as text: its id and content.
pub open spec fn frame_view(f: Id3Frame) -> (Seq<char>, Id3ContentView) {
    (
        f.id@,
        match f.content {
            Id3Content::Text(s) => Id3ContentView::Text(s@),
            Id3Content::Comment(l, d, t) => Id3ContentView::Comment(l@, d@, t@),
            Id3Content::Other => Id3ContentView::Other,
        },
    )
}

/// ID3 frames as text.
pub open spec fn frames_view(fs: Seq<Id3Frame>) -> Seq<(Seq<char>, Id3ContentView)> {
    fs.map_values(|f: Id3Frame| frame_view(f))
}

/// What the MPEG audio frames tell: from the first frame the bitrate, sample
/// rate, version and layer; from the last one its position and duration, as
/// seconds and nanoseconds (below a second).
pub struct Mp3Audio {
    pub bitrate: u16,
    pub sample_rate: u16,
    pub version: MPVersion,
    pub layer: MP3Layer,
    pub position: (u64, u32),
    pub last_duration: Option<(u64, u32)>,
}

/// What an MP3 file tells of its track: the title, artist and album of its
/// tag, the track numbers of its optional information ("number/total"), its
/// audio frames when it has any, and its ID3 frames.
pub struct Mp3Info {
    pub tag: Option<(String, String, String)>,
    pub track_numbers: Vec<Option<String>>,
    pub audio: Option<Mp3Audio>,
    pub frames: Vec<Id3Frame>,
}

/// The end of the last frame: its position plus its duration (none when
/// unknown), as seconds and nanoseconds below a second.
pub open spec fn end_time(a: Mp3Audio) -> (int, int) {
    let d = match a.last_duration {
        Some(x) => x,
        None => (0u64, 0u32),
    };
    let n = a.position.1 + d.1;
    (a.position.0 + d.0 + n / 1_000_000_000, n % 1_000_000_000)
}

/// Whether the frame times are well formed (nanoseconds below a second) and
/// their sum fits a `Duration`.
pub open spec fn valid_audio(a: Mp3Audio) -> bool {
    &&& a.position.1 < 1_000_000_000
    &&& a.last_duration matches Some(d) ==> d.1 < 1_000_000_000
    &&& end_time(a).0 <= u64::MAX
}

/// The MPEG-3 format the audio frames describe.
pub open spec fn mpeg3_of(a: Mp3Audio) -> MPEG3Format {
    MPEG3Format {
        bitrate: a.bitrate,
        sample_rate: a.sample_rate,
        version: a.version,
        layer: a.layer,
        duration: parts_duration(end_time(a).0 as u64, end_time(a).1 as u32),
    }
}

/// An MP3 tag's title, artist and album, as text.
pub open spec fn tag_view(tag: Option<(String, String, String)>) -> Option<(Seq<char>, Seq<char>, Seq<char>)> {
    match tag {
        Some(t) => Some((t.0@, t.1@, t.2@)),
        None => None,
    }
}

/// Optional texts, as text.
pub open spec fn numbers_view(vs: Seq<Option<String>>) -> Seq<Option<Seq<char>>> {
    vs.map_values(|o: Option<String>| match o {
        Some(x) => Some(x@),
        None => None,
    })
}

/// The tags an MP3 tag gives: title, artist and album.
pub open spec fn tag_tags(tag: Option<(Seq<char>, Seq<char>, Seq<char>)>) -> TagModel {
    let none = TagModel {
        title: None,
        artist: None,
        album: None,
        track_number: None,
        track_total: None,
        disk_number: None,
        disk_total: None,
    };
    match tag {
        Some(t) => TagModel { title: Some(t.0), artist: Some(t.1), album: Some(t.2), ..none },
        None => none,
    }
}

/// The track number of each optional information block in turn: the part
/// before `/` (no number when there is none), and the part after `/` as the
/// total when there is one.
pub open spec fn numbers_fold(m: TagModel, vs: Seq<Option<Seq<char>>>) -> TagModel
    decreases vs.len(),
{
    if vs.len() == 0 {
        m
    } else {
        let p = numbers_fold(m, vs.drop_last());
        match vs.last() {
            None => TagModel { track_number: None, ..p },
            Some(s) => TagModel {
                track_total: if has_second_part(s) {
                    parse_u32_spec(second_part(s))
                } else {
                    p.track_total
                },
                track_number: parse_u32_spec(first_part(s)),
                ..p
            },
        }
    }
}

/// The tags after the ID3 frames `fs` in turn (see `frame_step`).
pub open spec fn frames_fold(m: TagModel, fs: Seq<(Seq<char>, Id3ContentView)>) -> TagModel
    decreases fs.len(),
{
    if fs.len() == 0 {
        m
    } else {
        let p = frames_fold(m, fs.drop_last());
        match fs.last().1 {
            Id3ContentView::Text(s) => frame_step(p, fs.last().0, s),
            _ => p,
        }
    }
}

/// The text values of each key, as a map.
pub open spec fn values_map(v: Seq<(String, Vec<String>)>) -> Map<Seq<char>, Seq<Seq<char>>> {
    Map::new(
        |k: Seq<char>| lookup(v, k) is Some,
        |k: Seq<char>| lookup(v, k)->0@.map_values(|s: String| s@),
    )
}

/// The comments of each key, as a map.
pub open spec fn comments_map(v: Seq<(String, Vec<(String, String, String)>)>) -> Map<
    Seq<char>,
    Seq<(Seq<char>, Seq<char>, Seq<char>)>,
> {
    Map::new(
        |k: Seq<char>| lookup(v, k) is Some,
        |k: Seq<char>|
            lookup(v, k)->0@.map_values(|c: (String, String, String)| (c.0@, c.1@, c.2@)),
    )
}

/// The texts of the frames `fs`, by frame id, in order.
pub open spec fn texts_fold(fs: Seq<(Seq<char>, Id3ContentView)>) -> Map<Seq<char>, Seq<Seq<char>>>
    decreases fs.len(),
{
    if fs.len() == 0 {
        Map::empty()
    } else {
        let p = texts_fold(fs.drop_last());
        let k = fs.last().0;
        match fs.last().1 {
            Id3ContentView::Text(s) => p.insert(
                k,
                (if p.contains_key(k) { p[k] } else { Seq::empty() }).push(s),
            ),
            _ => p,
        }
    }
}

/// The comments of the frames `fs`, by frame id, in order.
pub open spec fn comments_fold(fs: Seq<(Seq<char>, Id3ContentView)>) -> Map<
    Seq<char>,
    Seq<(Seq<char>, Seq<char>, Seq<char>)>,
>
    decreases fs.len(),
{
    if fs.len() == 0 {
        Map::empty()
    } else {
        let p = comments_fold(fs.drop_last());
        let k = fs.last().0;
        match fs.last().1 {
            Id3ContentView::Comment(l, d, t) => p.insert(
                k,
                (if p.contains_key(k) { p[k] } else { Seq::empty() }).push((l, d, t)),
            ),
            _ => p,
        }
    }
}

fn add_text(m: &mut Vec<(String, Vec<String>)>, k: String, v: String)
    ensures
        values_map(final(m)@) == values_map(old(m)@).insert(
            k@,
            (if values_map(old(m)@).contains_key(k@) {
                values_map(old(m)@)[k@]
            } else {
                Seq::empty()
            }).push(v@),
        ),
{
    let ghost kv = k@;
    let ghost vv = v@;
    append_entry(m, k, v);
    let ghost target = values_map(old(m)@).insert(
        kv,
        (if values_map(old(m)@).contains_key(kv) {
            values_map(old(m)@)[kv]
        } else {
            Seq::empty()
        }).push(vv),
    );
    assert forall|key: Seq<char>| #[trigger] values_map(m@).contains_key(key) == target.contains_key(key) by {
        if key != kv {
            assert(lookup(m@, key) == lookup(old(m)@, key));
        }
    }
    assert forall|key: Seq<char>| #[trigger] values_map(m@).contains_key(key) implies values_map(m@)[key]
        == target[key] by {
        if key != kv {
            assert(lookup(m@, key) == lookup(old(m)@, key));
        } else {
            let vals = lookup(m@, kv)->0;
            match lookup(old(m)@, kv) {
                Some(ov) => {
                    assert(vals@ == ov@.push(v));
                    assert(vals@.map_values(|s: String| s@) =~= ov@.map_values(|s: String| s@).push(vv));
                },
                None => {
                    assert(vals@ == seq![v]);
                    assert(vals@.map_values(|s: String| s@) =~= Seq::<Seq<char>>::empty().push(vv));
                },
            }
        }
    }
    assert(values_map(m@) =~= target);
}

fn add_comment(m: &mut Vec<(String, Vec<(String, String, String)>)>, k: String, v: (String, String, String))
    ensures
        comments_map(final(m)@) == comments_map(old(m)@).insert(
            k@,
            (if comments_map(old(m)@).contains_key(k@) {
                comments_map(old(m)@)[k@]
            } else {
                Seq::empty()
            }).push((v.0@, v.1@, v.2@)),
        ),
{
    let ghost kv = k@;
    let ghost vv = (v.0@, v.1@, v.2@);
    let ghost vo = v;
    append_entry(m, k, v);
    let ghost target = comments_map(old(m)@).insert(
        kv,
        (if comments_map(old(m)@).contains_key(kv) {
            comments_map(old(m)@)[kv]
        } else {
            Seq::empty()
        }).push(vv),
    );
    assert forall|key: Seq<char>| #[trigger] comments_map(m@).contains_key(key) == target.contains_key(key) by {
        if key != kv {
            assert(lookup(m@, key) == lookup(old(m)@, key));
        }
    }
    assert forall|key: Seq<char>| #[trigger] comments_map(m@).contains_key(key) implies comments_map(m@)[key]
        == target[key] by {
        if key != kv {
            assert(lookup(m@, key) == lookup(old(m)@, key));
        } else {
            let vals = lookup(m@, kv)->0;
            match lookup(old(m)@, kv) {
                Some(ov) => {
                    assert(vals@ == ov@.push(vo));
                    assert(vals@.map_values(|c: (String, String, String)| (c.0@, c.1@, c.2@)) =~= ov@.map_values(
                        |c: (String, String, String)| (c.0@, c.1@, c.2@),
                    ).push(vv));
                },
                None => {
                    assert(vals@ == seq![vo]);
                    assert(vals@.map_values(|c: (String, String, String)| (c.0@, c.1@, c.2@)) =~= Seq::<
                        (Seq<char>, Seq<char>, Seq<char>),
                    >::empty().push(vv));
                },
            }
        }
    }
    assert(comments_map(m@) =~= target);
}

} // verus!

verus! {

fn mpeg3_format(a: &Mp3Audio) -> (f: MPEG3Format)
    requires
        valid_audio(*a),
    ensures
        f == mpeg3_of(*a),
{
    let d = match a.last_duration {
        Some(x) => x,
        None => (0u64, 0u32),
    };
    let n: u32 = a.position.1 + d.1;
    let carry: u64 = (n / 1_000_000_000) as u64;
    let secs: u64 = a.position.0 + d.0 + carry;
    let nanos: u32 = n % 1_000_000_000;
    MPEG3Format {
        bitrate: a.bitrate,
        sample_rate: a.sample_rate,
        version: a.version,
        layer: a.layer,
        duration: duration_new(secs, nanos),
    }
}

/// Whether `tk` is the track an MP3 file tells of, with the tag `tag`, the
/// track numbers `numbers` of its optional information, the audio `audio`
/// and the ID3 frames `frames`: the tag gives title, artist and album; the
/// track numbers follow (see `numbers_fold`); the ID3 text frames fill what
/// is still unknown (see `frames_fold`); the audio gives the MPEG-3 format;
/// and when there are ID3 frames, their texts and comments are the track's
/// metadata, by frame id.
pub open spec fn is_mp3_track(
    tk: Track,
    tag: Option<(Seq<char>, Seq<char>, Seq<char>)>,
    numbers: Seq<Option<Seq<char>>>,
    audio: Option<Mp3Audio>,
    frames: Seq<(Seq<char>, Id3ContentView)>,
) -> bool {
    &&& tk.file_format matches Some(s) && s@ == "mpeg-3"@
    &&& tags_of(tk) == frames_fold(numbers_fold(tag_tags(tag), numbers), frames)
    &&& tk.album_artist is None
    &&& tk.format == (match audio {
        Some(a) => Some(CodecFormat::MPEG3(mpeg3_of(a))),
        None => None,
    })
    &&& frames.len() == 0 ==> tk.metadata is None
    &&& frames.len() > 0 ==> (tk.metadata matches Some(FormatMetadata::ID3(md)) && values_map(md.text@)
        == texts_fold(frames) && comments_map(md.comments@) == comments_fold(frames))
}

impl Mp3 {
    /// The name of this format: "mpeg-3".
    pub fn name(&self) -> (r: &'static str)
        ensures
            r@ == "mpeg-3"@,
    {
        proof {
            reveal_strlit("mpeg-3");
        }
        "mpeg-3"
    }

    /// A track from what an MP3 file tells (see `Mp3Info`): the tag gives
    /// title, artist and album; the optional information the track numbers
    /// (see `numbers_fold`); the ID3 text frames fill what is still unknown
    /// (see `frames_fold`); the audio frames give the MPEG-3 format; and when
    /// there are ID3 frames, their texts and comments are the track's
    /// metadata, by frame id.
    pub fn get_track(&self, info: Mp3Info) -> (tk: Track)
        requires
            info.audio matches Some(a) ==> valid_audio(a),
        ensures
            is_mp3_track(
                tk,
                tag_view(info.tag),
                numbers_view(info.track_numbers@),
                info.audio,
                frames_view(info.frames@),
            ),
    {
        let mut tk = Track::default();
        proof {
            reveal_strlit("mpeg-3");
        }
        tk.file_format = Some(self.name().to_owned());
        let Mp3Info { tag, track_numbers, audio, frames } = info;
        match &tag {
            Some(t) => {
                tk.title = Some(t.0.clone());
                tk.artist = Some(t.1.clone());
                tk.album = Some(t.2.clone());
            },
            None => {},
        }
        assert(numbers_view(track_numbers@.take(0)) =~= Seq::<Option<Seq<char>>>::empty());
        assert(tags_of(tk) == numbers_fold(tag_tags(tag_view(tag)), numbers_view(track_numbers@.take(0))));
        let n = track_numbers.len();
        let mut i: usize = 0;
        while i < n
            invariant
                n == track_numbers@.len(),
                i <= n,
                tk.album_artist is None,
                tk.file_format matches Some(s) && s@ == "mpeg-3"@,
                tk.format is None && tk.metadata is None,
                tags_of(tk) == numbers_fold(
                    tag_tags(tag_view(tag)),
                    numbers_view(track_numbers@.take(i as int)),
                ),
            decreases n - i,
        {
            proof {
                let q = track_numbers@.take(i + 1);
                assert(q.drop_last() =~= track_numbers@.take(i as int));
                assert(numbers_view(q).drop_last() =~= numbers_view(track_numbers@.take(i as int)));
            }
            match &track_numbers[i] {
                None => {
                    tk.track_number = None;
                },
                Some(v) => {
                    let cs = str_chars(v.as_str());
                    match second_number(cs.as_slice()) {
                        Some(t) => {
                            tk.track_total = t;
                        },
                        None => {},
                    }
                    tk.track_number = first_number(cs.as_slice());
                },
            }
            i = i + 1;
        }
        assert(track_numbers@.take(n as int) =~= track_numbers@);
        assert(numbers_view(track_numbers@.take(n as int)) == numbers_view(track_numbers@));
        match &audio {
            Some(a) => {
                tk.format = Some(CodecFormat::MPEG3(mpeg3_format(a)));
            },
            None => {},
        }
        let ghost fs = frames_view(frames@);
        let mut md = ID3Metadata { text: Vec::new(), comments: Vec::new() };
        assert(values_map(md.text@) =~= texts_fold(fs.take(0)));
        assert(comments_map(md.comments@) =~= comments_fold(fs.take(0)));
        let m = frames.len();
        let mut k: usize = 0;
        while k < m
            invariant
                m == frames@.len(),
                fs == frames_view(frames@),
                k <= m,
                tk.album_artist is None,
                tk.file_format matches Some(s) && s@ == "mpeg-3"@,
                tk.metadata is None,
                tk.format == (match audio {
                    Some(a) => Some(CodecFormat::MPEG3(mpeg3_of(a))),
                    None => None,
                }),
                tags_of(tk) == frames_fold(
                    numbers_fold(tag_tags(tag_view(tag)), numbers_view(track_numbers@)),
                    fs.take(k as int),
                ),
                values_map(md.text@) == texts_fold(fs.take(k as int)),
                comments_map(md.comments@) == comments_fold(fs.take(k as int)),
            decreases m - k,
        {
            proof {
                let q = fs.take(k + 1);
                assert(q.drop_last() =~= fs.take(k as int));
                assert(q.last() == fs[k as int]);
                assert(fs[k as int] == frame_view(frames@[k as int]));
            }
            let fr = &frames[k];
            match &fr.content {
                Id3Content::Text(s) => {
                    update_track(&mut tk, fr.id.as_str(), s.as_str());
                    add_text(&mut md.text, fr.id.clone(), s.clone());
                },
                Id3Content::Comment(l, d, t) => {
                    add_comment(&mut md.comments, fr.id.clone(), (l.clone(), d.clone(), t.clone()));
                },
                Id3Content::Other => {},
            }
            k = k + 1;
        }
        assert(fs.take(m as int) =~= fs);
        if m > 0 {
            tk.metadata = Some(FormatMetadata::ID3(md));
        }
        tk
    }
}

} // verus!

verus! {

/// An MPEG audio frame as a scan of an MP3 file reports it: its version and
/// layer (each as the place of its value in the list Reserved, MPEG-1 or
/// Layer I, MPEG-2 or Layer II, MPEG-2.5 or Layer III, Unknown), bitrate,
/// sampling frequency, position and duration (seconds and nanoseconds).
#[derive(Debug, Clone, Copy)]
pub struct ScanFrame {
    pub version: u8,
    pub layer: u8,
    pub bitrate: u16,
    pub sample_rate: u16,
    pub position: (u64, u32),
    pub duration: Option<(u64, u32)>,
}

/// What a scan of an MP3 file finds: the title, artist and album of its ID3v1
/// tag, the track number of each block of optional information, and its
/// audio frames in order.
pub struct Mp3Scan {
    pub tag: Option<(String, String, String)>,
    pub track_numbers: Vec<Option<String>>,
    pub frames: Vec<ScanFrame>,
}

/// A scan as text and plain values.
pub open spec fn scan_view(r: Option<Mp3Scan>) -> Option<
    (Option<(Seq<char>, Seq<char>, Seq<char>)>, Seq<Option<Seq<char>>>, Seq<ScanFrame>),
> {
    match r {
        Some(s) => Some((tag_view(s.tag), numbers_view(s.track_numbers@), s.frames@)),
        None => None,
    }
}

/// Whether `mp3_metadata::read_from_slice` returns on `b`. It keeps its
/// positions in the buffer, plus the sizes of ID3 tags and headers (up to
/// 2^29 bytes each), as `u32`, so the buffer is at most 2^30 bytes. When an
/// ID3v2 tag uses unsynchronisation it reads the buffer from its start and
/// writes into an empty vector when the buffer starts with `FF 00`, which
/// panics; a buffer with any other start returns from that branch.
pub open spec fn scan_safe(b: Seq<u8>) -> bool {
    b.len() <= 0x4000_0000 && !(b.len() >= 2 && b[0] == 0xFF && b[1] == 0x00)
}

/// What `mp3_metadata::read_from_slice` finds in the bytes of a file, `None`
/// when it fails.
pub uninterp spec fn mp3_scan(b: Seq<u8>) -> Option<
    (Option<(Seq<char>, Seq<char>, Seq<char>)>, Seq<Option<Seq<char>>>, Seq<ScanFrame>),
>;

/// Scans the bytes of an MP3 file with `mp3_metadata::read_from_slice`: its
/// result is named `mp3_scan`, and an error gives `None`. Nothing more is
/// stated of how the file is read. The inputs on which the scan would panic
/// are left out (see `scan_safe`).
#[verifier::external_body]
fn scan_mp3(b: &[u8]) -> (r: Option<Mp3Scan>)
    requires
        scan_safe(b@),
    ensures
        scan_view(r) == mp3_scan(b@),
{
    let md = mp3_metadata::read_from_slice(b).ok()?;
    let frames = md.frames.iter().map(|f| ScanFrame {
        version: f.version as u8,
        layer: f.layer as u8,
        bitrate: f.bitrate,
        sample_rate: f.sampling_freq,
        position: (f.position.as_secs(), f.position.subsec_nanos()),
        duration: f.duration.map(|d| (d.as_secs(), d.subsec_nanos())),
    }).collect();
    let tag = md.tag.map(|t| (t.title, t.artist, t.album));
    let track_numbers = md.optional_info.into_iter().map(|o| o.track_number).collect();
    Some(Mp3Scan { tag, track_numbers, frames })
}

/// The MPEG version at place `v` (see `ScanFrame`).
pub open spec fn version_at(v: u8) -> MPVersion {
    if v == 0 {
        MPVersion::Reserved
    } else if v == 1 {
        MPVersion::MPEG1
    } else if v == 2 {
        MPVersion::MPEG2
    } else if v == 3 {
        MPVersion::MPEG2_5
    } else {
        MPVersion::Unknown
    }
}

/// The MPEG layer at place `v` (see `ScanFrame`).
pub open spec fn layer_at(v: u8) -> MP3Layer {
    if v == 0 {
        MP3Layer::Reserved
    } else if v == 1 {
        MP3Layer::Layer1
    } else if v == 2 {
        MP3Layer::Layer2
    } else if v == 3 {
        MP3Layer::Layer3
    } else {
        MP3Layer::Unknown
    }
}

/// The audio the frames `fs` tell of: bitrate, sample rate, version and layer
/// of the first frame, position and duration of the last one; none without
/// frames.
pub open spec fn scan_audio(fs: Seq<ScanFrame>) -> Option<Mp3Audio> {
    if fs.len() == 0 {
        None
    } else {
        Some(
            Mp3Audio {
                bitrate: fs[0].bitrate,
                sample_rate: fs[0].sample_rate,
                version: version_at(fs[0].version),
                layer: layer_at(fs[0].layer),
                position: fs.last().position,
                last_duration: fs.last().duration,
            },
        )
    }
}

fn version_of(v: u8) -> (r: MPVersion)
    ensures
        r == version_at(v),
{
    if v == 0 {
        MPVersion::Reserved
    } else if v == 1 {
        MPVersion::MPEG1
    } else if v == 2 {
        MPVersion::MPEG2
    } else if v == 3 {
        MPVersion::MPEG2_5
    } else {
        MPVersion::Unknown
    }
}

fn layer_of(v: u8) -> (r: MP3Layer)
    ensures
        r == layer_at(v),
{
    if v == 0 {
        MP3Layer::Reserved
    } else if v == 1 {
        MP3Layer::Layer1
    } else if v == 2 {
        MP3Layer::Layer2
    } else if v == 3 {
        MP3Layer::Layer3
    } else {
        MP3Layer::Unknown
    }
}

/// Whether the audio, if any, is valid (see `valid_audio`).
pub open spec fn audio_ok(audio: Option<Mp3Audio>) -> bool {
    match audio {
        Some(a) => valid_audio(a),
        None => true,
    }
}

/// Whether the end of the last frame of `a` can be told (see `valid_audio`).
pub fn audio_is_valid(a: &Mp3Audio) -> (r: bool)
    ensures
        r == valid_audio(*a),
{
    let d = match a.last_duration {
        Some(x) => x,
        None => (0u64, 0u32),
    };
    if a.position.1 >= 1_000_000_000 || d.1 >= 1_000_000_000 {
        return false;
    }
    let n: u32 = a.position.1 + d.1;
    let carry: u64 = (n / 1_000_000_000) as u64;
    a.position.0 <= u64::MAX - d.0 && a.position.0 + d.0 <= u64::MAX - carry
}

/// The audio of the frames `fs` (see `scan_audio`).
pub fn audio_from_frames(fs: &Vec<ScanFrame>) -> (r: Option<Mp3Audio>)
    ensures
        r == scan_audio(fs@),
{
    let n = fs.len();
    if n == 0 {
        return None;
    }
    let f = fs[0];
    let lf = fs[n - 1];
    Some(
        Mp3Audio {
            bitrate: f.bitrate,
            sample_rate: f.sample_rate,
            version: version_of(f.version),
            layer: layer_of(f.layer),
            position: lf.position,
            last_duration: lf.duration,
        },
    )
}

impl Mp3 {
    /// A track from the bytes `b` of an MP3 file and its ID3 frames `frames`:
    /// the scan of the bytes (see `mp3_scan`) gives the tag, the track
    /// numbers and the audio (see `scan_audio`), and the track is the one
    /// they and the frames tell of (see `is_mp3_track`). `None` when the scan
    /// fails, or when the end of the last audio frame is beyond what a
    /// duration holds. Bytes the scan cannot take (see `scan_safe`) give
    /// `None` too.
    pub fn get_track_from_bytes(&self, b: &[u8], frames: Vec<Id3Frame>) -> (r: Option<Track>)
        ensures
            !scan_safe(b@) ==> r is None,
            scan_safe(b@) && mp3_scan(b@) is None ==> r is None,
            scan_safe(b@) ==> (mp3_scan(b@) matches Some((tag, numbers, fs)) ==> (if audio_ok(
                scan_audio(fs),
            ) {
                r matches Some(tk) && is_mp3_track(tk, tag, numbers, scan_audio(fs), frames_view(frames@))
            } else {
                r is None
            })),
    {
        if b.len() > 0x4000_0000 || (b.len() >= 2 && b[0] == 0xFF && b[1] == 0x00) {
            return None;
        }
        match scan_mp3(b) {
            None => None,
            Some(s) => {
                let audio = audio_from_frames(&s.frames);
                match &audio {
                    Some(a) => {
                        if !audio_is_valid(a) {
                            return None;
                        }
                    },
                    None => {},
                }
                let info = Mp3Info { tag: s.tag, track_numbers: s.track_numbers, audio, frames };
                Some(self.get_track(info))
            },
        }
    }
}

/// The ID3 frames read, as text.
pub open spec fn read_frames_view(r: Option<Vec<Id3Frame>>) -> Option<Seq<(Seq<char>, Id3ContentView)>> {
    match r {
        Some(v) => Some(frames_view(v@)),
        None => None,
    }
}

/// What `id3::Tag::read_from` reads from the bytes of a file: the frames of
/// its ID3v2 tag in order, `None` when it fails.
pub uninterp spec fn id3_parse(b: Seq<u8>) -> Option<Seq<(Seq<char>, Id3ContentView)>>;

/// Reads the ID3v2 tag at the start of `b` with `id3::Tag::read_from`: its
/// frames, each with its id, and its content when it is text or a comment,
/// are named `id3_parse`; an error gives `None`. Nothing more is stated of
/// how the tag is read.
#[verifier::external_body]
fn read_id3_frames(b: &[u8]) -> (r: Option<Vec<Id3Frame>>)
    ensures
        read_frames_view(r) == id3_parse(b@),
{
    let t = id3::Tag::read_from(b).ok()?;
    Some(t.frames().map(|fr| Id3Frame {
        id: fr.id().to_string(),
        content: match fr.content() {
            id3::Content::Text(s) => Id3Content::Text(s.clone()),
            id3::Content::Comment(c) => Id3Content::Comment(c.lang.clone(), c.description.clone(), c.text.clone()),
            _ => Id3Content::Other,
        },
    }).collect())
}

impl Mp3 {
    /// A track from the bytes `b` of an MP3 file: the scan of the bytes
    /// (see `mp3_scan`) and the frames of its ID3v2 tag (see `id3_parse`)
    /// make the track as `get_track_from_bytes` says. `None` when the tag
    /// cannot be read, and where `get_track_from_bytes` gives `None`.
    pub fn get_track_from_file(&self, b: &[u8]) -> (r: Option<Track>)
        ensures
            id3_parse(b@) is None ==> r is None,
            !scan_safe(b@) ==> r is None,
            scan_safe(b@) && mp3_scan(b@) is None ==> r is None,
            id3_parse(b@) matches Some(frames) ==> (scan_safe(b@) ==> (mp3_scan(b@) matches Some(
                (tag, numbers, fs),
            ) ==> (if audio_ok(scan_audio(fs)) {
                r matches Some(tk) && is_mp3_track(tk, tag, numbers, scan_audio(fs), frames)
            } else {
                r is None
            }))),
    {
        match read_id3_frames(b) {
            None => None,
            Some(frames) => self.get_track_from_bytes(b, frames),
        }
    }
}

} // verus!

verus! {

proof fn lemma_numbers_keep_texts(m: TagModel, vs: Seq<Option<Seq<char>>>)
    ensures
        numbers_fold(m, vs).title == m.title,
        numbers_fold(m, vs).artist == m.artist,
        numbers_fold(m, vs).album == m.album,
        numbers_fold(m, vs).disk_number == m.disk_number,
        numbers_fold(m, vs).disk_total == m.disk_total,
    decreases vs.len(),
{
    if vs.len() > 0 {
        lemma_numbers_keep_texts(m, vs.drop_last());
    }
}

/// An MP3 track (see `is_mp3_track`) whose tag is `(title, artist, album)`
/// and which has no ID3 frames has that title, artist and album: the tag's
/// first field is the title, its second the artist and its third the album,
/// whatever the track numbers and the audio.
pub proof fn lemma_mp3_tag_fields(
    tk: Track,
    tag: (Seq<char>, Seq<char>, Seq<char>),
    numbers: Seq<Option<Seq<char>>>,
    audio: Option<Mp3Audio>,
)
    requires
        is_mp3_track(tk, Some(tag), numbers, audio, Seq::empty()),
    ensures
        tk.title matches Some(t) && t@ == tag.0,
        tk.artist matches Some(a) && a@ == tag.1,
        tk.album matches Some(b) && b@ == tag.2,
{
    lemma_numbers_keep_texts(tag_tags(Some(tag)), numbers);
}

/// An MP3 track without a tag whose only ID3 frame is a text frame `TALB`
/// (or `TPE1`) holding `s` has `s` for album (or artist).
pub proof fn lemma_mp3_frame_album_artist(
    tk: Track,
    numbers: Seq<Option<Seq<char>>>,
    audio: Option<Mp3Audio>,
    id: Seq<char>,
    s: Seq<char>,
)
    requires
        is_mp3_track(tk, None, numbers, audio, seq![(id, Id3ContentView::Text(s))]),
    ensures
        id == "TALB"@ ==> (tk.album matches Some(b) && b@ == s),
        id == "TPE1"@ ==> (tk.artist matches Some(a) && a@ == s),
{
    lemma_numbers_keep_texts(tag_tags(None), numbers);
    let f = seq![(id, Id3ContentView::Text(s))];
    assert(f.drop_last() =~= Seq::<(Seq<char>, Id3ContentView)>::empty());
    reveal_strlit("TALB");
    reveal_strlit("TPE1");
    reveal_strlit("TPOS");
    reveal_strlit("TRCK");
    let m0 = numbers_fold(tag_tags(None), numbers);
    assert(frames_fold(m0, f.drop_last()) == m0);
    assert(frames_fold(m0, f) == frame_step(m0, id, s));
    assert("TALB"@[1] != "TPOS"@[1] && "TALB"@[1] != "TRCK"@[1]);
    assert("TPE1"@[2] != "TPOS"@[2] && "TPE1"@[2] != "TRCK"@[2] && "TPE1"@[2] != "TALB"@[2]);
}

} // verus!

verus! {

proof fn lemma_first_slash_at(s: Seq<char>, i: int, p: int)
    requires
        0 <= i <= p < s.len(),
        s[p] == '/',
        forall|k: int| i <= k < p ==> s[k] != '/',
    ensures
        first_slash(s, i) == Some(p),
    decreases p - i,
{
    if i < p {
        lemma_first_slash_at(s, i + 1, p);
    }
}

proof fn lemma_no_slash(s: Seq<char>, i: int)
    requires
        0 <= i,
        forall|k: int| i <= k < s.len() ==> s[k] != '/',
    ensures
        first_slash(s, i) is None,
    decreases s.len() - i,
{
    if i < s.len() {
        lemma_no_slash(s, i + 1);
    }
}

/// Track numbers written "number/total" (neither part holding `/`) give the
/// track number and total: an MP3 track without tag and ID3 frames whose
/// only optional information has track number `a/b` has the number that `a`
/// reads as, and (when `b` reads as one) the total that `b` reads as; with
/// no `/` the whole text is the number and no total is known.
pub proof fn lemma_mp3_track_numbers(
    tk: Track,
    audio: Option<Mp3Audio>,
    a: Seq<char>,
    b: Seq<char>,
)
    requires
        is_mp3_track(tk, None, seq![Some(a + seq!['/'] + b)], audio, Seq::empty())
            || is_mp3_track(tk, None, seq![Some(a)], audio, Seq::empty()),
        !a.contains('/'),
        !b.contains('/'),
    ensures
        tk.track_number == parse_u32_spec(a),
        is_mp3_track(tk, None, seq![Some(a + seq!['/'] + b)], audio, Seq::empty()) ==> (
        parse_u32_spec(b) is Some ==> tk.track_total == parse_u32_spec(b)),
        is_mp3_track(tk, None, seq![Some(a)], audio, Seq::empty()) ==> tk.track_total is None,
{
    let s = a + seq!['/'] + b;
    assert forall|k: int| 0 <= k < a.len() implies s[k] != '/' by {
        assert(s[k] == a[k]);
        if a[k] == '/' {
            assert(a.contains('/'));
        }
    }
    lemma_first_slash_at(s, 0, a.len() as int);
    assert(s.take(a.len() as int) =~= a);
    let r = s.skip(a.len() as int + 1);
    assert(r =~= b);
    assert forall|k: int| 0 <= k < b.len() implies b[k] != '/' by {
        if b[k] == '/' {
            assert(b.contains('/'));
        }
    }
    lemma_no_slash(b, 0);
    assert forall|k: int| 0 <= k < a.len() implies a[k] != '/' by {
        if a[k] == '/' {
            assert(a.contains('/'));
        }
    }
    lemma_no_slash(a, 0);
    let m0 = tag_tags(None);
    assert(seq![Some(s)].drop_last() =~= Seq::<Option<Seq<char>>>::empty());
    assert(seq![Some(a)].drop_last() =~= Seq::<Option<Seq<char>>>::empty());
    assert(numbers_fold(m0, Seq::<Option<Seq<char>>>::empty()) == m0);
}

/// An MP3 track with audio has the MPEG-3 format of that audio: its bitrate,
/// sample rate, version and layer; without audio it has no format.
pub proof fn lemma_mp3_format(
    tk: Track,
    tag: Option<(Seq<char>, Seq<char>, Seq<char>)>,
    numbers: Seq<Option<Seq<char>>>,
    audio: Option<Mp3Audio>,
    frames: Seq<(Seq<char>, Id3ContentView)>,
)
    requires
        is_mp3_track(tk, tag, numbers, audio, frames),
    ensures
        audio matches Some(a) ==> (tk.format matches Some(CodecFormat::MPEG3(f)) && f.bitrate
            == a.bitrate && f.sample_rate == a.sample_rate && f.version == a.version && f.layer
            == a.layer),
        audio is None ==> tk.format is None,
        frames.len() == 0 ==> tk.metadata is None,
{
}

/// An MP3 track whose ID3 frames are one text frame `id` holding `s` keeps
/// it in its ID3 metadata: the texts under `id` are just `s`.
pub proof fn lemma_mp3_frame_text_kept(
    tk: Track,
    tag: Option<(Seq<char>, Seq<char>, Seq<char>)>,
    numbers: Seq<Option<Seq<char>>>,
    audio: Option<Mp3Audio>,
    id: Seq<char>,
    s: Seq<char>,
)
    requires
        is_mp3_track(tk, tag, numbers, audio, seq![(id, Id3ContentView::Text(s))]),
    ensures
        tk.metadata matches Some(FormatMetadata::ID3(md)) && values_map(md.text@).contains_key(id)
            && values_map(md.text@)[id] == seq![s],
{
    let f = seq![(id, Id3ContentView::Text(s))];
    assert(f.drop_last() =~= Seq::<(Seq<char>, Id3ContentView)>::empty());
    assert(texts_fold(f.drop_last()) =~= Map::<Seq<char>, Seq<Seq<char>>>::empty());
    assert(Seq::<Seq<char>>::empty().push(s) =~= seq![s]);
}

} // verus!
