//! What the listing and description commands show, as text: the album
//! header, the rows of the track table, the description of a track and its
//! metadata. Printing the text (and the tables) is left to the caller.
use crate::album::Album;
use crate::completion::{text_less, text_lt};
use crate::text::{
    chars_to_string, decimal, group_thousands, pad_left, per_thousand, push_decimal, push_padded,
    push_per_thousand, push_str, str_chars, thousands,
};
use crate::track::{
    duration_secs, layer_text, samples_nanos, secs_of, version_text, CodecFormat, FlacMetadata,
    all_valued, FormatMetadata, ID3Metadata, MPEG4Metadata, Track,
};
use vstd::prelude::*;

verus! {

/// What is shown for a value that is not known.
pub const NONE_SHORT: &'static str = "-";

/// Minutes and seconds of `secs` seconds: "m:ss", the minutes right-aligned
/// in two places when `col` (for a column).
pub open spec fn duration_text(secs: u64, col: bool) -> Seq<char> {
    let m = secs / 60;
    let s = secs % 60;
    (if col { pad_left(decimal(m as nat), 2, ' ') } else { decimal(m as nat) }) + seq![':']
        + pad_left(decimal(s as nat), 2, '0')
}

/// Formats a duration given in whole seconds (see `duration_text`).
pub fn format_duration(secs: u64, col: bool) -> (r: String)
    ensures
        r@ == duration_text(secs, col),
{
    let mut out: Vec<char> = Vec::new();
    let m = secs / 60;
    let s = secs % 60;
    if col {
        let mut a: Vec<char> = Vec::new();
        push_decimal(&mut a, m);
        push_padded(&mut out, &a, 2, ' ');
    } else {
        push_decimal(&mut out, m);
    }
    out.push(':');
    let mut b: Vec<char> = Vec::new();
    push_decimal(&mut b, s);
    push_padded(&mut out, &b, 2, '0');
    assert(out@ =~= duration_text(secs, col));
    chars_to_string(out.as_slice())
}

/// Whether `s` is the whole seconds of the track's duration: the samples at
/// the sample rate for PCM and MPEG-4 audio, the stored duration for MPEG-3.
/// `None` when the track has no format.
pub open spec fn track_secs_is(t: Track, s: Option<u64>) -> bool {
    match t.format {
        None => s is None,
        Some(CodecFormat::PCM(f)) => s == Some(
            samples_nanos(f.total_samples, f.sample_rate as u64) / 1_000_000_000,
        ),
        Some(CodecFormat::MPEG4(f)) => s == Some(
            samples_nanos(f.total_samples, (f.sr / 65536) as u64) / 1_000_000_000,
        ),
        Some(CodecFormat::MPEG3(f)) => s matches Some(v) && secs_of(f.duration, v),
    }
}

/// The whole seconds of the track's duration (see `track_secs_is`).
pub fn track_secs(t: &Track) -> (r: Option<u64>)
    ensures
        track_secs_is(*t, r),
{
    match &t.format {
        None => None,
        Some(CodecFormat::PCM(f)) => {
            let d = f.duration();
            Some(duration_secs(&d))
        },
        Some(CodecFormat::MPEG4(f)) => {
            let d = f.duration();
            Some(duration_secs(&d))
        },
        Some(CodecFormat::MPEG3(f)) => Some(duration_secs(&f.duration)),
    }
}

/// An optional text, or "-".
pub open spec fn text_or_none(o: Option<String>) -> Seq<char> {
    match o {
        Some(s) => s@,
        None => "-"@,
    }
}

/// An optional number in decimal, or "-".
pub open spec fn number_or_none(o: Option<u32>) -> Seq<char> {
    match o {
        Some(v) => decimal(v as nat),
        None => "-"@,
    }
}

fn text_or_dash(o: &Option<String>) -> (r: String)
    ensures
        r@ == text_or_none(*o),
{
    match o {
        Some(s) => s.clone(),
        None => {
            proof {
                reveal_strlit("-");
            }
            NONE_SHORT.to_owned()
        },
    }
}

fn number_or_dash(o: Option<u32>) -> (r: String)
    ensures
        r@ == number_or_none(o),
{
    match o {
        Some(v) => {
            let mut out: Vec<char> = Vec::new();
            push_decimal(&mut out, v as u64);
            chars_to_string(out.as_slice())
        },
        None => {
            proof {
                reveal_strlit("-");
            }
            NONE_SHORT.to_owned()
        },
    }
}

fn text_with(a: &Vec<char>, unit: &str) -> (r: String)
    ensures
        r@ == a@ + unit@,
{
    let mut out: Vec<char> = Vec::new();
    crate::text::push_all(&mut out, a.as_slice());
    push_str(&mut out, unit);
    chars_to_string(out.as_slice())
}

fn grouped_with(n: u64, unit: &str) -> (r: String)
    ensures
        r@ == group_thousands(decimal(n as nat)) + unit@,
{
    let g = thousands(n);
    let mut out: Vec<char> = Vec::new();
    push_str(&mut out, g.as_str());
    push_str(&mut out, unit);
    chars_to_string(out.as_slice())
}

fn decimal_with(n: u64, unit: &str) -> (r: String)
    ensures
        r@ == decimal(n as nat) + unit@,
{
    let mut out: Vec<char> = Vec::new();
    push_decimal(&mut out, n);
    push_str(&mut out, unit);
    chars_to_string(out.as_slice())
}

fn entry(label: &str, value: String) -> (r: (String, String))
    ensures
        r.0@ == label@,
        r.1 == value,
{
    (label.to_owned(), value)
}

} // verus!

verus! {

/// The index of the first position of `order` whose key comes after `key`.
pub open spec fn first_key_after(keys: Seq<Seq<char>>, order: Seq<int>, key: Seq<char>) -> nat
    decreases order.len(),
{
    if order.len() == 0 {
        0
    } else if text_lt(key, keys[order[0]]) {
        0
    } else {
        1 + first_key_after(keys, order.drop_first(), key)
    }
}

/// The positions `0..n` of `keys` ordered by key, equal keys in their order
/// (the order in which sorting the entries by key lists them).
pub open spec fn key_order(keys: Seq<Seq<char>>, n: nat) -> Seq<int>
    decreases n,
{
    if n == 0 {
        Seq::empty()
    } else {
        let o = key_order(keys, (n - 1) as nat);
        o.insert(first_key_after(keys, o, keys[n - 1]) as int, n - 1)
    }
}

proof fn lemma_first_key_after(keys: Seq<Seq<char>>, order: Seq<int>, key: Seq<char>, j: int)
    requires
        0 <= j <= order.len(),
        forall|i: int| 0 <= i < j ==> !text_lt(key, keys[#[trigger] order[i]]),
        j == order.len() || text_lt(key, keys[order[j]]),
    ensures
        first_key_after(keys, order, key) == j,
    decreases order.len(),
{
    if order.len() > 0 && j > 0 {
        let d = order.drop_first();
        assert forall|i: int| 0 <= i < j - 1 implies !text_lt(key, keys[#[trigger] d[i]]) by {
            assert(d[i] == order[i + 1]);
        }
        assert(!text_lt(key, keys[order[0]]));
        if j < order.len() {
            assert(d[j - 1] == order[j]);
        }
        lemma_first_key_after(keys, d, key, j - 1);
    }
}

/// The keys of the entries `v`.
pub open spec fn keys_of<V>(v: Seq<(String, V)>) -> Seq<Seq<char>> {
    v.map_values(|e: (String, V)| e.0@)
}

/// The positions of the entries of `v` ordered by key (see `key_order`).
pub fn entry_order<V>(v: &Vec<(String, V)>) -> (r: Vec<usize>)
    ensures
        r@.len() == v@.len(),
        forall|i: int| 0 <= i < r@.len() ==> #[trigger] r@[i] < v@.len(),
        r@.map_values(|i: usize| i as int) == key_order(keys_of(v@), v@.len()),
{
    let n = v.len();
    let mut keys: Vec<Vec<char>> = Vec::new();
    let mut i: usize = 0;
    while i < n
        invariant
            n == v@.len(),
            i <= n,
            keys@.len() == i,
            forall|k: int| 0 <= k < i ==> #[trigger] keys@[k]@ == keys_of(v@)[k],
        decreases n - i,
    {
        keys.push(str_chars(v[i].0.as_str()));
        i = i + 1;
    }
    let ghost ks = keys_of(v@);
    let mut order: Vec<usize> = Vec::new();
    let mut i: usize = 0;
    while i < n
        invariant
            n == v@.len(),
            n == keys@.len(),
            ks == keys_of(v@),
            forall|k: int| 0 <= k < n ==> #[trigger] keys@[k]@ == ks[k],
            i <= n,
            order@.len() == i,
            forall|k: int| 0 <= k < i ==> #[trigger] order@[k] < i,
            order@.map_values(|x: usize| x as int) == key_order(ks, i as nat),
        decreases n - i,
    {
        let ghost before = order@.map_values(|x: usize| x as int);
        let m = order.len();
        let mut j: usize = 0;
        while j < m && !text_less(keys[i].as_slice(), keys[order[j]].as_slice())
            invariant
                m == order@.len(),
                m == i,
                i < n,
                n == keys@.len(),
                forall|k: int| 0 <= k < n ==> #[trigger] keys@[k]@ == ks[k],
                forall|k: int| 0 <= k < i ==> #[trigger] order@[k] < i,
                before == order@.map_values(|x: usize| x as int),
                j <= m,
                forall|q: int| 0 <= q < j ==> !text_lt(ks[i as int], ks[#[trigger] before[q]]),
            decreases m - j,
        {
            j = j + 1;
        }
        proof {
            lemma_first_key_after(ks, before, ks[i as int], j as int);
        }
        let ghost old_order = order@;
        order.insert(j, i);
        proof {
            assert(order@.map_values(|x: usize| x as int) =~= before.insert(j as int, i as int));
            assert forall|k: int| 0 <= k < i + 1 implies #[trigger] order@[k] < i + 1 by {
                if k < j {
                    assert(order@[k] == old_order[k]);
                } else if k > j {
                    assert(order@[k] == old_order[k - 1]);
                }
            }
        }
        i = i + 1;
    }
    order
}

} // verus!

verus! {

/// A label and the text shown for it.
pub open spec fn te(label: Seq<char>, value: Seq<char>) -> (Seq<char>, Seq<char>) {
    (label, value)
}

/// The file size as shown: grouped digits, or "<Unknown>".
pub open spec fn size_text(size: Option<u64>) -> Seq<char> {
    match size {
        Some(n) => group_thousands(decimal(n as nat)),
        None => "<Unknown>"@,
    }
}

/// The sample rate of MPEG-4 audio as shown: the rate in hertz with two
/// decimals, zero-padded to eight characters.
pub open spec fn fixed_rate_text(rate: u32) -> Seq<char> {
    pad_left(decimal(rate as nat) + ".00"@, 8, '0')
}

/// The description of a track, label by label: file, format and the track's
/// tags; then what its codec tells; then the file's size.
pub open spec fn describe_entries(t: Track, name: Seq<char>, size: Option<u64>) -> Seq<
    (Seq<char>, Seq<char>),
> {
    let base = seq![
        te("File"@, name),
        te("File Format"@, text_or_none(t.file_format)),
        te("Artist"@, text_or_none(t.artist)),
        te("Album"@, text_or_none(t.album)),
        te("Title"@, text_or_none(t.title)),
        te("Track"@, number_or_none(t.track_number)),
        te("Track Total"@, number_or_none(t.track_total)),
        te("Disk Number"@, number_or_none(t.disk_number)),
        te("Disk Total"@, number_or_none(t.disk_total)),
    ];
    let codec = match t.format {
        None => Seq::empty(),
        Some(CodecFormat::PCM(f)) => seq![
            te("Sample Rate"@, group_thousands(decimal(f.sample_rate as nat)) + " Hz"@),
            te("Sample Size"@, decimal(f.bits_per_sample as nat) + " bits"@),
            te("Samples"@, group_thousands(decimal(f.total_samples as nat))),
            te("Channels"@, group_thousands(decimal(f.channels as nat))),
            te(
                "Duration"@,
                duration_text(
                    samples_nanos(f.total_samples, f.sample_rate as u64) / 1_000_000_000,
                    false,
                ),
            ),
        ],
        Some(CodecFormat::MPEG3(f)) => seq![
            te("Version"@, version_text(f.version)),
            te("Layer"@, layer_text(f.layer)),
            te("Bitrate"@, decimal(f.bitrate as nat) + " kbps"@),
            te("Sample Rate"@, group_thousands(decimal(f.sample_rate as nat)) + " KHz"@),
        ],
        Some(CodecFormat::MPEG4(f)) => seq![
            te("Sample Rate"@, fixed_rate_text(f.sr / 65536) + " Hz"@),
            te("Sample Size"@, decimal(f.bits_per_sample as nat) + " bits"@),
            te("Samples"@, group_thousands(decimal(f.total_samples as nat))),
            te("Channels"@, group_thousands(decimal(f.channels as nat))),
            te(
                "Duration"@,
                duration_text(
                    samples_nanos(f.total_samples, (f.sr / 65536) as u64) / 1_000_000_000,
                    false,
                ),
            ),
        ],
    };
    base + codec + seq![te("Size"@, size_text(size) + " bytes"@)]
}

/// The text of label/value entries.
pub open spec fn entries_text(v: Seq<(String, String)>) -> Seq<(Seq<char>, Seq<char>)> {
    v.map_values(|e: (String, String)| (e.0@, e.1@))
}

fn push_entry(out: &mut Vec<(String, String)>, label: &str, value: String)
    ensures
        entries_text(final(out)@) == entries_text(old(out)@).push((label@, value@)),
{
    out.push((label.to_owned(), value));
    assert(entries_text(out@) =~= entries_text(old(out)@).push((label@, value@)));
}

/// The description of track `t`, whose file is called `name` and has `size`
/// bytes when known (see `describe_entries`).
pub fn describe_entries_of(t: &Track, name: String, size: Option<u64>) -> (r: Vec<(String, String)>)
    ensures
        entries_text(r@) == describe_entries(*t, name@, size),
{
    let mut out: Vec<(String, String)> = Vec::new();
    push_entry(&mut out, "File", name);
    push_entry(&mut out, "File Format", text_or_dash(&t.file_format));
    push_entry(&mut out, "Artist", text_or_dash(&t.artist));
    push_entry(&mut out, "Album", text_or_dash(&t.album));
    push_entry(&mut out, "Title", text_or_dash(&t.title));
    push_entry(&mut out, "Track", number_or_dash(t.track_number));
    push_entry(&mut out, "Track Total", number_or_dash(t.track_total));
    push_entry(&mut out, "Disk Number", number_or_dash(t.disk_number));
    push_entry(&mut out, "Disk Total", number_or_dash(t.disk_total));
    let ghost base = entries_text(out@);
    match &t.format {
        None => {},
        Some(CodecFormat::PCM(f)) => {
            push_entry(&mut out, "Sample Rate", grouped_with(f.sample_rate as u64, " Hz"));
            push_entry(&mut out, "Sample Size", decimal_with(f.bits_per_sample as u64, " bits"));
            push_entry(&mut out, "Samples", thousands(f.total_samples));
            push_entry(&mut out, "Channels", thousands(f.channels as u64));
            let d = f.duration();
            let secs = crate::track::duration_secs(&d);
            push_entry(&mut out, "Duration", format_duration(secs, false));
        },
        Some(CodecFormat::MPEG3(f)) => {
            push_entry(&mut out, "Version", f.version_string());
            push_entry(&mut out, "Layer", f.layer_string());
            push_entry(&mut out, "Bitrate", decimal_with(f.bitrate as u64, " kbps"));
            push_entry(&mut out, "Sample Rate", grouped_with(f.sample_rate as u64, " KHz"));
        },
        Some(CodecFormat::MPEG4(f)) => {
            let mut r: Vec<char> = Vec::new();
            push_decimal(&mut r, f.sample_rate() as u64);
            push_str(&mut r, ".00");
            let mut rate: Vec<char> = Vec::new();
            push_padded(&mut rate, &r, 8, '0');
            push_entry(&mut out, "Sample Rate", text_with(&rate, " Hz"));
            push_entry(&mut out, "Sample Size", decimal_with(f.bits_per_sample as u64, " bits"));
            push_entry(&mut out, "Samples", thousands(f.total_samples));
            push_entry(&mut out, "Channels", thousands(f.channels as u64));
            let d = f.duration();
            let secs = crate::track::duration_secs(&d);
            push_entry(&mut out, "Duration", format_duration(secs, false));
        },
    }
    let st = match size {
        Some(n) => grouped_with(n, " bytes"),
        None => {
            let mut v: Vec<char> = Vec::new();
            push_str(&mut v, "<Unknown>");
            text_with(&v, " bytes")
        },
    };
    push_entry(&mut out, "Size", st);
    proof {
        reveal_strlit("File");
        reveal_strlit("File Format");
        reveal_strlit("Artist");
        reveal_strlit("Album");
        reveal_strlit("Title");
        reveal_strlit("Track");
        reveal_strlit("Track Total");
        reveal_strlit("Disk Number");
        reveal_strlit("Disk Total");
        reveal_strlit("Sample Rate");
        reveal_strlit("Sample Size");
        reveal_strlit("Samples");
        reveal_strlit("Channels");
        reveal_strlit("Duration");
        reveal_strlit("Version");
        reveal_strlit("Layer");
        reveal_strlit("Bitrate");
        reveal_strlit("Size");
        reveal_strlit(" Hz");
        reveal_strlit(" KHz");
        reveal_strlit(" bits");
        reveal_strlit(" kbps");
        reveal_strlit(" bytes");
        reveal_strlit(".00");
        reveal_strlit("<Unknown>");
    }
    assert(entries_text(out@) =~= describe_entries(*t, name@, size));
    out
}

} // verus!

verus! {

/// A piece of displayed output: a line, or a table given by its rows of cells.
pub enum Block {
    Line(String),
    Table(Vec<Vec<String>>),
}

/// `Block` seen as values.
pub enum BlockView {
    Line(Seq<char>),
    Table(Seq<Seq<Seq<char>>>),
}

/// The text of rows of cells.
pub open spec fn rows_text(r: Seq<Vec<String>>) -> Seq<Seq<Seq<char>>> {
    r.map_values(|row: Vec<String>| row@.map_values(|c: String| c@))
}

impl View for Block {
    type V = BlockView;

    open spec fn view(&self) -> BlockView {
        match self {
            Block::Line(s) => BlockView::Line(s@),
            Block::Table(r) => BlockView::Table(rows_text(r@)),
        }
    }
}

/// The text of blocks.
pub open spec fn blocks_text(b: Seq<Block>) -> Seq<BlockView> {
    b.map_values(|x: Block| x@)
}

/// The rows of entries `v` taken in `order`, each entry giving rows by `f`.
pub open spec fn ordered_rows<V>(
    v: Seq<(String, V)>,
    order: Seq<int>,
    f: spec_fn((String, V)) -> Seq<Seq<Seq<char>>>,
) -> Seq<Seq<Seq<char>>>
    decreases order.len(),
{
    if order.len() == 0 {
        Seq::empty()
    } else {
        ordered_rows(v, order.drop_last(), f) + f(v[order.last()])
    }
}

/// The rows of a key with several text values: the key with the first value,
/// then each further value under an empty key.
pub open spec fn values_rows(e: (String, Vec<String>)) -> Seq<Seq<Seq<char>>> {
    seq![seq![e.0@, e.1@[0]@]] + Seq::new(
        (e.1@.len() - 1) as nat,
        |i: int| seq![""@, e.1@[i + 1]@],
    )
}

/// The rows of a key with comments: the key with the language, description
/// and text of the first comment, then, for each further comment, the first
/// comment's fields again under an empty key.
pub open spec fn comment_rows(e: (String, Vec<(String, String, String)>)) -> Seq<Seq<Seq<char>>> {
    let c = e.1@[0];
    seq![seq![e.0@, c.0@, c.1@, c.2@]] + Seq::new(
        (e.1@.len() - 1) as nat,
        |i: int| seq![""@, c.0@, c.1@, c.2@],
    )
}

/// The row of a text entry.
pub open spec fn text_row(e: (String, String)) -> Seq<Seq<Seq<char>>> {
    seq![seq![e.0@, e.1@]]
}

/// The row of a byte entry: the byte in decimal.
pub open spec fn byte_row(e: (String, u8)) -> Seq<Seq<Seq<char>>> {
    seq![seq![e.0@, decimal(e.1 as nat)]]
}

fn push_row(rows: &mut Vec<Vec<String>>, cells: Vec<String>)
    ensures
        rows_text(final(rows)@) == rows_text(old(rows)@).push(cells@.map_values(|c: String| c@)),
{
    rows.push(cells);
    assert(rows_text(rows@) =~= rows_text(old(rows)@).push(cells@.map_values(|c: String| c@)));
}

fn cells2(a: String, b: String) -> (r: Vec<String>)
    ensures
        r@.map_values(|c: String| c@) == seq![a@, b@],
{
    let mut v: Vec<String> = Vec::new();
    v.push(a);
    v.push(b);
    assert(v@.map_values(|c: String| c@) =~= seq![a@, b@]);
    v
}

fn cells4(a: String, b: String, c: String, d: String) -> (r: Vec<String>)
    ensures
        r@.map_values(|x: String| x@) == seq![a@, b@, c@, d@],
{
    let mut v: Vec<String> = Vec::new();
    v.push(a);
    v.push(b);
    v.push(c);
    v.push(d);
    assert(v@.map_values(|x: String| x@) =~= seq![a@, b@, c@, d@]);
    v
}

fn push_values_rows(rows: &mut Vec<Vec<String>>, e: &(String, Vec<String>))
    requires
        e.1@.len() > 0,
    ensures
        rows_text(final(rows)@) == rows_text(old(rows)@) + values_rows(*e),
{
    push_row(rows, cells2(e.0.clone(), e.1[0].clone()));
    assert(values_rows(*e).take(1) =~= seq![seq![e.0@, e.1@[0]@]]);
    let n = e.1.len();
    let mut i: usize = 1;
    while i < n
        invariant
            n == e.1@.len(),
            1 <= i <= n,
            rows_text(rows@) == rows_text(old(rows)@) + values_rows(*e).take(i as int),
        decreases n - i,
    {
        proof {
            reveal_strlit("");
        }
        let ghost before = rows_text(rows@);
        push_row(rows, cells2(String::new(), e.1[i].clone()));
        assert(""@ =~= Seq::<char>::empty());
        assert(values_rows(*e).take(i + 1) =~= values_rows(*e).take(i as int).push(
            seq![""@, e.1@[i as int]@],
        ));
        assert(rows_text(rows@) =~= rows_text(old(rows)@) + values_rows(*e).take(i + 1));
        i = i + 1;
    }
    assert(values_rows(*e).take(n as int) =~= values_rows(*e));
}

fn push_comment_rows(rows: &mut Vec<Vec<String>>, e: &(String, Vec<(String, String, String)>))
    requires
        e.1@.len() > 0,
    ensures
        rows_text(final(rows)@) == rows_text(old(rows)@) + comment_rows(*e),
{
    let c = &e.1[0];
    push_row(rows, cells4(e.0.clone(), c.0.clone(), c.1.clone(), c.2.clone()));
    assert(comment_rows(*e).take(1) =~= seq![seq![e.0@, c.0@, c.1@, c.2@]]);
    let n = e.1.len();
    let mut i: usize = 1;
    while i < n
        invariant
            n == e.1@.len(),
            c == e.1@[0],
            1 <= i <= n,
            rows_text(rows@) == rows_text(old(rows)@) + comment_rows(*e).take(i as int),
        decreases n - i,
    {
        proof {
            reveal_strlit("");
        }
        push_row(rows, cells4(String::new(), c.0.clone(), c.1.clone(), c.2.clone()));
        assert(""@ =~= Seq::<char>::empty());
        assert(comment_rows(*e).take(i + 1) =~= comment_rows(*e).take(i as int).push(
            seq![""@, c.0@, c.1@, c.2@],
        ));
        assert(rows_text(rows@) =~= rows_text(old(rows)@) + comment_rows(*e).take(i + 1));
        i = i + 1;
    }
    assert(comment_rows(*e).take(n as int) =~= comment_rows(*e));
}

fn header(a: &str, b: &str) -> (r: Vec<Vec<String>>)
    ensures
        rows_text(r@) == seq![seq![a@, b@]],
{
    let mut rows: Vec<Vec<String>> = Vec::new();
    push_row(&mut rows, cells2(a.to_owned(), b.to_owned()));
    assert(rows_text(rows@) =~= seq![seq![a@, b@]]);
    rows
}

fn header4(a: &str, b: &str, c: &str, d: &str) -> (r: Vec<Vec<String>>)
    ensures
        rows_text(r@) == seq![seq![a@, b@, c@, d@]],
{
    let mut rows: Vec<Vec<String>> = Vec::new();
    push_row(&mut rows, cells4(a.to_owned(), b.to_owned(), c.to_owned(), d.to_owned()));
    assert(rows_text(rows@) =~= seq![seq![a@, b@, c@, d@]]);
    rows
}

fn push_block(out: &mut Vec<Block>, b: Block)
    ensures
        blocks_text(final(out)@) == blocks_text(old(out)@).push(b@),
{
    out.push(b);
    assert(blocks_text(out@) =~= blocks_text(old(out)@).push(b@));
}

fn line(s: &str) -> (r: Block)
    ensures
        r@ == BlockView::Line(s@),
{
    Block::Line(s.to_owned())
}

} // verus!

verus! {

proof fn lemma_ordered_rows_step<V>(
    v: Seq<(String, V)>,
    o: Seq<int>,
    k: int,
    f: spec_fn((String, V)) -> Seq<Seq<Seq<char>>>,
)
    requires
        0 <= k < o.len(),
    ensures
        ordered_rows(v, o.take(k + 1), f) == ordered_rows(v, o.take(k), f) + f(v[o[k]]),
{
    assert(o.take(k + 1).drop_last() =~= o.take(k));
    assert(o.take(k + 1).last() == o[k]);
}

fn push_all_values_rows(rows: &mut Vec<Vec<String>>, v: &Vec<(String, Vec<String>)>, order: &Vec<usize>, upto: usize)
    requires
        all_valued(v@),
        upto <= order@.len(),
        forall|i: int| 0 <= i < order@.len() ==> #[trigger] order@[i] < v@.len(),
    ensures
        rows_text(final(rows)@) == rows_text(old(rows)@) + ordered_rows(
            v@,
            order@.map_values(|i: usize| i as int).take(upto as int),
            |e: (String, Vec<String>)| values_rows(e),
        ),
{
    let ghost o = order@.map_values(|i: usize| i as int);
    let ghost f = |e: (String, Vec<String>)| values_rows(e);
    let mut k: usize = 0;
    assert(ordered_rows(v@, o.take(0), f) =~= Seq::<Seq<Seq<char>>>::empty()) by {
        assert(o.take(0).len() == 0);
    }
    assert(rows_text(rows@) =~= rows_text(old(rows)@) + ordered_rows(v@, o.take(0), f));
    while k < upto
        invariant
            upto <= order@.len(),
            all_valued(v@),
            forall|i: int| 0 <= i < order@.len() ==> #[trigger] order@[i] < v@.len(),
            o == order@.map_values(|i: usize| i as int),
            f == (|e: (String, Vec<String>)| values_rows(e)),
            k <= upto,
            rows_text(rows@) == rows_text(old(rows)@) + ordered_rows(v@, o.take(k as int), f),
        decreases upto - k,
    {
        let idx = order[k];
        assert(v@[idx as int].1@.len() > 0);
        push_values_rows(rows, &v[idx]);
        proof {
            lemma_ordered_rows_step(v@, o, k as int, f);
            assert(rows_text(rows@) =~= rows_text(old(rows)@) + ordered_rows(v@, o.take(k + 1), f));
        }
        k = k + 1;
    }
}

fn push_all_comment_rows(
    rows: &mut Vec<Vec<String>>,
    v: &Vec<(String, Vec<(String, String, String)>)>,
    order: &Vec<usize>,
)
    requires
        all_valued(v@),
        forall|i: int| 0 <= i < order@.len() ==> #[trigger] order@[i] < v@.len(),
    ensures
        rows_text(final(rows)@) == rows_text(old(rows)@) + ordered_rows(
            v@,
            order@.map_values(|i: usize| i as int),
            |e: (String, Vec<(String, String, String)>)| comment_rows(e),
        ),
{
    let ghost o = order@.map_values(|i: usize| i as int);
    let ghost f = |e: (String, Vec<(String, String, String)>)| comment_rows(e);
    let n = order.len();
    let mut k: usize = 0;
    assert(ordered_rows(v@, o.take(0), f) =~= Seq::<Seq<Seq<char>>>::empty()) by {
        assert(o.take(0).len() == 0);
    }
    assert(rows_text(rows@) =~= rows_text(old(rows)@) + ordered_rows(v@, o.take(0), f));
    while k < n
        invariant
            n == order@.len(),
            all_valued(v@),
            forall|i: int| 0 <= i < order@.len() ==> #[trigger] order@[i] < v@.len(),
            o == order@.map_values(|i: usize| i as int),
            f == (|e: (String, Vec<(String, String, String)>)| comment_rows(e)),
            k <= n,
            rows_text(rows@) == rows_text(old(rows)@) + ordered_rows(v@, o.take(k as int), f),
        decreases n - k,
    {
        let idx = order[k];
        assert(v@[idx as int].1@.len() > 0);
        push_comment_rows(rows, &v[idx]);
        proof {
            lemma_ordered_rows_step(v@, o, k as int, f);
            assert(rows_text(rows@) =~= rows_text(old(rows)@) + ordered_rows(v@, o.take(k + 1), f));
        }
        k = k + 1;
    }
    assert(o.take(n as int) =~= o);
}

fn push_all_text_rows(rows: &mut Vec<Vec<String>>, v: &Vec<(String, String)>, order: &Vec<usize>)
    requires
        forall|i: int| 0 <= i < order@.len() ==> #[trigger] order@[i] < v@.len(),
    ensures
        rows_text(final(rows)@) == rows_text(old(rows)@) + ordered_rows(
            v@,
            order@.map_values(|i: usize| i as int),
            |e: (String, String)| text_row(e),
        ),
{
    let ghost o = order@.map_values(|i: usize| i as int);
    let ghost f = |e: (String, String)| text_row(e);
    let n = order.len();
    let mut k: usize = 0;
    assert(ordered_rows(v@, o.take(0), f) =~= Seq::<Seq<Seq<char>>>::empty()) by {
        assert(o.take(0).len() == 0);
    }
    assert(rows_text(rows@) =~= rows_text(old(rows)@) + ordered_rows(v@, o.take(0), f));
    while k < n
        invariant
            n == order@.len(),
            forall|i: int| 0 <= i < order@.len() ==> #[trigger] order@[i] < v@.len(),
            o == order@.map_values(|i: usize| i as int),
            f == (|e: (String, String)| text_row(e)),
            k <= n,
            rows_text(rows@) == rows_text(old(rows)@) + ordered_rows(v@, o.take(k as int), f),
        decreases n - k,
    {
        let idx = order[k];
        let e = &v[idx];
        push_row(rows, cells2(e.0.clone(), e.1.clone()));
        proof {
            lemma_ordered_rows_step(v@, o, k as int, f);
            assert(rows_text(rows@) =~= rows_text(old(rows)@) + ordered_rows(v@, o.take(k + 1), f));
        }
        k = k + 1;
    }
    assert(o.take(n as int) =~= o);
}

fn push_all_byte_rows(rows: &mut Vec<Vec<String>>, v: &Vec<(String, u8)>, order: &Vec<usize>)
    requires
        forall|i: int| 0 <= i < order@.len() ==> #[trigger] order@[i] < v@.len(),
    ensures
        rows_text(final(rows)@) == rows_text(old(rows)@) + ordered_rows(
            v@,
            order@.map_values(|i: usize| i as int),
            |e: (String, u8)| byte_row(e),
        ),
{
    let ghost o = order@.map_values(|i: usize| i as int);
    let ghost f = |e: (String, u8)| byte_row(e);
    let n = order.len();
    let mut k: usize = 0;
    assert(ordered_rows(v@, o.take(0), f) =~= Seq::<Seq<Seq<char>>>::empty()) by {
        assert(o.take(0).len() == 0);
    }
    assert(rows_text(rows@) =~= rows_text(old(rows)@) + ordered_rows(v@, o.take(0), f));
    while k < n
        invariant
            n == order@.len(),
            forall|i: int| 0 <= i < order@.len() ==> #[trigger] order@[i] < v@.len(),
            o == order@.map_values(|i: usize| i as int),
            f == (|e: (String, u8)| byte_row(e)),
            k <= n,
            rows_text(rows@) == rows_text(old(rows)@) + ordered_rows(v@, o.take(k as int), f),
        decreases n - k,
    {
        let idx = order[k];
        let e = &v[idx];
        let mut d: Vec<char> = Vec::new();
        push_decimal(&mut d, e.1 as u64);
        push_row(rows, cells2(e.0.clone(), chars_to_string(d.as_slice())));
        proof {
            lemma_ordered_rows_step(v@, o, k as int, f);
            assert(rows_text(rows@) =~= rows_text(old(rows)@) + ordered_rows(v@, o.take(k + 1), f));
        }
        k = k + 1;
    }
    assert(o.take(n as int) =~= o);
}

} // verus!

verus! {

/// The order of the entries of `v` by key, as positions.
pub open spec fn order_of<V>(v: Seq<(String, V)>) -> Seq<int> {
    key_order(keys_of(v), v.len())
}

/// The tables shown for FLAC comments: after the header row, each key (in
/// order) adds its rows, and the table so far is shown once per key.
pub open spec fn flac_tables(c: Seq<(String, Vec<String>)>, k: nat) -> Seq<BlockView>
    decreases k,
{
    if k == 0 {
        Seq::empty()
    } else {
        flac_tables(c, (k - 1) as nat).push(
            BlockView::Table(
                seq![seq!["Key"@, "Value"@]] + ordered_rows(
                    c,
                    order_of(c).take(k as int),
                    |e: (String, Vec<String>)| values_rows(e),
                ),
            ),
        )
    }
}

/// What is shown of FLAC metadata.
pub open spec fn flac_blocks(md: FlacMetadata) -> Seq<BlockView> {
    seq![BlockView::Line("Metadata"@)] + flac_tables(md.comments@, md.comments@.len())
}

/// What is shown of ID3 metadata: the text frames, then the comments, each
/// as a table by key or a line saying there are none.
pub open spec fn id3_blocks(md: ID3Metadata) -> Seq<BlockView> {
    let t = md.text@;
    let c = md.comments@;
    seq![BlockView::Line("Metadata"@), BlockView::Line("\nText"@)] + (if t.len() == 0 {
        seq![BlockView::Line("No text."@)]
    } else {
        seq![
            BlockView::Table(
                seq![seq!["Key"@, "Value"@]] + ordered_rows(
                    t,
                    order_of(t),
                    |e: (String, Vec<String>)| values_rows(e),
                ),
            ),
        ]
    }) + seq![BlockView::Line("\nComments"@)] + (if c.len() == 0 {
        seq![BlockView::Line("No Comments."@)]
    } else {
        seq![
            BlockView::Table(
                seq![seq!["Key"@, "Lang"@, "Description"@, "Text"@]] + ordered_rows(
                    c,
                    order_of(c),
                    |e: (String, Vec<(String, String, String)>)| comment_rows(e),
                ),
            ),
        ]
    })
}

/// What is shown of MPEG-4 metadata: one table of the text entries and then
/// the byte entries, each by key, or a line saying there is none.
pub open spec fn mp4_blocks(md: MPEG4Metadata) -> Seq<BlockView> {
    let t = md.text@;
    let b = md.byte@;
    seq![BlockView::Line("Metadata"@)] + (if t.len() > 0 || b.len() > 0 {
        seq![
            BlockView::Table(
                seq![seq!["Key"@, "Value"@]] + ordered_rows(
                    t,
                    order_of(t),
                    |e: (String, String)| text_row(e),
                ) + ordered_rows(b, order_of(b), |e: (String, u8)| byte_row(e)),
            ),
        ]
    } else {
        seq![BlockView::Line("No metadata."@)]
    })
}

/// Whether the metadata has a value for every key it lists.
pub open spec fn metadata_valued(m: Option<FormatMetadata>) -> bool {
    match m {
        Some(FormatMetadata::Flac(f)) => all_valued(f.comments@),
        Some(FormatMetadata::ID3(i)) => all_valued(i.text@) && all_valued(i.comments@),
        _ => true,
    }
}

/// What is shown of a track's metadata.
pub open spec fn metadata_blocks(m: Option<FormatMetadata>) -> Seq<BlockView> {
    match m {
        None => Seq::empty(),
        Some(FormatMetadata::Flac(f)) => flac_blocks(f),
        Some(FormatMetadata::ID3(i)) => id3_blocks(i),
        Some(FormatMetadata::MP4(x)) => mp4_blocks(x),
    }
}

fn show_flac(out: &mut Vec<Block>, md: &FlacMetadata)
    requires
        all_valued(md.comments@),
    ensures
        blocks_text(final(out)@) == blocks_text(old(out)@) + flac_blocks(*md),
{
    proof {
        reveal_strlit("Metadata");
        reveal_strlit("Key");
        reveal_strlit("Value");
    }
    push_block(out, line("Metadata"));
    let c = &md.comments;
    let order = entry_order(c);
    let ghost start = blocks_text(out@);
    let n = order.len();
    let mut k: usize = 0;
    while k < n
        invariant
            n == order@.len(),
            n == c@.len(),
            all_valued(c@),
            forall|i: int| 0 <= i < order@.len() ==> #[trigger] order@[i] < c@.len(),
            order@.map_values(|i: usize| i as int) == order_of(c@),
            k <= n,
            blocks_text(out@) == start + flac_tables(c@, k as nat),
        decreases n - k,
    {
        let mut rows = header("Key", "Value");
        push_all_values_rows(&mut rows, c, &order, k + 1);
        push_block(out, Block::Table(rows));
        k = k + 1;
        assert(blocks_text(out@) =~= start + flac_tables(c@, k as nat));
    }
    assert(blocks_text(out@) =~= blocks_text(old(out)@) + flac_blocks(*md));
}

} // verus!

verus! {

fn show_id3(out: &mut Vec<Block>, md: &ID3Metadata)
    requires
        all_valued(md.text@),
        all_valued(md.comments@),
    ensures
        blocks_text(final(out)@) == blocks_text(old(out)@) + id3_blocks(*md),
{
    proof {
        reveal_strlit("Metadata");
        reveal_strlit("\nText");
        reveal_strlit("No text.");
        reveal_strlit("\nComments");
        reveal_strlit("No Comments.");
        reveal_strlit("Key");
        reveal_strlit("Value");
        reveal_strlit("Lang");
        reveal_strlit("Description");
        reveal_strlit("Text");
    }
    push_block(out, line("Metadata"));
    push_block(out, line("\nText"));
    if md.text.len() == 0 {
        push_block(out, line("No text."));
    } else {
        let order = entry_order(&md.text);
        let mut rows = header("Key", "Value");
        push_all_values_rows(&mut rows, &md.text, &order, order.len());
        assert(order@.map_values(|i: usize| i as int).take(order@.len() as int) =~= order@.map_values(
            |i: usize| i as int,
        ));
        push_block(out, Block::Table(rows));
    }
    push_block(out, line("\nComments"));
    if md.comments.len() == 0 {
        push_block(out, line("No Comments."));
    } else {
        let order = entry_order(&md.comments);
        let mut rows = header4("Key", "Lang", "Description", "Text");
        push_all_comment_rows(&mut rows, &md.comments, &order);
        push_block(out, Block::Table(rows));
    }
    assert(blocks_text(out@) =~= blocks_text(old(out)@) + id3_blocks(*md));
}

fn show_mp4(out: &mut Vec<Block>, md: &MPEG4Metadata)
    ensures
        blocks_text(final(out)@) == blocks_text(old(out)@) + mp4_blocks(*md),
{
    proof {
        reveal_strlit("Metadata");
        reveal_strlit("No metadata.");
        reveal_strlit("Key");
        reveal_strlit("Value");
    }
    push_block(out, line("Metadata"));
    if md.text.len() > 0 || md.byte.len() > 0 {
        let mut rows = header("Key", "Value");
        let to = entry_order(&md.text);
        push_all_text_rows(&mut rows, &md.text, &to);
        let bo = entry_order(&md.byte);
        push_all_byte_rows(&mut rows, &md.byte, &bo);
        push_block(out, Block::Table(rows));
    } else {
        push_block(out, line("No metadata."));
    }
    assert(blocks_text(out@) =~= blocks_text(old(out)@) + mp4_blocks(*md));
}

/// What describing a track shows: the table of its description (see
/// `describe_entries`), an empty line, and its metadata (see
/// `metadata_blocks`).
pub open spec fn describe_blocks(t: Track, name: Seq<char>, size: Option<u64>) -> Seq<BlockView> {
    seq![
        BlockView::Table(
            describe_entries(t, name, size).map_values(
                |e: (Seq<char>, Seq<char>)| seq![e.0, e.1],
            ),
        ),
        BlockView::Line(""@),
    ] + metadata_blocks(t.metadata)
}

/// Describes a track whose file is called `name` and has `size` bytes when
/// known (see `describe_blocks`).
pub fn describe_track(t: &Track, name: String, size: Option<u64>) -> (r: Vec<Block>)
    requires
        metadata_valued(t.metadata),
    ensures
        blocks_text(r@) == describe_blocks(*t, name@, size),
{
    let tes = describe_entries_of(t, name, size);
    let mut rows: Vec<Vec<String>> = Vec::new();
    let n = tes.len();
    let mut i: usize = 0;
    while i < n
        invariant
            n == tes@.len(),
            i <= n,
            rows_text(rows@) == entries_text(tes@).take(i as int).map_values(
                |e: (Seq<char>, Seq<char>)| seq![e.0, e.1],
            ),
        decreases n - i,
    {
        let e = &tes[i];
        push_row(&mut rows, cells2(e.0.clone(), e.1.clone()));
        assert(rows_text(rows@) =~= entries_text(tes@).take(i + 1).map_values(
            |e: (Seq<char>, Seq<char>)| seq![e.0, e.1],
        ));
        i = i + 1;
    }
    assert(entries_text(tes@).take(n as int) =~= entries_text(tes@));
    let mut out: Vec<Block> = Vec::new();
    push_block(&mut out, Block::Table(rows));
    proof {
        reveal_strlit("");
    }
    push_block(&mut out, line(""));
    let ghost start = blocks_text(out@);
    match &t.metadata {
        None => {},
        Some(FormatMetadata::Flac(f)) => show_flac(&mut out, f),
        Some(FormatMetadata::ID3(m)) => show_id3(&mut out, m),
        Some(FormatMetadata::MP4(m)) => show_mp4(&mut out, m),
    }
    assert(blocks_text(out@) =~= describe_blocks(*t, name@, size));
    out
}

} // verus!

verus! {

/// The titles of the track table for PCM (and MPEG-4) audio.
pub open spec fn pcm_titles() -> Seq<Seq<char>> {
    seq!["Track"@, "Title"@, "Duration"@, "Rate"@, "Depth"@, "Format"@, "File"@]
}

/// The titles of the track table for MPEG-3 audio.
pub open spec fn mpeg3_titles() -> Seq<Seq<char>> {
    seq![
        "Track"@,
        "Title"@,
        "Duration"@,
        "Sample Rate"@,
        "Bitrate"@,
        "Version"@,
        "Layer"@,
        "Format"@,
        "File"@,
    ]
}

/// The title row for tracks of format `f`.
pub open spec fn title_row_text(f: Option<CodecFormat>) -> Seq<Seq<char>> {
    match f {
        Some(CodecFormat::MPEG3(_)) => mpeg3_titles(),
        _ => pcm_titles(),
    }
}

/// The row of track `t` in the table: track numbers, title, duration (from
/// `secs` seconds) and what its codec tells, its file format and file name.
pub open spec fn track_row_text(t: Track, name: Seq<char>, secs: Option<u64>) -> Seq<Seq<char>> {
    let td = crate::track::tracks_text(t.track_number, t.track_total);
    let title = text_or_none(t.title);
    let ff = text_or_none(t.file_format);
    match t.format {
        None => seq![td, title, "-"@, "-"@, "-"@, ff, name],
        Some(CodecFormat::PCM(f)) => seq![
            td,
            title,
            duration_text(secs->0, true),
            per_thousand(f.sample_rate as nat) + " KHz"@,
            decimal(f.bits_per_sample as nat) + " bits"@,
            ff,
            name,
        ],
        Some(CodecFormat::MPEG3(f)) => seq![
            td,
            title,
            duration_text(secs->0, true),
            decimal(f.sample_rate as nat) + " "@,
            pad_left(decimal(f.bitrate as nat), 3, ' ') + " Kbps"@,
            version_text(f.version),
            layer_text(f.layer),
            ff,
            name,
        ],
        Some(CodecFormat::MPEG4(f)) => seq![
            td,
            title,
            duration_text(secs->0, true),
            per_thousand((f.sr / 65536) as nat) + " KHz"@,
            decimal(f.bits_per_sample as nat) + " bits"@,
            ff,
            name,
        ],
    }
}

fn titles(f: &Option<CodecFormat>) -> (r: Vec<String>)
    ensures
        r@.map_values(|c: String| c@) == title_row_text(*f),
{
    let mut v: Vec<String> = Vec::new();
    let mpeg3 = match f {
        Some(CodecFormat::MPEG3(_)) => true,
        _ => false,
    };
    proof {
        reveal_strlit("Track");
        reveal_strlit("Title");
        reveal_strlit("Duration");
        reveal_strlit("Rate");
        reveal_strlit("Depth");
        reveal_strlit("Sample Rate");
        reveal_strlit("Bitrate");
        reveal_strlit("Version");
        reveal_strlit("Layer");
        reveal_strlit("Format");
        reveal_strlit("File");
    }
    v.push("Track".to_owned());
    v.push("Title".to_owned());
    v.push("Duration".to_owned());
    if mpeg3 {
        v.push("Sample Rate".to_owned());
        v.push("Bitrate".to_owned());
        v.push("Version".to_owned());
        v.push("Layer".to_owned());
    } else {
        v.push("Rate".to_owned());
        v.push("Depth".to_owned());
    }
    v.push("Format".to_owned());
    v.push("File".to_owned());
    assert(v@.map_values(|c: String| c@) =~= title_row_text(*f));
    v
}

fn dash() -> (r: String)
    ensures
        r@ == "-"@,
{
    NONE_SHORT.to_owned()
}

fn track_row(t: &Track, name: String, secs: Option<u64>) -> (r: Vec<String>)
    requires
        t.format is Some ==> secs is Some,
    ensures
        r@.map_values(|c: String| c@) == track_row_text(*t, name@, secs),
{
    let mut v: Vec<String> = Vec::new();
    v.push(t.tracks_display());
    v.push(text_or_dash(&t.title));
    proof {
        reveal_strlit("-");
        reveal_strlit(" KHz");
        reveal_strlit(" bits");
        reveal_strlit(" ");
        reveal_strlit(" Kbps");
    }
    match &t.format {
        None => {
            v.push(dash());
            v.push(dash());
            v.push(dash());
        },
        Some(CodecFormat::PCM(f)) => {
            v.push(format_duration(secs.unwrap(), true));
            let mut k: Vec<char> = Vec::new();
            push_per_thousand(&mut k, f.sample_rate as u64);
            v.push(text_with(&k, " KHz"));
            v.push(decimal_with(f.bits_per_sample as u64, " bits"));
        },
        Some(CodecFormat::MPEG3(f)) => {
            v.push(format_duration(secs.unwrap(), true));
            v.push(decimal_with(f.sample_rate as u64, " "));
            let mut b: Vec<char> = Vec::new();
            push_decimal(&mut b, f.bitrate as u64);
            let mut p: Vec<char> = Vec::new();
            push_padded(&mut p, &b, 3, ' ');
            v.push(text_with(&p, " Kbps"));
            v.push(f.version_string());
            v.push(f.layer_string());
        },
        Some(CodecFormat::MPEG4(f)) => {
            v.push(format_duration(secs.unwrap(), true));
            let mut k: Vec<char> = Vec::new();
            push_per_thousand(&mut k, f.sample_rate() as u64);
            v.push(text_with(&k, " KHz"));
            v.push(decimal_with(f.bits_per_sample as u64, " bits"));
        },
    }
    v.push(text_or_dash(&t.file_format));
    v.push(name);
    assert(v@.map_values(|c: String| c@) =~= track_row_text(*t, name@, secs));
    v
}

} // verus!

verus! {

/// The rows of the track table after its first `k` tracks, and the disk
/// number of the last of them: the title row comes first when the first
/// track has no disk number; each change to a known disk number adds a row
/// naming the disk and a title row; then each track adds its row.
pub open spec fn table_rows(
    ts: Seq<Track>,
    names: Seq<Seq<char>>,
    secs: Seq<Option<u64>>,
    k: nat,
) -> (Seq<Seq<Seq<char>>>, Option<u32>)
    decreases k,
{
    if k == 0 {
        (
            if ts.len() > 0 && ts[0].disk_number is None {
                seq![title_row_text(ts[0].format)]
            } else {
                Seq::empty()
            },
            None,
        )
    } else {
        let (r, ld) = table_rows(ts, names, secs, (k - 1) as nat);
        let t = ts[k - 1];
        let cd = t.disk_number;
        let r2 = if ld != cd && cd is Some {
            r + seq![seq!["\nDisk: "@ + decimal(cd->0 as nat)], title_row_text(t.format)]
        } else {
            r
        };
        (r2.push(track_row_text(t, names[k - 1], secs[k - 1])), cd)
    }
}

/// What listing shows: for an album with tracks, an empty line, the album's
/// title and artist, its number of disks (when above zero), its number of
/// tracks, and the table of tracks; then, when there are other files,
/// "\nFiles:" and their names.
pub open spec fn list_blocks(a: Album, names: Seq<Seq<char>>, secs: Seq<Option<u64>>, files: Seq<Seq<char>>) -> Seq<
    BlockView,
> {
    let ts = a.tracks@;
    (if ts.len() > 0 {
        seq![
            BlockView::Line(""@),
            BlockView::Line("Album: "@ + text_or_none(a.title)),
            BlockView::Line("Artist: "@ + text_or_none(a.artist)),
        ] + (if a.disk_total matches Some(d) && d > 0 {
            seq![BlockView::Line("Disks: "@ + number_or_none(a.disk_total))]
        } else {
            Seq::empty()
        }) + seq![
            BlockView::Line("Total Tracks: "@ + number_or_none(a.track_total)),
            BlockView::Table(table_rows(ts, names, secs, ts.len()).0),
        ]
    } else {
        Seq::empty()
    }) + (if files.len() > 0 {
        seq![BlockView::Line("\nFiles:"@)] + files.map_values(|f: Seq<char>| BlockView::Line(f))
    } else {
        Seq::empty()
    })
}

fn text_line(prefix: &str, value: String) -> (r: Block)
    ensures
        r@ == BlockView::Line(prefix@ + value@),
{
    let mut v: Vec<char> = Vec::new();
    push_str(&mut v, prefix);
    push_str(&mut v, value.as_str());
    Block::Line(chars_to_string(v.as_slice()))
}

/// Lists an album's tracks and other files: `names` holds the file name of
/// each track, `secs` the whole seconds of each track's duration (see
/// `track_secs`), and `files` the names of the other files (see
/// `list_blocks`).
pub fn list_files(a: &Album, names: &Vec<String>, secs: &Vec<Option<u64>>, files: &Vec<String>) -> (r: Vec<
    Block,
>)
    requires
        names@.len() == a.tracks@.len(),
        secs@.len() == a.tracks@.len(),
        forall|i: int| 0 <= i < a.tracks@.len() ==> ((#[trigger] a.tracks@[i]).format is Some ==> secs@[i] is Some),
    ensures
        blocks_text(r@) == list_blocks(
            *a,
            names@.map_values(|n: String| n@),
            secs@,
            files@.map_values(|f: String| f@),
        ),
{
    let mut out: Vec<Block> = Vec::new();
    let ts = &a.tracks;
    let n = ts.len();
    let ghost nv = names@.map_values(|x: String| x@);
    proof {
        reveal_strlit("");
        reveal_strlit("Album: ");
        reveal_strlit("Artist: ");
        reveal_strlit("Disks: ");
        reveal_strlit("Total Tracks: ");
        reveal_strlit("\nFiles:");
        reveal_strlit("\nDisk: ");
    }
    if n > 0 {
        push_block(&mut out, line(""));
        push_block(&mut out, text_line("Album: ", text_or_dash(&a.title)));
        push_block(&mut out, text_line("Artist: ", text_or_dash(&a.artist)));
        let disks = match a.disk_total {
            Some(d) => d > 0,
            None => false,
        };
        if disks {
            push_block(&mut out, text_line("Disks: ", number_or_dash(a.disk_total)));
        }
        push_block(&mut out, text_line("Total Tracks: ", number_or_dash(a.track_total)));
        let mut rows: Vec<Vec<String>> = Vec::new();
        if ts[0].disk_number.is_none() {
            push_row(&mut rows, titles(&ts[0].format));
        }
        assert(rows_text(rows@) =~= table_rows(ts@, nv, secs@, 0).0);
        let mut ld: Option<u32> = None;
        let mut i: usize = 0;
        while i < n
            invariant
                n == ts@.len(),
                ts == &a.tracks,
                names@.len() == n,
                secs@.len() == n,
                nv == names@.map_values(|x: String| x@),
                forall|k: int| 0 <= k < n ==> ((#[trigger] ts@[k]).format is Some ==> secs@[k] is Some),
                i <= n,
                rows_text(rows@) == table_rows(ts@, nv, secs@, i as nat).0,
                ld == table_rows(ts@, nv, secs@, i as nat).1,
            decreases n - i,
        {
            let t = &ts[i];
            let cd = t.disk_number;
            let ghost before = rows_text(rows@);
            if ld != cd {
                match cd {
                    Some(d) => {
                        let mut c: Vec<String> = Vec::new();
                        let mut dv: Vec<char> = Vec::new();
                        push_str(&mut dv, "\nDisk: ");
                        push_decimal(&mut dv, d as u64);
                        c.push(chars_to_string(dv.as_slice()));
                        assert(c@.map_values(|x: String| x@) =~= seq!["\nDisk: "@ + decimal(d as nat)]);
                        push_row(&mut rows, c);
                        push_row(&mut rows, titles(&t.format));
                    },
                    None => {},
                }
            }
            ld = cd;
            push_row(&mut rows, track_row(t, names[i].clone(), secs[i]));
            assert(rows_text(rows@) =~= table_rows(ts@, nv, secs@, (i + 1) as nat).0);
            i = i + 1;
        }
        push_block(&mut out, Block::Table(rows));
    }
    let ghost mid = blocks_text(out@);
    let m = files.len();
    if m > 0 {
        push_block(&mut out, line("\nFiles:"));
        let ghost start = blocks_text(out@);
        let mut k: usize = 0;
        while k < m
            invariant
                m == files@.len(),
                k <= m,
                blocks_text(out@) == start + files@.map_values(|f: String| f@).take(k as int).map_values(
                    |f: Seq<char>| BlockView::Line(f),
                ),
            decreases m - k,
        {
            push_block(&mut out, Block::Line(files[k].clone()));
            assert(blocks_text(out@) =~= start + files@.map_values(|f: String| f@).take(k + 1).map_values(
                |f: Seq<char>| BlockView::Line(f),
            ));
            k = k + 1;
        }
        assert(files@.map_values(|f: String| f@).take(m as int) =~= files@.map_values(|f: String| f@));
    }
    assert(blocks_text(out@) =~= list_blocks(*a, nv, secs@, files@.map_values(|f: String| f@)));
    out
}

} // verus!

verus! {

/// What printing FLAC metadata shows: the table of all comments by key, or
/// a line saying there are none.
pub open spec fn flac_print_blocks(md: FlacMetadata) -> Seq<BlockView> {
    let c = md.comments@;
    seq![BlockView::Line("Metadata"@)] + (if c.len() > 0 {
        seq![
            BlockView::Table(
                seq![seq!["Key"@, "Value"@]] + ordered_rows(
                    c,
                    order_of(c),
                    |e: (String, Vec<String>)| values_rows(e),
                ),
            ),
        ]
    } else {
        seq![BlockView::Line("No Comments."@)]
    })
}

/// What printing MPEG-4 metadata shows: the table of the text entries and
/// then the byte entries, each by key, or a line saying there is none.
pub open spec fn mp4_print_blocks(md: MPEG4Metadata) -> Seq<BlockView> {
    let t = md.text@;
    let b = md.byte@;
    seq![BlockView::Line("Metadata"@)] + (if t.len() > 0 || b.len() > 0 {
        seq![
            BlockView::Table(
                seq![seq!["Key"@, "Value"@]] + ordered_rows(
                    t,
                    order_of(t),
                    |e: (String, String)| text_row(e),
                ) + ordered_rows(b, order_of(b), |e: (String, u8)| byte_row(e)),
            ),
        ]
    } else {
        seq![BlockView::Line("No Metadata."@)]
    })
}

impl FlacMetadata {
    /// The metadata as key values in columns (see `flac_print_blocks`).
    pub fn print(&self) -> (r: Vec<Block>)
        requires
            all_valued(self.comments@),
        ensures
            blocks_text(r@) == flac_print_blocks(*self),
    {
        proof {
            reveal_strlit("Metadata");
            reveal_strlit("No Comments.");
            reveal_strlit("Key");
            reveal_strlit("Value");
        }
        let mut out: Vec<Block> = Vec::new();
        push_block(&mut out, line("Metadata"));
        if self.comments.len() > 0 {
            let order = entry_order(&self.comments);
            let mut rows = header("Key", "Value");
            push_all_values_rows(&mut rows, &self.comments, &order, order.len());
            assert(order@.map_values(|i: usize| i as int).take(order@.len() as int) =~= order@.map_values(
                |i: usize| i as int,
            ));
            push_block(&mut out, Block::Table(rows));
        } else {
            push_block(&mut out, line("No Comments."));
        }
        assert(blocks_text(out@) =~= flac_print_blocks(*self));
        out
    }
}

impl ID3Metadata {
    /// The text frames and then the comments, each as key values in columns
    /// (see `id3_blocks`).
    pub fn print(&self) -> (r: Vec<Block>)
        requires
            all_valued(self.text@),
            all_valued(self.comments@),
        ensures
            blocks_text(r@) == id3_blocks(*self),
    {
        let mut out: Vec<Block> = Vec::new();
        show_id3(&mut out, self);
        assert(blocks_text(out@) =~= id3_blocks(*self));
        out
    }
}

impl MPEG4Metadata {
    /// The metadata as key values in columns (see `mp4_print_blocks`).
    pub fn print(&self) -> (r: Vec<Block>)
        ensures
            blocks_text(r@) == mp4_print_blocks(*self),
    {
        proof {
            reveal_strlit("Metadata");
            reveal_strlit("No Metadata.");
            reveal_strlit("Key");
            reveal_strlit("Value");
        }
        let mut out: Vec<Block> = Vec::new();
        push_block(&mut out, line("Metadata"));
        if self.text.len() > 0 || self.byte.len() > 0 {
            let mut rows = header("Key", "Value");
            let to = entry_order(&self.text);
            push_all_text_rows(&mut rows, &self.text, &to);
            let bo = entry_order(&self.byte);
            push_all_byte_rows(&mut rows, &self.byte, &bo);
            push_block(&mut out, Block::Table(rows));
        } else {
            push_block(&mut out, line("No Metadata."));
        }
        assert(blocks_text(out@) =~= mp4_print_blocks(*self));
        out
    }
}

} // verus!

verus! {

/// In the row of an MPEG-3 track, the cell under the title "Sample Rate" is
/// the sample rate in decimal followed by a space, and the cell under
/// "Bitrate" the bitrate, padded to three places, followed by " Kbps"; the
/// row has a cell under each title.
pub proof fn lemma_mpeg3_row_cells(t: Track, name: Seq<char>, secs: Option<u64>, f: crate::track::MPEG3Format)
    requires
        t.format == Some(CodecFormat::MPEG3(f)),
    ensures
        track_row_text(t, name, secs).len() == title_row_text(t.format).len(),
        forall|i: int|
            0 <= i < title_row_text(t.format).len() && #[trigger] title_row_text(t.format)[i]
                == "Sample Rate"@ ==> track_row_text(t, name, secs)[i] == decimal(f.sample_rate as nat)
                + " "@,
        forall|i: int|
            0 <= i < title_row_text(t.format).len() && #[trigger] title_row_text(t.format)[i]
                == "Bitrate"@ ==> track_row_text(t, name, secs)[i] == pad_left(
                decimal(f.bitrate as nat),
                3,
                ' ',
            ) + " Kbps"@,
{
    reveal_strlit("Track");
    reveal_strlit("Title");
    reveal_strlit("Duration");
    reveal_strlit("Sample Rate");
    reveal_strlit("Bitrate");
    reveal_strlit("Version");
    reveal_strlit("Layer");
    reveal_strlit("Format");
    reveal_strlit("File");
    let ts = title_row_text(t.format);
    assert forall|i: int| 0 <= i < ts.len() && #[trigger] ts[i] == "Sample Rate"@ implies i == 3 by {
        if i != 3 {
            assert(ts[i].len() != 11 || ts[i][0] != 'S');
        }
    }
    assert forall|i: int| 0 <= i < ts.len() && #[trigger] ts[i] == "Bitrate"@ implies i == 4 by {
        if i != 4 {
            assert(ts[i].len() != 7 || ts[i][0] != 'B');
        }
    }
}

/// The description of a track has an entry labelled "Artist" holding the
/// track's artist ("-" when unknown) and one labelled "Album" holding its
/// album ("-" when unknown); no other entry has either label.
pub proof fn lemma_describe_artist_album(t: Track, name: Seq<char>, size: Option<u64>)
    ensures
        describe_entries(t, name, size)[2].0 == "Artist"@,
        describe_entries(t, name, size)[3].0 == "Album"@,
        forall|i: int|
            0 <= i < describe_entries(t, name, size).len() && #[trigger] describe_entries(
                t,
                name,
                size,
            )[i].0 == "Artist"@ ==> describe_entries(t, name, size)[i].1 == (match t.artist {
                Some(a) => a@,
                None => "-"@,
            }),
        forall|i: int|
            0 <= i < describe_entries(t, name, size).len() && #[trigger] describe_entries(
                t,
                name,
                size,
            )[i].0 == "Album"@ ==> describe_entries(t, name, size)[i].1 == (match t.album {
                Some(a) => a@,
                None => "-"@,
            }),
{
    reveal_strlit("File");
    reveal_strlit("File Format");
    reveal_strlit("Artist");
    reveal_strlit("Album");
    reveal_strlit("Title");
    reveal_strlit("Track");
    reveal_strlit("Track Total");
    reveal_strlit("Disk Number");
    reveal_strlit("Disk Total");
    reveal_strlit("Sample Rate");
    reveal_strlit("Sample Size");
    reveal_strlit("Samples");
    reveal_strlit("Channels");
    reveal_strlit("Duration");
    reveal_strlit("Version");
    reveal_strlit("Layer");
    reveal_strlit("Bitrate");
    reveal_strlit("Size");
    reveal_strlit("-");
    let e = describe_entries(t, name, size);
    assert forall|i: int| 0 <= i < e.len() && i != 2 && i != 3 implies #[trigger] e[i].0 != "Artist"@
        && e[i].0 != "Album"@ by {
        assert(e[i].0.len() == 0 || e[i].0[0] != 'A');
    }
    assert(e[3].0[1] != "Artist"@[1]);
    assert(e[2].0[1] != "Album"@[1]);
}

/// The entries made by `describe_entries_of` (see its contract) hold, under
/// the label "Artist", the track's artist or "-", and under "Album" its
/// album or "-".
pub proof fn lemma_describe_entries_of_artist_album(
    t: Track,
    name: Seq<char>,
    size: Option<u64>,
    r: Seq<(String, String)>,
)
    requires
        entries_text(r) == describe_entries(t, name, size),
    ensures
        r[2].0@ == "Artist"@ && r[3].0@ == "Album"@,
        forall|i: int|
            0 <= i < r.len() && #[trigger] r[i].0@ == "Artist"@ ==> r[i].1@ == (match t.artist {
                Some(a) => a@,
                None => "-"@,
            }),
        forall|i: int|
            0 <= i < r.len() && #[trigger] r[i].0@ == "Album"@ ==> r[i].1@ == (match t.album {
                Some(a) => a@,
                None => "-"@,
            }),
{
    lemma_describe_artist_album(t, name, size);
    assert(entries_text(r).len() == r.len());
    assert(describe_entries(t, name, size).len() >= 10);
    assert forall|i: int| 0 <= i < r.len() implies #[trigger] r[i].0@ == describe_entries(t, name, size)[i].0
        && r[i].1@ == describe_entries(t, name, size)[i].1 by {
        assert(entries_text(r)[i] == (r[i].0@, r[i].1@));
    }
    assert(r[2].0@ == describe_entries(t, name, size)[2].0);
    assert(r[3].0@ == describe_entries(t, name, size)[3].0);
}

} // verus!

verus! {

/// The description of a track opens with its file name and file format, then
/// its artist and album, title, track number and total, disk number and
/// total ("-" for what is unknown), and ends with its size in bytes.
pub proof fn lemma_describe_tags(t: Track, name: Seq<char>, size: Option<u64>)
    ensures
        describe_entries(t, name, size)[0] == ("File"@, name),
        describe_entries(t, name, size)[1] == ("File Format"@, match t.file_format {
            Some(a) => a@,
            None => "-"@,
        }),
        describe_entries(t, name, size)[4] == ("Title"@, match t.title {
            Some(a) => a@,
            None => "-"@,
        }),
        describe_entries(t, name, size)[5] == ("Track"@, match t.track_number {
            Some(n) => decimal(n as nat),
            None => "-"@,
        }),
        describe_entries(t, name, size)[6] == ("Track Total"@, match t.track_total {
            Some(n) => decimal(n as nat),
            None => "-"@,
        }),
        describe_entries(t, name, size)[7] == ("Disk Number"@, match t.disk_number {
            Some(n) => decimal(n as nat),
            None => "-"@,
        }),
        describe_entries(t, name, size)[8] == ("Disk Total"@, match t.disk_total {
            Some(n) => decimal(n as nat),
            None => "-"@,
        }),
        describe_entries(t, name, size).last().0 == "Size"@,
{
}

/// For MPEG-3 audio the description tells, after the tags, its version,
/// layer, bitrate in kbps and sample rate (digits grouped) in KHz; for PCM
/// audio its sample rate in Hz (digits grouped), sample size in bits, number
/// of samples and channels.
pub proof fn lemma_describe_codec(t: Track, name: Seq<char>, size: Option<u64>)
    ensures
        t.format matches Some(CodecFormat::MPEG3(f)) ==> {
            let e = describe_entries(t, name, size);
            &&& e[9] == ("Version"@, version_text(f.version))
            &&& e[10] == ("Layer"@, layer_text(f.layer))
            &&& e[11] == ("Bitrate"@, decimal(f.bitrate as nat) + " kbps"@)
            &&& e[12] == ("Sample Rate"@, group_thousands(decimal(f.sample_rate as nat)) + " KHz"@)
        },
        t.format matches Some(CodecFormat::PCM(f)) ==> {
            let e = describe_entries(t, name, size);
            &&& e[9] == ("Sample Rate"@, group_thousands(decimal(f.sample_rate as nat)) + " Hz"@)
            &&& e[10] == ("Sample Size"@, decimal(f.bits_per_sample as nat) + " bits"@)
            &&& e[11] == ("Samples"@, group_thousands(decimal(f.total_samples as nat)))
            &&& e[12] == ("Channels"@, group_thousands(decimal(f.channels as nat)))
        },
{
}

/// In a track's row, the cell under "Title" is the track's title ("-" when
/// unknown) and the cell under "File" the file's name; for PCM audio the
/// cell under "Rate" is the sample rate in KHz and under "Depth" the sample
/// size in bits; for MPEG-3 audio the cells under "Version" and "Layer" tell
/// those of the format.
pub proof fn lemma_row_cells(t: Track, name: Seq<char>, secs: Option<u64>)
    ensures
        track_row_text(t, name, secs).len() == title_row_text(t.format).len(),
        forall|i: int|
            0 <= i < title_row_text(t.format).len() && #[trigger] title_row_text(t.format)[i] == "Title"@
                ==> track_row_text(t, name, secs)[i] == (match t.title {
                Some(a) => a@,
                None => "-"@,
            }),
        forall|i: int|
            0 <= i < title_row_text(t.format).len() && #[trigger] title_row_text(t.format)[i] == "File"@
                ==> track_row_text(t, name, secs)[i] == name,
        t.format matches Some(CodecFormat::PCM(f)) ==> (forall|i: int|
            0 <= i < title_row_text(t.format).len() && #[trigger] title_row_text(t.format)[i] == "Rate"@
                ==> track_row_text(t, name, secs)[i] == per_thousand(f.sample_rate as nat) + " KHz"@),
        t.format matches Some(CodecFormat::PCM(f)) ==> (forall|i: int|
            0 <= i < title_row_text(t.format).len() && #[trigger] title_row_text(t.format)[i] == "Depth"@
                ==> track_row_text(t, name, secs)[i] == decimal(f.bits_per_sample as nat) + " bits"@),
        t.format matches Some(CodecFormat::MPEG3(f)) ==> (forall|i: int|
            0 <= i < title_row_text(t.format).len() && #[trigger] title_row_text(t.format)[i] == "Version"@
                ==> track_row_text(t, name, secs)[i] == version_text(f.version)),
        t.format matches Some(CodecFormat::MPEG3(f)) ==> (forall|i: int|
            0 <= i < title_row_text(t.format).len() && #[trigger] title_row_text(t.format)[i] == "Layer"@
                ==> track_row_text(t, name, secs)[i] == layer_text(f.layer)),
{
    reveal_strlit("Track");
    reveal_strlit("Title");
    reveal_strlit("Duration");
    reveal_strlit("Sample Rate");
    reveal_strlit("Bitrate");
    reveal_strlit("Version");
    reveal_strlit("Layer");
    reveal_strlit("Format");
    reveal_strlit("File");
    reveal_strlit("Rate");
    reveal_strlit("Depth");
    let ts = title_row_text(t.format);
    assert forall|i: int| 0 <= i < ts.len() && #[trigger] ts[i] == "Title"@ implies i == 1 by {
        if i != 1 {
            assert(ts[i].len() != 5 || ts[i][1] != 'i');
        }
    }
    assert forall|i: int| 0 <= i < ts.len() && #[trigger] ts[i] == "File"@ implies i == ts.len() - 1 by {
        if i != ts.len() - 1 {
            assert(ts[i].len() != 4 || ts[i][0] != 'F' || ts[i][1] != 'i');
        }
    }
    assert forall|i: int| 0 <= i < ts.len() && #[trigger] ts[i] == "Rate"@ implies i == 3 by {
        if i != 3 {
            assert(ts[i].len() != 4 || ts[i][0] != 'R');
        }
    }
    assert forall|i: int| 0 <= i < ts.len() && #[trigger] ts[i] == "Depth"@ implies i == 4 by {
        if i != 4 {
            assert(ts[i].len() != 5 || ts[i][0] != 'D' || ts[i][1] != 'e');
        }
    }
    assert forall|i: int| 0 <= i < ts.len() && #[trigger] ts[i] == "Version"@ implies i == 5 by {
        if i != 5 {
            assert(ts[i].len() != 7 || ts[i][0] != 'V');
        }
    }
    assert forall|i: int| 0 <= i < ts.len() && #[trigger] ts[i] == "Layer"@ implies i == 6 by {
        if i != 6 {
            assert(ts[i].len() != 5 || ts[i][0] != 'L');
        }
    }
}

} // verus!
