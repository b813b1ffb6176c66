//! MPEG-4 boxes: the header, the buffer that walks them, and readers of
//! big-endian fields inside them.
use vstd::prelude::*;

pub mod box_types;
pub mod ilst;
pub mod mdia;
pub mod stbl;

use box_types::{box_type_of, header_size_of, BoxType, ContainerType};

verus! {

/// Bytes in the header of a simple box: size (4 bytes) and type (4 bytes).
pub const BOX_HEADER_SIZE: usize = 8;

/// Bytes in the header of a full box: a simple header plus version and flags (4 bytes).
pub const FULL_BOX_HEADER_SIZE: usize = 12;

/// The value of the big-endian 16 bit integer at `i` in `s`.
pub open spec fn be16(s: Seq<u8>, i: int) -> int {
    s[i] * 256 + s[i + 1]
}

/// The value of the big-endian 24 bit integer at `i` in `s`.
pub open spec fn be24(s: Seq<u8>, i: int) -> int {
    s[i] * 65536 + be16(s, i + 1)
}

/// The value of the big-endian 32 bit integer at `i` in `s`.
pub open spec fn be32(s: Seq<u8>, i: int) -> int {
    be16(s, i) * 65536 + be16(s, i + 2)
}

/// The value of the big-endian 64 bit integer at `i` in `s`.
pub open spec fn be64(s: Seq<u8>, i: int) -> int {
    be32(s, i) * 0x1_0000_0000 + be32(s, i + 4)
}

/// Reads the big-endian `u16` at `pos`.
pub fn read_u16(b: &[u8], pos: usize) -> (r: u16)
    requires
        pos + 2 <= b@.len(),
    ensures
        r == be16(b@, pos as int),
{
    (b[pos] as u16) * 256 + (b[pos + 1] as u16)
}

/// Reads the big-endian `u32` at `pos`.
pub fn read_u32(b: &[u8], pos: usize) -> (r: u32)
    requires
        pos + 4 <= b@.len(),
    ensures
        r == be32(b@, pos as int),
{
    let _n = b.len();
    let hi = read_u16(b, pos) as u32;
    let lo = read_u16(b, pos + 2) as u32;
    hi * 65536 + lo
}

/// Reads the big-endian `u64` at `pos`.
pub fn read_u64(b: &[u8], pos: usize) -> (r: u64)
    requires
        pos + 8 <= b@.len(),
    ensures
        r == be64(b@, pos as int),
{
    let _n = b.len();
    let hi = read_u32(b, pos) as u64;
    let lo = read_u32(b, pos + 4) as u64;
    hi * 0x1_0000_0000 + lo
}


/// Version (the first byte) and flags (the three following bytes) of a full
/// box.
#[derive(Debug, Clone, Copy, PartialEq, Eq, Structural)]
pub struct VersionFlag {
    pub version: u8,
    pub flag: u32,
}

/// The version and flags stored in the four bytes at `i` of `s`.
pub open spec fn version_flag_at(s: Seq<u8>, i: int) -> VersionFlag {
    VersionFlag { version: s[i], flag: be24(s, i + 1) as u32 }
}

/// Reads the version and flags at `pos`.
pub fn get_version_flags(b: &[u8], pos: usize) -> (r: VersionFlag)
    requires
        pos + 4 <= b@.len(),
    ensures
        r == version_flag_at(b@, pos as int),
{
    let _n = b.len();
    let version = b[pos];
    let flag = (b[pos + 1] as u32) * 65536 + (b[pos + 2] as u32) * 256 + (b[pos + 3] as u32);
    VersionFlag { version, flag }
}

/// What a box is, seen as values: its size, type, version and flags (for a full
/// box), and all of its bytes, header included.
pub struct BoxView {
    pub size: u32,
    pub box_type: BoxType,
    pub version_flag: Option<VersionFlag>,
    pub data: Seq<u8>,
}

/// Bytes of data that a special container holds before its enclosed boxes.
pub open spec fn container_skip(c: ContainerType) -> nat {
    match c {
        ContainerType::Special(k) => k as nat,
        _ => 0,
    }
}

/// The box at the start of `s`, and the offset at which the next box header is
/// read: after the whole box for a box that is not a container, and after the
/// header (and the data of a special container) for a container, whose enclosed
/// boxes come next. `None` when `s` is too short for a header, or when the size
/// field is smaller than the header or larger than `s`.
pub open spec fn parse_box(s: Seq<u8>) -> Option<(BoxView, nat)> {
    if s.len() < BOX_HEADER_SIZE {
        None
    } else {
        let size = be32(s, 0);
        let bt = box_type_of(be32(s, 4) as u32);
        let hdr = header_size_of(bt.box_spec());
        let skip = container_skip(bt.box_spec().container);
        if size < hdr + skip || size > s.len() {
            None
        } else {
            let vf = if bt.box_spec().full {
                Some(version_flag_at(s, BOX_HEADER_SIZE as int))
            } else {
                None
            };
            let next: nat = if bt.box_spec().container == ContainerType::NotContainer {
                size as nat
            } else {
                hdr + skip
            };
            Some(
                (
                    BoxView { size: size as u32, box_type: bt, version_flag: vf, data: s.take(size) },
                    next,
                ),
            )
        }
    }
}

/// The boxes met walking `s` from its start: each box header in turn, stepping
/// over non-containers and into containers, until the buffer ends or a header
/// cannot be read.
pub open spec fn boxes_of(s: Seq<u8>) -> Seq<BoxView>
    decreases s.len(),
{
    match parse_box(s) {
        None => Seq::empty(),
        Some((v, next)) => if 0 < next <= s.len() {
            seq![v] + boxes_of(s.skip(next as int))
        } else {
            Seq::empty()
        },
    }
}

/// The step from a box to the next header is never empty and stays in the buffer.
pub proof fn lemma_parse_box_step(s: Seq<u8>)
    ensures
        parse_box(s) matches Some((v, next)) ==> BOX_HEADER_SIZE <= next <= s.len()
            && v.size as nat <= s.len() && v.data.len() == v.size,
{
}

/// FTYP values seen as values: brand bytes, version, flags and the
/// compatible brands, four bytes each.
pub struct FtypView {
    pub brand: Seq<u8>,
    pub version: u8,
    pub flags: u32,
    pub compat_brands: Seq<Seq<u8>>,
}

/// The four-byte groups of `d` from `p` on; a shorter tail is left out.
pub open spec fn brands_from(d: Seq<u8>, p: int) -> Seq<Seq<u8>>
    decreases d.len() - p,
{
    if p < 0 || p + 4 > d.len() {
        Seq::empty()
    } else {
        seq![d.subrange(p, p + 4)] + brands_from(d, p + 4)
    }
}

/// The values of an FTYP box whose data (after the box header) is `d`: the
/// brand is the first four bytes (fewer when `d` is shorter), version and flags
/// the next four (0 when missing), and every further complete group of four
/// bytes is a compatible brand.
pub open spec fn ftyp_values(d: Seq<u8>) -> FtypView {
    FtypView {
        brand: if d.len() >= 4 { d.take(4) } else { d },
        version: if d.len() >= 8 { version_flag_at(d, 4).version } else { 0 },
        flags: if d.len() >= 8 { version_flag_at(d, 4).flag } else { 0 },
        compat_brands: brands_from(d, 8),
    }
}

/// FTYP - file type box
///
/// Begins an MPEG-4 file and identifies the specifications to which the file
/// complies: the major brand (4 ASCII characters), a minor version and flags,
/// and the compatible brands (4 ASCII characters each).
pub struct FtypBox<'a> {
    pub brand: &'a [u8],
    pub version: u8,
    pub flags: u32,
    pub compat_brands: Vec<&'a [u8]>,
}

impl<'a> View for FtypBox<'a> {
    type V = FtypView;

    open spec fn view(&self) -> FtypView {
        FtypView {
            brand: self.brand@,
            version: self.version,
            flags: self.flags,
            compat_brands: self.compat_brands@.map_values(|b: &[u8]| b@),
        }
    }
}

/// Reads the FTYP values from `d`, the bytes after the box header (see
/// `ftyp_values`).
pub fn get_ftyp_box_values<'a>(d: &'a [u8]) -> (r: FtypBox<'a>)
    ensures
        r@ == ftyp_values(d@),
{
    let len = d.len();
    let brand = if len >= 4 {
        &d[0..4]
    } else {
        d
    };
    let (version, flags) = if len >= 8 {
        let vf = get_version_flags(d, 4);
        (vf.version, vf.flag)
    } else {
        (0u8, 0u32)
    };
    let mut compat: Vec<&'a [u8]> = Vec::new();
    let mut p: usize = 8;
    assert(compat@.map_values(|b: &[u8]| b@) + brands_from(d@, 8) =~= brands_from(d@, 8));
    while p <= len && len - p >= 4
        invariant
            len == d@.len(),
            8 <= p,
            compat@.map_values(|b: &[u8]| b@) + brands_from(d@, p as int) == brands_from(
                d@,
                8,
            ),
        decreases len - p,
    {
        let g = &d[p..p + 4];
        let ghost before = compat@.map_values(|b: &[u8]| b@);
        compat.push(g);
        assert(compat@.map_values(|b: &[u8]| b@) =~= before.push(d@.subrange(p as int, p + 4)));
        assert(brands_from(d@, p as int) == seq![d@.subrange(p as int, p + 4)] + brands_from(
            d@,
            p + 4,
        ));
        assert(before + brands_from(d@, p as int) =~= before.push(d@.subrange(p as int, p + 4))
            + brands_from(d@, p + 4));
        p = p + 4;
    }
    assert(brands_from(d@, p as int) =~= Seq::<Seq<u8>>::empty());
    assert(compat@.map_values(|b: &[u8]| b@) =~= brands_from(d@, 8));
    let r = FtypBox { brand, version, flags, compat_brands: compat };
    assert(r@.brand =~= ftyp_values(d@).brand);
    r
}

/// Holds header information from the box and the buffer for the data
/// associated with the box (the whole box, header included).
#[derive(Debug)]
pub struct MP4Box<'a> {
    pub size: u32,
    pub box_type: BoxType,
    pub buf: &'a [u8],
    pub version_flag: Option<VersionFlag>,
}

impl<'a> View for MP4Box<'a> {
    type V = BoxView;

    open spec fn view(&self) -> BoxView {
        BoxView {
            size: self.size,
            box_type: self.box_type,
            version_flag: self.version_flag,
            data: self.buf@,
        }
    }
}

/// Reads the header of the box at the start of `buf`: just enough to determine
/// its size and type, along with version and flags for a full box. Returns the
/// box and the offset of the next header to read (see `parse_box`).
pub fn read_box_header<'i>(buf: &'i [u8]) -> (r: Option<(MP4Box<'i>, usize)>)
    ensures
        match parse_box(buf@) {
            None => r is None,
            Some((v, next)) => r matches Some((b, n)) && b@ == v && n == next,
        },
{
    let len = buf.len();
    if len < BOX_HEADER_SIZE {
        return None;
    }
    let s = read_u32(buf, 0);
    let bt = BoxType::ref_from(read_u32(buf, 4));
    let hdr = bt.header_size();
    let skip: usize = match bt.spec().container {
        ContainerType::Special(k) => k,
        _ => 0,
    };
    if (s as u64) < (hdr as u64) + (skip as u64) || (s as u64) > (len as u64) {
        return None;
    }
    let vf = if bt.is_full() {
        Some(get_version_flags(buf, BOX_HEADER_SIZE))
    } else {
        None
    };
    let next = if bt.is_container() {
        hdr + skip
    } else {
        s as usize
    };
    let b = MP4Box { size: s, box_type: bt, buf: &buf[0..s as usize], version_flag: vf };
    assert(b@.data =~= buf@.take(s as int));
    Some((b, next))
}

/// Holds the buffer and supports iteration over the MP4Boxes in the buffer.
pub struct MP4Buffer<'a> {
    pub buf: &'a [u8],
}

impl<'a> MP4Buffer<'a> {
    /// The next box: its header is read at the front of the buffer, and the
    /// buffer moves past the box (or into it, for a container). When no header
    /// can be read the buffer is emptied and `None` returned.
    pub fn next(&mut self) -> (r: Option<MP4Box<'a>>)
        ensures
            match parse_box(old(self).buf@) {
                None => r is None && final(self).buf@.len() == 0,
                Some((v, next)) => r matches Some(b) && b@ == v && final(self).buf@ == old(
                    self,
                ).buf@.skip(next as int),
            },
    {
        proof {
            lemma_parse_box_step(self.buf@);
        }
        match read_box_header(self.buf) {
            None => {
                self.buf = &self.buf[0..0];
                None
            },
            Some((b, next)) => {
                let len = self.buf.len();
                self.buf = &self.buf[next..len];
                Some(b)
            },
        }
    }
}

} // verus!

verus! {

/// How a box is shown: its four character code (quoted), size, type and
/// the length of its buffer.
pub open spec fn box_text(v: BoxView) -> Seq<char> {
    crate::text::debug_text(box_types::four_cc_text(v.box_type.box_spec().bt_id)) + "  ["@
        + crate::text::decimal(v.size as nat) + "] "@ + box_types::box_type_text(v.box_type)
        + " Buffer["@ + crate::text::decimal(v.data.len()) + "]"@
}

impl<'a> MP4Box<'a> {
    /// The box as shown (see `box_text`).
    pub fn debug_text(&self) -> (r: String)
        ensures
            r@ == box_text(self@),
    {
        let mut out: Vec<char> = Vec::new();
        let cc = self.box_type.four_cc();
        let q = crate::text::debug_quoted(cc.as_str());
        crate::text::push_str(&mut out, q.as_str());
        crate::text::push_str(&mut out, "  [");
        crate::text::push_decimal(&mut out, self.size as u64);
        crate::text::push_str(&mut out, "] ");
        let bt = self.box_type.debug_text();
        crate::text::push_str(&mut out, bt.as_str());
        crate::text::push_str(&mut out, " Buffer[");
        crate::text::push_decimal(&mut out, self.buf.len() as u64);
        crate::text::push_str(&mut out, "]");
        proof {
            reveal_strlit("  [");
            reveal_strlit("] ");
            reveal_strlit(" Buffer[");
            reveal_strlit("]");
        }
        assert(out@ =~= box_text(self@));
        crate::text::chars_to_string(out.as_slice())
    }
}

} // verus!

verus! {

/// The quoted (lossy) texts of `bs`, separated by ", ".
pub open spec fn quoted_items(bs: Seq<Seq<u8>>) -> Seq<char>
    decreases bs.len(),
{
    if bs.len() == 0 {
        Seq::empty()
    } else if bs.len() == 1 {
        crate::text::debug_text(crate::text::lossy_utf8(bs[0]))
    } else {
        quoted_items(bs.drop_last()) + ", "@ + crate::text::debug_text(
            crate::text::lossy_utf8(bs.last()),
        )
    }
}

/// How FTYP values are shown: version, flags in hex, the brand and the
/// compatible brands quoted.
pub open spec fn ftyp_text(f: FtypView) -> Seq<char> {
    "version: "@ + crate::text::decimal(f.version as nat) + ", flags: 0x"@ + crate::text::pad_left(
        crate::text::hex(f.flags as nat),
        3,
        '0',
    ) + ", brand: "@ + crate::text::debug_text(crate::text::lossy_utf8(f.brand))
        + ", compatible brands: ["@ + quoted_items(f.compat_brands) + "]"@
}

impl<'a> FtypBox<'a> {
    /// The values as shown (see `ftyp_text`).
    pub fn debug_text(&self) -> (r: String)
        ensures
            r@ == ftyp_text(self@),
    {
        proof {
            reveal_strlit("version: ");
            reveal_strlit(", flags: 0x");
            reveal_strlit(", brand: ");
            reveal_strlit(", compatible brands: [");
            reveal_strlit("]");
            reveal_strlit(", ");
        }
        let mut out: Vec<char> = Vec::new();
        crate::text::push_str(&mut out, "version: ");
        crate::text::push_decimal(&mut out, self.version as u64);
        crate::text::push_str(&mut out, ", flags: 0x");
        let mut h: Vec<char> = Vec::new();
        crate::text::push_hex(&mut h, self.flags as u64);
        crate::text::push_padded(&mut out, &h, 3, '0');
        crate::text::push_str(&mut out, ", brand: ");
        let b = crate::text::utf8_lossy(self.brand);
        let q = crate::text::debug_quoted(b.as_str());
        crate::text::push_str(&mut out, q.as_str());
        crate::text::push_str(&mut out, ", compatible brands: [");
        let ghost start = out@;
        let ghost bs = self.compat_brands@.map_values(|x: &[u8]| x@);
        let n = self.compat_brands.len();
        let mut i: usize = 0;
        while i < n
            invariant
                n == self.compat_brands@.len(),
                bs == self.compat_brands@.map_values(|x: &[u8]| x@),
                i <= n,
                out@ == start + quoted_items(bs.take(i as int)),
            decreases n - i,
        {
            proof {
                reveal_strlit(", ");
            }
            if i > 0 {
                crate::text::push_str(&mut out, ", ");
            }
            let s = crate::text::utf8_lossy(self.compat_brands[i]);
            let q = crate::text::debug_quoted(s.as_str());
            crate::text::push_str(&mut out, q.as_str());
            proof {
                let t = bs.take(i + 1);
                assert(t.drop_last() =~= bs.take(i as int));
                assert(t.last() == bs[i as int]);
                assert(out@ =~= start + quoted_items(t));
            }
            i = i + 1;
        }
        assert(bs.take(n as int) =~= bs);
        crate::text::push_str(&mut out, "]");
        assert(out@ =~= ftyp_text(self@));
        crate::text::chars_to_string(out.as_slice())
    }
}

} // verus!
