//! Reader functionality for Apple ilst generic metadata box and its descendents.
use crate::mpeg4::boxes::{BoxView, MP4Box, FULL_BOX_HEADER_SIZE};
use vstd::prelude::*;

verus! {

/// The content of an ilst `data` box, by the type its flags give.
pub enum DataBoxContent<'a> {
    Byte(u8),
    Text(&'a [u8]),
    Data(&'a [u8]),
}

/// `DataBoxContent` seen as values.
pub enum DataContentView {
    Byte(u8),
    Text(Seq<u8>),
    Data(Seq<u8>),
}

impl<'a> View for DataBoxContent<'a> {
    type V = DataContentView;

    open spec fn view(&self) -> DataContentView {
        match self {
            DataBoxContent::Byte(b) => DataContentView::Byte(*b),
            DataBoxContent::Text(t) => DataContentView::Text(t@),
            DataBoxContent::Data(d) => DataContentView::Data(d@),
        }
    }
}

/// Flag value of a data box holding data of an implicit type.
pub const IMPLICIT_FLAG: u32 = 0;

/// Flag value of a data box holding text.
pub const TEXT_FLAG: u32 = 1;

/// Flag value of a data box holding a JPEG image.
pub const JPEG_FLAG: u32 = 13;

/// Flag value of a data box holding a PNG image.
pub const PNG_FLAG: u32 = 14;

/// Flag value of a data box holding a single byte.
pub const BYTE_FLAG: u32 = 21;

/// The content of a data box: after the full box header and four bytes
/// predefined as 0, text or data is the rest of the box; a byte is the next
/// byte; an unknown flag value gives the byte `b'0'`. `None` when the box
/// carries no version and flags, or is too short for what its flag says.
pub open spec fn data_box_content(v: BoxView) -> Option<DataContentView> {
    let start = FULL_BOX_HEADER_SIZE + 4;
    match v.version_flag {
        None => None,
        Some(vf) => if v.data.len() < start {
            None
        } else {
            let rest = v.data.subrange(start as int, v.data.len() as int);
            if vf.flag == TEXT_FLAG {
                Some(DataContentView::Text(rest))
            } else if vf.flag == IMPLICIT_FLAG || vf.flag == JPEG_FLAG || vf.flag == PNG_FLAG {
                Some(DataContentView::Data(rest))
            } else if vf.flag == BYTE_FLAG {
                if rest.len() >= 1 {
                    Some(DataContentView::Byte(rest[0]))
                } else {
                    None
                }
            } else {
                Some(DataContentView::Byte(48))
            }
        },
    }
}

/// Reads the content of a data box (see `data_box_content`).
pub fn get_data_box<'a>(bx: &MP4Box<'a>) -> (r: Option<DataBoxContent<'a>>)
    requires
        bx@.version_flag is Some,
    ensures
        match data_box_content(bx@) {
            None => r is None,
            Some(c) => r matches Some(d) && d@ == c,
        },
{
    let start = FULL_BOX_HEADER_SIZE + 4;
    let len = bx.buf.len();
    match &bx.version_flag {
        None => None,
        Some(vf) => {
            if len < start {
                return None;
            }
            let rest = &bx.buf[start..len];
            if vf.flag == TEXT_FLAG {
                Some(DataBoxContent::Text(rest))
            } else if vf.flag == IMPLICIT_FLAG || vf.flag == JPEG_FLAG || vf.flag == PNG_FLAG {
                Some(DataBoxContent::Data(rest))
            } else if vf.flag == BYTE_FLAG {
                if rest.len() >= 1 {
                    Some(DataBoxContent::Byte(rest[0]))
                } else {
                    None
                }
            } else {
                Some(DataBoxContent::Byte(48u8))
            }
        },
    }
}

} // verus!

verus! {

/// How data box content is shown: a byte in four hex digits, text quoted,
/// and data as a hex list (only its first and last eight bytes, and its
/// length, when it has more than 32).
pub open spec fn content_text(c: DataContentView) -> Seq<char> {
    match c {
        DataContentView::Byte(v) => "Byte("@ + crate::text::pad_left(crate::text::hex(v as nat), 4, '0')
            + ")"@,
        DataContentView::Text(v) => "Text("@ + crate::text::debug_text(crate::text::lossy_utf8(v)) + ")"@,
        DataContentView::Data(v) => if v.len() > 32 {
            "Data("@ + crate::text::hex_list(v.take(8)) + " ... "@ + crate::text::hex_list(
                v.skip(v.len() - 8),
            ) + " len = "@ + crate::text::decimal(v.len())
        } else {
            "Data("@ + crate::text::hex_list(v) + ")"@
        },
    }
}

impl<'a> DataBoxContent<'a> {
    /// The content as shown (see `content_text`).
    pub fn debug_text(&self) -> (r: String)
        ensures
            r@ == content_text(self@),
    {
        let mut out: Vec<char> = Vec::new();
        proof {
            reveal_strlit("Byte(");
            reveal_strlit("Text(");
            reveal_strlit("Data(");
            reveal_strlit(")");
            reveal_strlit(" ... ");
            reveal_strlit(" len = ");
        }
        match self {
            DataBoxContent::Byte(v) => {
                crate::text::push_str(&mut out, "Byte(");
                let mut h: Vec<char> = Vec::new();
                crate::text::push_hex(&mut h, *v as u64);
                crate::text::push_padded(&mut out, &h, 4, '0');
                crate::text::push_str(&mut out, ")");
            },
            DataBoxContent::Text(v) => {
                crate::text::push_str(&mut out, "Text(");
                let s = crate::text::utf8_lossy(v);
                let q = crate::text::debug_quoted(s.as_str());
                crate::text::push_str(&mut out, q.as_str());
                crate::text::push_str(&mut out, ")");
            },
            DataBoxContent::Data(v) => {
                let l = v.len();
                crate::text::push_str(&mut out, "Data(");
                if l > 32 {
                    crate::text::push_hex_list(&mut out, &v[0..8]);
                    crate::text::push_str(&mut out, " ... ");
                    crate::text::push_hex_list(&mut out, &v[l - 8..l]);
                    crate::text::push_str(&mut out, " len = ");
                    crate::text::push_decimal(&mut out, l as u64);
                    assert(v@.subrange(0, 8) =~= v@.take(8));
                    assert(v@.subrange(l - 8, l as int) =~= v@.skip(l - 8));
                } else {
                    crate::text::push_hex_list(&mut out, v);
                    crate::text::push_str(&mut out, ")");
                }
            },
        }
        assert(out@ =~= content_text(self@));
        crate::text::chars_to_string(out.as_slice())
    }
}

} // verus!
