//! List of known Mpeg4 boxes.
//!
//! Each known box is identified by its four character code, read as a
//! big-endian `u32`. The table gives for each one whether it is a container
//! (and for the special containers, how many data bytes precede the enclosed
//! boxes), whether it is a full box (a box with version and flags), and a short
//! description.
use crate::mpeg4::boxes::{BOX_HEADER_SIZE, FULL_BOX_HEADER_SIZE};
use crate::text::{chars_to_string, decimal, decimal_chars, hex, push_decimal, push_hex, push_str};
use vstd::prelude::*;
use vstd::utf8::{decode_utf8, valid_utf8};

verus! {

/// Boxes are either a pure container, a special container (has data
/// before the enclosed boxes), or not a container.
#[derive(Debug, Clone, Copy, PartialEq, Eq, Structural)]
pub enum ContainerType {
    Container,
    /// Number of data bytes that precede the enclosed boxes.
    Special(usize),
    NotContainer,
}

/// A BoxSpec identifies properties of a box and carries the basic information.
#[derive(Debug, Clone, Copy, PartialEq, Eq, Structural)]
pub struct BoxSpec {
    /// The four character code as a big-endian `u32`.
    pub bt_id: u32,
    /// Whether this is a container, and what kind.
    pub container: ContainerType,
    /// Whether this is a FullBox (it carries version and flags).
    pub full: bool,
}

/// A known MPEG4 box type (one from the table) or an unknown one.
#[derive(Debug, Clone, Copy, PartialEq, Eq, Structural)]
pub enum BoxType {
    Known(BoxSpec),
    Unknown(BoxSpec),
}

/// File Container  
/// /ftyp
pub const FTYP: u32 = 0x66747970;

/// Data Container  
/// /moov/trak/mdia/minf/dinf
pub const DINF: u32 = 0x64696e66;

/// Data Reference - sources of media  
/// /moov/trak/mdia/minf/dref
pub const DREF: u32 = 0x64726566;

/// Handler - general data handler  
/// /moov/trak/mdia/hdlr, /movvo,udata/meta/hdlr
pub const HDLR: u32 = 0x68646c72;

/// UDTA Information Block  
/// /moov/meta, /moov/trak/udta/linf
pub const LINF: u32 = 0x6c696e66;

/// Metadata Container  
/// /moov/meta, /moov/trak/meta, /moov/udata/meta
pub const META: u32 = 0x6d657461;

/// Media Information Container  
/// /moov/meta, /moov/trak/meta, /moov/udata/meta
pub const MINF: u32 = 0x6d696e66;

/// Media Data Header  
/// /moov/trak/mdia/mdhd
pub const MDHD: u32 = 0x6d646864;

/// Media Container  
/// /moov/trak/mdia
pub const MDIA: u32 = 0x6d646961;

/// Top Movie Meta Data Container  
/// /moov
pub const MOOV: u32 = 0x6d6f6f76;

/// Movie Box Header  
/// /moov/mvhd
pub const MVHD: u32 = 0x6d766864;

/// Sound Media Header  
/// /moov/trak/minf/smhd
pub const SMHD: u32 = 0x736d6864;

/// Track Header  
/// /movv/trak/tkhd
pub const TKHD: u32 = 0x746b6864;

/// Track Container  
/// /moov/trak
pub const TRAK: u32 = 0x7472616b;

/// User Data Container  
/// /moov/udta
pub const UDTA: u32 = 0x75647461;

/// UUID is the user special type  
/// uuid
pub const UUID: u32 = 0x55554944;

/// Media Data Box  
/// /mdat
pub const MDAT: u32 = 0x6d646174;

/// Free Space  
/// /free
pub const FREE: u32 = 0x66726565;

/// Sample Table Box Container  
/// /moov/trak/mdia/minf/stbl
pub const STBL: u32 = 0x7374626c;

/// Protection information CERT  
/// moov/track/mdia/minf/stbl/stsd/mp4a/pinf/schi/cert
pub const CERT: u32 = 0x63657274;

/// Protection information CHTB  
/// moov/track/mdia/minf/stbl/stsd/mp4a/pinf/schi/cert
pub const CHTB: u32 = 0x63687462;

/// Digital Rights Management  
/// /moov/track/mdia/minf/stbl/stsd/drms
pub const DRMS: u32 = 0x64726d73;

/// Elementary Stream Descriptor  
/// /moov/track/mdia/minf/stbl/stsd/{mp4a,drms}/esds
pub const ESDS: u32 = 0x65736473;

/// Original Format Box  
/// moov/track/mdia/minf/stbl/stsd/drms/sinf/frma
pub const FRMA: u32 = 0x66726d61;

/// MPEG 4 Audio SampleEntry Box  
/// /moov/track/mdia/minf/stbl/stsd/mp4a
pub const MP4A: u32 = 0x6d703461;

/// Protection Information Box  
/// /moov/track/mdia/minf/stbl/mp4a/pinf
pub const PINF: u32 = 0x70696e66;

/// Protection information Rights  
/// moov/track/mdia/minf/stbl/stsd/mp4a/pinf/schi/righ
pub const RIGH: u32 = 0x72696768;

/// Protection Information SBTD  
/// /moov/track/mdia/minf/stbl/drms/sbtd
pub const SBTD: u32 = 0x73627464;

/// Protection Information Container  
/// /moov/track/mdia/minf/stbl/drms/schi
pub const SCHI: u32 = 0x73636869;

/// Protection Sceheme Informaiton Box  
/// /moov/track/mdia/minf/stbl/drms/schm
pub const SCHM: u32 = 0x7363686d;

/// Protection Scheme Information Box  
/// /moov/track/mdia/minf/stbl/mp4a/pinf/sign
pub const SIGN: u32 = 0x7369676e;

/// Protection Scheme Information Box  
/// /moov/track/mdia/minf/stbl/drms/sinf
pub const SINF: u32 = 0x73696e66;

/// Chunk Offsets  
/// /moov/track/mdia/minf/stbl/stco
pub const STCO: u32 = 0x7374636f;

/// Sample to Chunk  
/// /moov/track/mdia/minf/stbl/stsc
pub const STSC: u32 = 0x73747363;

/// Sample Description  
/// /moov/track/mdia/minf/stbl/stsd
pub const STSD: u32 = 0x73747364;

/// Time to sample  
/// /movv/track/mdia/minf/stbl/stts
pub const STTS: u32 = 0x73747473;

/// Sample Sizes  
/// /moov/track/mdia/minf/stbl/stsz
pub const STSZ: u32 = 0x7374737a;

/// Sample Sizes  
/// /moov/track/mdia/minf/stbl/stsz
pub const USER: u32 = 0x75736572;

/// Item List - Apple metadata container  
/// /mnoov/udata/meta/ilst
pub const ILST: u32 = 0x696c7374;

/// Artist  
/// /moov/udata/meta/ilst/aart
pub const AART: u32 = 0x61617274;

/// Album Artist  
/// /moov/udata/meta/ilst/aART
pub const AARTC: u32 = 0x61415254;

/// Itunes ID ?  
/// /moov/udata/meta/ilst/akID
pub const AKID: u32 = 0x616b4944;

/// Apple Store Account ID  
/// /moov/udata/meta/ilst/aPID
pub const APID: u32 = 0x61704944;

/// Apple Store Album Title ID  
/// /moov/udata/meta/ilst/atID
pub const ATID: u32 = 0x61744944;

/// Category  
/// /moov/udata/meta/ilst/catg
pub const CATG: u32 = 0x63617467;

/// Cover Art  
/// /moov/udata/meta/ilst/covr
pub const COVR: u32 = 0x636f7672;

/// Apple Store Catalog ID  
/// /moov/udata/meta/ilst/cmID
pub const CNID: u32 = 0x636e4944;

/// Apple Store / ItunesID?  
/// /moov/udata/meta/ilst/cmID
pub const CMID: u32 = 0x636d4944;

/// Compilation boolean  
/// /moov/udata/meta/ilst/cpil
pub const CPIL: u32 = 0x6370696c;

/// Copyright  
/// /moov/udata/meta/ilst/cprt
pub const CPRT: u32 = 0x63707274;

/// Data box for ILST data  
/// /moov/udata/meta/ilist/<ilst-entry>/data
pub const DATA: u32 = 0x64617461;

/// Description  
/// /moov/udata/meta/ilist/<ilst-entry>/desc
pub const DESC: u32 = 0x64657363;

/// Disk number and total disks  
/// /moov/udata/meta/ilst/disk
pub const DISK: u32 = 0x6469736b;

/// Genre ID  
/// /moov/udata/meta/ilst/geID
pub const GEID: u32 = 0x67654944;

/// Genre  
/// /moov/udata/meta/ilst/gnre
pub const GNRE: u32 = 0x676e7265;

/// High Definition Video  
/// /moov/udata/meta/ilst/hdvd
pub const HDVD: u32 = 0x68647664;

/// Key Word  
/// /moov/udata/meta/ilst/keyw
pub const KEYW: u32 = 0x6b657977;

/// Long Description  
/// /moov/udata/meta/ilst/ldes
pub const LDES: u32 = 0x6c646573;

/// Owner  
/// /moov/udata/meta/ilst/ownr
pub const OWNR: u32 = 0x6f776e72;

/// Program Gap boolean  
/// /moov/udata/meta/ilst/pgap
pub const PGAP: u32 = 0x70676170;

/// Podcast  
/// /moov/udata/meta/ilst/pcst
pub const PCST: u32 = 0x70637374;

/// ITunes Playlist ID  
/// /moov/udata/meta/ilst/pcst
pub const PLID: u32 = 0x706c4944;

/// Purchase Date  
/// /moov/udata/meta/ilst/purd
pub const PURD: u32 = 0x70757264;

/// Rating  
/// /moov/udata/meta/ilst/rate
pub const RATE: u32 = 0x72617465;

/// Advisory  
/// /moov/udata/meta/ilst/rtng
pub const RTNG: u32 = 0x72746e67;

/// Apple Store / ITunes ID?  
/// /moov/udata/meta/ilst/sfID
pub const SFID: u32 = 0x73664944;

/// Sort Album Artist  
/// /moov/udata/meta/ilst/soaa
pub const SOAA: u32 = 0x736f6161;

/// Sort ALbum  
/// /moov/udata/meta/ilst/soal
pub const SOAL: u32 = 0x736f616c;

/// Sort Artist  
/// /moov/udata/meta/ilst/soar
pub const SOAR: u32 = 0x736f6172;

/// Sort Composer  
/// /moov/udata/meta/ilst/soco
pub const SOCO: u32 = 0x736f636f;

/// Sort Name  
/// /moov/udata/meta/ilst/sonm
pub const SONM: u32 = 0x736f6e6d;

/// Sort Show  
/// /moov/udata/meta/ilst/sosn
pub const SOSN: u32 = 0x736f736e;

/// Media Type  
/// /moov/udata/meta/ilst/stik
pub const STIK: u32 = 0x7374696b;

/// Tempo guide  
/// /moov/udata/meta/ilst/tmpo
pub const TMPO: u32 = 0x746d706f;

/// Track number and total tracks  
/// /moov/udata/meta/ilist/trkn
pub const TRKN: u32 = 0x74726b6e;

/// TV Episode Name  
/// /moov/udata/meta/ilist/tven
pub const TVEN: u32 = 0x7476656e;

/// TV Episode Number  
/// /moov/udata/meta/ilist/tves
pub const TVES: u32 = 0x74766573;

/// TV Network Name  
/// /moov/udata/meta/ilist/tvnn
pub const TVNN: u32 = 0x74766e6e;

/// TV Show Name  
/// /moov/udata/meta/ilist/tvsh
pub const TVSH: u32 = 0x74767368;

/// TV Show Number  
/// /moov/udata/meta/ilist/tvsn
pub const TVSN: u32 = 0x7476736e;

/// Vendor Id  
/// /moov/udata/meta/ilist/xid 
pub const XID: u32 = 0x78696420;

/// Album title  
/// /moov/udata/meta/ilst/\xa9alb
pub const XALB: u32 = 0xa9616c62;

/// Artist  
/// /moov/udata/meta/ilst/\xa9art
pub const XART: u32 = 0xa9617274;

/// Artist  
/// /moov/udata/meta/ilst/\xa9ART
pub const XARTC: u32 = 0xa9415254;

/// Comment  
/// /moov/udata/meta/ilist/\xa9cmt
pub const XCMT: u32 = 0xa9636d74;

/// Year  
/// /moov/udata/meta/ilist/\xa9day
pub const XDAY: u32 = 0xa9646179;

/// Genre  
/// /moov/udata/meta/ilist/\xa9gen
pub const XGEN: u32 = 0xa967656e;

/// Group  
/// /moov/udata/meta/ilist/\xa9grp
pub const XGRP: u32 = 0xa9677270;

/// Lyric  
/// /moov/udata/meta/ilist/\xa9lyr
pub const XLRY: u32 = 0xa96c7972;

/// Title/Name  
/// /moov/udata/meta/ilst/\xa9nam
pub const XNAM: u32 = 0xa96e616d;

/// Encoder  
/// /moov/udata/meta/ilst/\xa9too
pub const XTOO: u32 = 0xa9746f6f;

/// Writer/Author  
/// /moov/udata/meta/ilst/\xa9wrt
pub const XWRT: u32 = 0xa9777274;

/// Apple Special Item  
/// /moov/udata/meta/ilst/----
pub const ____: u32 = 0x2d2d2d2d;

/// Embeded in Special Item  
/// /moov/udata/meta/ilst/----/name
pub const NAME: u32 = 0x6e616d65;

/// Embedded in Special Item?  
/// /moov/udata/meta/ilst/----/mean
pub const MEAN: u32 = 0x6d65616e;


/// The entry of the table of known boxes for the four character code `id`.
pub open spec fn known_box(id: u32) -> Option<(ContainerType, bool)> {
    match id {
        0x66747970 => Some((ContainerType::NotContainer, false)),
        0x64696e66 => Some((ContainerType::Container, false)),
        0x64726566 => Some((ContainerType::NotContainer, true)),
        0x68646c72 => Some((ContainerType::NotContainer, true)),
        0x6c696e66 => Some((ContainerType::NotContainer, true)),
        0x6d657461 => Some((ContainerType::Container, true)),
        0x6d696e66 => Some((ContainerType::Container, false)),
        0x6d646864 => Some((ContainerType::NotContainer, true)),
        0x6d646961 => Some((ContainerType::Container, false)),
        0x6d6f6f76 => Some((ContainerType::Container, false)),
        0x6d766864 => Some((ContainerType::NotContainer, true)),
        0x736d6864 => Some((ContainerType::NotContainer, true)),
        0x746b6864 => Some((ContainerType::NotContainer, true)),
        0x7472616b => Some((ContainerType::Container, false)),
        0x75647461 => Some((ContainerType::Container, false)),
        0x55554944 => Some((ContainerType::NotContainer, false)),
        0x6d646174 => Some((ContainerType::NotContainer, false)),
        0x66726565 => Some((ContainerType::NotContainer, false)),
        0x7374626c => Some((ContainerType::Container, false)),
        0x63657274 => Some((ContainerType::NotContainer, false)),
        0x63687462 => Some((ContainerType::NotContainer, false)),
        0x64726d73 => Some((ContainerType::Special(28), false)),
        0x65736473 => Some((ContainerType::NotContainer, true)),
        0x66726d61 => Some((ContainerType::NotContainer, false)),
        0x6d703461 => Some((ContainerType::Special(28), false)),
        0x70696e66 => Some((ContainerType::Container, false)),
        0x72696768 => Some((ContainerType::NotContainer, false)),
        0x73627464 => Some((ContainerType::NotContainer, true)),
        0x73636869 => Some((ContainerType::Container, false)),
        0x7363686d => Some((ContainerType::NotContainer, true)),
        0x7369676e => Some((ContainerType::NotContainer, false)),
        0x73696e66 => Some((ContainerType::Container, false)),
        0x7374636f => Some((ContainerType::NotContainer, true)),
        0x73747363 => Some((ContainerType::NotContainer, true)),
        0x73747364 => Some((ContainerType::Special(4), true)),
        0x73747473 => Some((ContainerType::NotContainer, true)),
        0x7374737a => Some((ContainerType::NotContainer, true)),
        0x75736572 => Some((ContainerType::NotContainer, false)),
        0x696c7374 => Some((ContainerType::Container, false)),
        0x61617274 => Some((ContainerType::Container, false)),
        0x61415254 => Some((ContainerType::Container, false)),
        0x616b4944 => Some((ContainerType::Container, false)),
        0x61704944 => Some((ContainerType::Container, false)),
        0x61744944 => Some((ContainerType::Container, false)),
        0x63617467 => Some((ContainerType::Container, false)),
        0x636f7672 => Some((ContainerType::Container, false)),
        0x636e4944 => Some((ContainerType::Container, false)),
        0x636d4944 => Some((ContainerType::Container, false)),
        0x6370696c => Some((ContainerType::Container, false)),
        0x63707274 => Some((ContainerType::Container, false)),
        0x64617461 => Some((ContainerType::NotContainer, true)),
        0x64657363 => Some((ContainerType::NotContainer, true)),
        0x6469736b => Some((ContainerType::Container, false)),
        0x67654944 => Some((ContainerType::Container, false)),
        0x676e7265 => Some((ContainerType::Container, false)),
        0x68647664 => Some((ContainerType::Container, false)),
        0x6b657977 => Some((ContainerType::Container, false)),
        0x6c646573 => Some((ContainerType::Container, false)),
        0x6f776e72 => Some((ContainerType::Container, false)),
        0x70676170 => Some((ContainerType::Container, false)),
        0x70637374 => Some((ContainerType::Container, false)),
        0x706c4944 => Some((ContainerType::Container, false)),
        0x70757264 => Some((ContainerType::Container, false)),
        0x72617465 => Some((ContainerType::Container, false)),
        0x72746e67 => Some((ContainerType::Container, false)),
        0x73664944 => Some((ContainerType::Container, false)),
        0x736f6161 => Some((ContainerType::Container, false)),
        0x736f616c => Some((ContainerType::Container, false)),
        0x736f6172 => Some((ContainerType::Container, false)),
        0x736f636f => Some((ContainerType::Container, false)),
        0x736f6e6d => Some((ContainerType::Container, false)),
        0x736f736e => Some((ContainerType::Container, false)),
        0x7374696b => Some((ContainerType::Container, false)),
        0x746d706f => Some((ContainerType::Container, false)),
        0x74726b6e => Some((ContainerType::Container, false)),
        0x7476656e => Some((ContainerType::Container, false)),
        0x74766573 => Some((ContainerType::Container, false)),
        0x74766e6e => Some((ContainerType::Container, false)),
        0x74767368 => Some((ContainerType::Container, false)),
        0x7476736e => Some((ContainerType::Container, false)),
        0x78696420 => Some((ContainerType::Container, false)),
        0xa9616c62 => Some((ContainerType::Container, false)),
        0xa9617274 => Some((ContainerType::Container, false)),
        0xa9415254 => Some((ContainerType::Container, false)),
        0xa9636d74 => Some((ContainerType::Container, false)),
        0xa9646179 => Some((ContainerType::Container, false)),
        0xa967656e => Some((ContainerType::Container, false)),
        0xa9677270 => Some((ContainerType::Container, false)),
        0xa96c7972 => Some((ContainerType::Container, false)),
        0xa96e616d => Some((ContainerType::Container, false)),
        0xa9746f6f => Some((ContainerType::Container, false)),
        0xa9777274 => Some((ContainerType::Container, false)),
        0x2d2d2d2d => Some((ContainerType::Container, false)),
        0x6e616d65 => Some((ContainerType::NotContainer, true)),
        0x6d65616e => Some((ContainerType::NotContainer, true)),
        _ => None,
    }
}

/// The description of the box with four character code `id` given by the table
/// ("Unknown" for a code that is not in the table).
pub open spec fn box_description(id: u32) -> Seq<char> {
    match id {
        0x66747970 => "File Container"@,
        0x64696e66 => "Data Container"@,
        0x64726566 => "Data Reference - sources of media"@,
        0x68646c72 => "Handler - general data handler"@,
        0x6c696e66 => "UDTA Information Block"@,
        0x6d657461 => "Metadata Container"@,
        0x6d696e66 => "Media Information Container"@,
        0x6d646864 => "Media Data Header"@,
        0x6d646961 => "Media Container"@,
        0x6d6f6f76 => "Top Movie Meta Data Container"@,
        0x6d766864 => "Movie Box Header"@,
        0x736d6864 => "Sound Media Header"@,
        0x746b6864 => "Track Header"@,
        0x7472616b => "Track Container"@,
        0x75647461 => "User Data Container"@,
        0x55554944 => "UUID is the user special type"@,
        0x6d646174 => "Media Data Box"@,
        0x66726565 => "Free Space"@,
        0x7374626c => "Sample Table Box Container"@,
        0x63657274 => "Protection information CERT"@,
        0x63687462 => "Protection information CHTB"@,
        0x64726d73 => "Digital Rights Management"@,
        0x65736473 => "Elementary Stream Descriptor"@,
        0x66726d61 => "Original Format Box"@,
        0x6d703461 => "MPEG 4 Audio SampleEntry Box"@,
        0x70696e66 => "Protection Information Box"@,
        0x72696768 => "Protection information Rights"@,
        0x73627464 => "Protection Information SBTD"@,
        0x73636869 => "Protection Information Container"@,
        0x7363686d => "Protection Sceheme Informaiton Box"@,
        0x7369676e => "Protection Scheme Information Box"@,
        0x73696e66 => "Protection Scheme Information Box"@,
        0x7374636f => "Chunk Offsets"@,
        0x73747363 => "Sample to Chunk"@,
        0x73747364 => "Sample Description"@,
        0x73747473 => "Time to sample"@,
        0x7374737a => "Sample Sizes"@,
        0x75736572 => "Sample Sizes"@,
        0x696c7374 => "Item List - Apple metadata container"@,
        0x61617274 => "Artist"@,
        0x61415254 => "Album Artist"@,
        0x616b4944 => "Itunes ID ?"@,
        0x61704944 => "Apple Store Account ID"@,
        0x61744944 => "Apple Store Album Title ID"@,
        0x63617467 => "Category"@,
        0x636f7672 => "Cover Art"@,
        0x636e4944 => "Apple Store Catalog ID"@,
        0x636d4944 => "Apple Store / ItunesID?"@,
        0x6370696c => "Compilation boolean"@,
        0x63707274 => "Copyright"@,
        0x64617461 => "Data box for ILST data"@,
        0x64657363 => "Description"@,
        0x6469736b => "Disk number and total disks"@,
        0x67654944 => "Genre ID"@,
        0x676e7265 => "Genre"@,
        0x68647664 => "High Definition Video"@,
        0x6b657977 => "Key Word"@,
        0x6c646573 => "Long Description"@,
        0x6f776e72 => "Owner"@,
        0x70676170 => "Program Gap boolean"@,
        0x70637374 => "Podcast"@,
        0x706c4944 => "ITunes Playlist ID"@,
        0x70757264 => "Purchase Date"@,
        0x72617465 => "Rating"@,
        0x72746e67 => "Advisory"@,
        0x73664944 => "Apple Store / ITunes ID?"@,
        0x736f6161 => "Sort Album Artist"@,
        0x736f616c => "Sort ALbum"@,
        0x736f6172 => "Sort Artist"@,
        0x736f636f => "Sort Composer"@,
        0x736f6e6d => "Sort Name"@,
        0x736f736e => "Sort Show"@,
        0x7374696b => "Media Type"@,
        0x746d706f => "Tempo guide"@,
        0x74726b6e => "Track number and total tracks"@,
        0x7476656e => "TV Episode Name"@,
        0x74766573 => "TV Episode Number"@,
        0x74766e6e => "TV Network Name"@,
        0x74767368 => "TV Show Name"@,
        0x7476736e => "TV Show Number"@,
        0x78696420 => "Vendor Id"@,
        0xa9616c62 => "Album title"@,
        0xa9617274 => "Artist"@,
        0xa9415254 => "Artist"@,
        0xa9636d74 => "Comment"@,
        0xa9646179 => "Year"@,
        0xa967656e => "Genre"@,
        0xa9677270 => "Group"@,
        0xa96c7972 => "Lyric"@,
        0xa96e616d => "Title/Name"@,
        0xa9746f6f => "Encoder"@,
        0xa9777274 => "Writer/Author"@,
        0x2d2d2d2d => "Apple Special Item"@,
        0x6e616d65 => "Embeded in Special Item"@,
        0x6d65616e => "Embedded in Special Item?"@,
        _ => "Unknown"@,
    }
}

/// The box type that a four character code stands for: the table's entry for a
/// known code, otherwise an unknown box that is neither a container nor full.
pub open spec fn box_type_of(id: u32) -> BoxType {
    match known_box(id) {
        Some((c, f)) => BoxType::Known(BoxSpec { bt_id: id, container: c, full: f }),
        None => BoxType::Unknown(
            BoxSpec { bt_id: id, container: ContainerType::NotContainer, full: false },
        ),
    }
}

/// Looks `id` up in the table of known boxes.
fn lookup(id: u32) -> (r: Option<(ContainerType, bool)>)
    ensures
        r == known_box(id),
{
    match id {
        0x66747970 => Some((ContainerType::NotContainer, false)),
        0x64696e66 => Some((ContainerType::Container, false)),
        0x64726566 => Some((ContainerType::NotContainer, true)),
        0x68646c72 => Some((ContainerType::NotContainer, true)),
        0x6c696e66 => Some((ContainerType::NotContainer, true)),
        0x6d657461 => Some((ContainerType::Container, true)),
        0x6d696e66 => Some((ContainerType::Container, false)),
        0x6d646864 => Some((ContainerType::NotContainer, true)),
        0x6d646961 => Some((ContainerType::Container, false)),
        0x6d6f6f76 => Some((ContainerType::Container, false)),
        0x6d766864 => Some((ContainerType::NotContainer, true)),
        0x736d6864 => Some((ContainerType::NotContainer, true)),
        0x746b6864 => Some((ContainerType::NotContainer, true)),
        0x7472616b => Some((ContainerType::Container, false)),
        0x75647461 => Some((ContainerType::Container, false)),
        0x55554944 => Some((ContainerType::NotContainer, false)),
        0x6d646174 => Some((ContainerType::NotContainer, false)),
        0x66726565 => Some((ContainerType::NotContainer, false)),
        0x7374626c => Some((ContainerType::Container, false)),
        0x63657274 => Some((ContainerType::NotContainer, false)),
        0x63687462 => Some((ContainerType::NotContainer, false)),
        0x64726d73 => Some((ContainerType::Special(28), false)),
        0x65736473 => Some((ContainerType::NotContainer, true)),
        0x66726d61 => Some((ContainerType::NotContainer, false)),
        0x6d703461 => Some((ContainerType::Special(28), false)),
        0x70696e66 => Some((ContainerType::Container, false)),
        0x72696768 => Some((ContainerType::NotContainer, false)),
        0x73627464 => Some((ContainerType::NotContainer, true)),
        0x73636869 => Some((ContainerType::Container, false)),
        0x7363686d => Some((ContainerType::NotContainer, true)),
        0x7369676e => Some((ContainerType::NotContainer, false)),
        0x73696e66 => Some((ContainerType::Container, false)),
        0x7374636f => Some((ContainerType::NotContainer, true)),
        0x73747363 => Some((ContainerType::NotContainer, true)),
        0x73747364 => Some((ContainerType::Special(4), true)),
        0x73747473 => Some((ContainerType::NotContainer, true)),
        0x7374737a => Some((ContainerType::NotContainer, true)),
        0x75736572 => Some((ContainerType::NotContainer, false)),
        0x696c7374 => Some((ContainerType::Container, false)),
        0x61617274 => Some((ContainerType::Container, false)),
        0x61415254 => Some((ContainerType::Container, false)),
        0x616b4944 => Some((ContainerType::Container, false)),
        0x61704944 => Some((ContainerType::Container, false)),
        0x61744944 => Some((ContainerType::Container, false)),
        0x63617467 => Some((ContainerType::Container, false)),
        0x636f7672 => Some((ContainerType::Container, false)),
        0x636e4944 => Some((ContainerType::Container, false)),
        0x636d4944 => Some((ContainerType::Container, false)),
        0x6370696c => Some((ContainerType::Container, false)),
        0x63707274 => Some((ContainerType::Container, false)),
        0x64617461 => Some((ContainerType::NotContainer, true)),
        0x64657363 => Some((ContainerType::NotContainer, true)),
        0x6469736b => Some((ContainerType::Container, false)),
        0x67654944 => Some((ContainerType::Container, false)),
        0x676e7265 => Some((ContainerType::Container, false)),
        0x68647664 => Some((ContainerType::Container, false)),
        0x6b657977 => Some((ContainerType::Container, false)),
        0x6c646573 => Some((ContainerType::Container, false)),
        0x6f776e72 => Some((ContainerType::Container, false)),
        0x70676170 => Some((ContainerType::Container, false)),
        0x70637374 => Some((ContainerType::Container, false)),
        0x706c4944 => Some((ContainerType::Container, false)),
        0x70757264 => Some((ContainerType::Container, false)),
        0x72617465 => Some((ContainerType::Container, false)),
        0x72746e67 => Some((ContainerType::Container, false)),
        0x73664944 => Some((ContainerType::Container, false)),
        0x736f6161 => Some((ContainerType::Container, false)),
        0x736f616c => Some((ContainerType::Container, false)),
        0x736f6172 => Some((ContainerType::Container, false)),
        0x736f636f => Some((ContainerType::Container, false)),
        0x736f6e6d => Some((ContainerType::Container, false)),
        0x736f736e => Some((ContainerType::Container, false)),
        0x7374696b => Some((ContainerType::Container, false)),
        0x746d706f => Some((ContainerType::Container, false)),
        0x74726b6e => Some((ContainerType::Container, false)),
        0x7476656e => Some((ContainerType::Container, false)),
        0x74766573 => Some((ContainerType::Container, false)),
        0x74766e6e => Some((ContainerType::Container, false)),
        0x74767368 => Some((ContainerType::Container, false)),
        0x7476736e => Some((ContainerType::Container, false)),
        0x78696420 => Some((ContainerType::Container, false)),
        0xa9616c62 => Some((ContainerType::Container, false)),
        0xa9617274 => Some((ContainerType::Container, false)),
        0xa9415254 => Some((ContainerType::Container, false)),
        0xa9636d74 => Some((ContainerType::Container, false)),
        0xa9646179 => Some((ContainerType::Container, false)),
        0xa967656e => Some((ContainerType::Container, false)),
        0xa9677270 => Some((ContainerType::Container, false)),
        0xa96c7972 => Some((ContainerType::Container, false)),
        0xa96e616d => Some((ContainerType::Container, false)),
        0xa9746f6f => Some((ContainerType::Container, false)),
        0xa9777274 => Some((ContainerType::Container, false)),
        0x2d2d2d2d => Some((ContainerType::Container, false)),
        0x6e616d65 => Some((ContainerType::NotContainer, true)),
        0x6d65616e => Some((ContainerType::NotContainer, true)),
        _ => None,
    }
}

/// The table's description for `id`.
fn lookup_description(id: u32) -> (r: &'static str)
    ensures
        r@ == box_description(id),
{
    match id {
        0x66747970 => "File Container",
        0x64696e66 => "Data Container",
        0x64726566 => "Data Reference - sources of media",
        0x68646c72 => "Handler - general data handler",
        0x6c696e66 => "UDTA Information Block",
        0x6d657461 => "Metadata Container",
        0x6d696e66 => "Media Information Container",
        0x6d646864 => "Media Data Header",
        0x6d646961 => "Media Container",
        0x6d6f6f76 => "Top Movie Meta Data Container",
        0x6d766864 => "Movie Box Header",
        0x736d6864 => "Sound Media Header",
        0x746b6864 => "Track Header",
        0x7472616b => "Track Container",
        0x75647461 => "User Data Container",
        0x55554944 => "UUID is the user special type",
        0x6d646174 => "Media Data Box",
        0x66726565 => "Free Space",
        0x7374626c => "Sample Table Box Container",
        0x63657274 => "Protection information CERT",
        0x63687462 => "Protection information CHTB",
        0x64726d73 => "Digital Rights Management",
        0x65736473 => "Elementary Stream Descriptor",
        0x66726d61 => "Original Format Box",
        0x6d703461 => "MPEG 4 Audio SampleEntry Box",
        0x70696e66 => "Protection Information Box",
        0x72696768 => "Protection information Rights",
        0x73627464 => "Protection Information SBTD",
        0x73636869 => "Protection Information Container",
        0x7363686d => "Protection Sceheme Informaiton Box",
        0x7369676e => "Protection Scheme Information Box",
        0x73696e66 => "Protection Scheme Information Box",
        0x7374636f => "Chunk Offsets",
        0x73747363 => "Sample to Chunk",
        0x73747364 => "Sample Description",
        0x73747473 => "Time to sample",
        0x7374737a => "Sample Sizes",
        0x75736572 => "Sample Sizes",
        0x696c7374 => "Item List - Apple metadata container",
        0x61617274 => "Artist",
        0x61415254 => "Album Artist",
        0x616b4944 => "Itunes ID ?",
        0x61704944 => "Apple Store Account ID",
        0x61744944 => "Apple Store Album Title ID",
        0x63617467 => "Category",
        0x636f7672 => "Cover Art",
        0x636e4944 => "Apple Store Catalog ID",
        0x636d4944 => "Apple Store / ItunesID?",
        0x6370696c => "Compilation boolean",
        0x63707274 => "Copyright",
        0x64617461 => "Data box for ILST data",
        0x64657363 => "Description",
        0x6469736b => "Disk number and total disks",
        0x67654944 => "Genre ID",
        0x676e7265 => "Genre",
        0x68647664 => "High Definition Video",
        0x6b657977 => "Key Word",
        0x6c646573 => "Long Description",
        0x6f776e72 => "Owner",
        0x70676170 => "Program Gap boolean",
        0x70637374 => "Podcast",
        0x706c4944 => "ITunes Playlist ID",
        0x70757264 => "Purchase Date",
        0x72617465 => "Rating",
        0x72746e67 => "Advisory",
        0x73664944 => "Apple Store / ITunes ID?",
        0x736f6161 => "Sort Album Artist",
        0x736f616c => "Sort ALbum",
        0x736f6172 => "Sort Artist",
        0x736f636f => "Sort Composer",
        0x736f6e6d => "Sort Name",
        0x736f736e => "Sort Show",
        0x7374696b => "Media Type",
        0x746d706f => "Tempo guide",
        0x74726b6e => "Track number and total tracks",
        0x7476656e => "TV Episode Name",
        0x74766573 => "TV Episode Number",
        0x74766e6e => "TV Network Name",
        0x74767368 => "TV Show Name",
        0x7476736e => "TV Show Number",
        0x78696420 => "Vendor Id",
        0xa9616c62 => "Album title",
        0xa9617274 => "Artist",
        0xa9415254 => "Artist",
        0xa9636d74 => "Comment",
        0xa9646179 => "Year",
        0xa967656e => "Genre",
        0xa9677270 => "Group",
        0xa96c7972 => "Lyric",
        0xa96e616d => "Title/Name",
        0xa9746f6f => "Encoder",
        0xa9777274 => "Writer/Author",
        0x2d2d2d2d => "Apple Special Item",
        0x6e616d65 => "Embeded in Special Item",
        0x6d65616e => "Embedded in Special Item?",
        _ => "Unknown",
    }
}

/// The name of the box with four character code `id` in the table of known
/// boxes ("Unknown" for a code that is not in the table).
pub open spec fn box_name(id: u32) -> Seq<char> {
    match id {
        0x66747970 => "FTYP"@,
        0x64696e66 => "DINF"@,
        0x64726566 => "DREF"@,
        0x68646c72 => "HDLR"@,
        0x6c696e66 => "LINF"@,
        0x6d657461 => "META"@,
        0x6d696e66 => "MINF"@,
        0x6d646864 => "MDHD"@,
        0x6d646961 => "MDIA"@,
        0x6d6f6f76 => "MOOV"@,
        0x6d766864 => "MVHD"@,
        0x736d6864 => "SMHD"@,
        0x746b6864 => "TKHD"@,
        0x7472616b => "TRAK"@,
        0x75647461 => "UDTA"@,
        0x55554944 => "UUID"@,
        0x6d646174 => "MDAT"@,
        0x66726565 => "FREE"@,
        0x7374626c => "STBL"@,
        0x63657274 => "CERT"@,
        0x63687462 => "CHTB"@,
        0x64726d73 => "DRMS"@,
        0x65736473 => "ESDS"@,
        0x66726d61 => "FRMA"@,
        0x6d703461 => "MP4A"@,
        0x70696e66 => "PINF"@,
        0x72696768 => "RIGH"@,
        0x73627464 => "SBTD"@,
        0x73636869 => "SCHI"@,
        0x7363686d => "SCHM"@,
        0x7369676e => "SIGN"@,
        0x73696e66 => "SINF"@,
        0x7374636f => "STCO"@,
        0x73747363 => "STSC"@,
        0x73747364 => "STSD"@,
        0x73747473 => "STTS"@,
        0x7374737a => "STSZ"@,
        0x75736572 => "USER"@,
        0x696c7374 => "ILST"@,
        0x61617274 => "AART"@,
        0x61415254 => "AARTC"@,
        0x616b4944 => "AKID"@,
        0x61704944 => "APID"@,
        0x61744944 => "ATID"@,
        0x63617467 => "CATG"@,
        0x636f7672 => "COVR"@,
        0x636e4944 => "CNID"@,
        0x636d4944 => "CMID"@,
        0x6370696c => "CPIL"@,
        0x63707274 => "CPRT"@,
        0x64617461 => "DATA"@,
        0x64657363 => "DESC"@,
        0x6469736b => "DISK"@,
        0x67654944 => "GEID"@,
        0x676e7265 => "GNRE"@,
        0x68647664 => "HDVD"@,
        0x6b657977 => "KEYW"@,
        0x6c646573 => "LDES"@,
        0x6f776e72 => "OWNR"@,
        0x70676170 => "PGAP"@,
        0x70637374 => "PCST"@,
        0x706c4944 => "PLID"@,
        0x70757264 => "PURD"@,
        0x72617465 => "RATE"@,
        0x72746e67 => "RTNG"@,
        0x73664944 => "SFID"@,
        0x736f6161 => "SOAA"@,
        0x736f616c => "SOAL"@,
        0x736f6172 => "SOAR"@,
        0x736f636f => "SOCO"@,
        0x736f6e6d => "SONM"@,
        0x736f736e => "SOSN"@,
        0x7374696b => "STIK"@,
        0x746d706f => "TMPO"@,
        0x74726b6e => "TRKN"@,
        0x7476656e => "TVEN"@,
        0x74766573 => "TVES"@,
        0x74766e6e => "TVNN"@,
        0x74767368 => "TVSH"@,
        0x7476736e => "TVSN"@,
        0x78696420 => "XID"@,
        0xa9616c62 => "XALB"@,
        0xa9617274 => "XART"@,
        0xa9415254 => "XARTC"@,
        0xa9636d74 => "XCMT"@,
        0xa9646179 => "XDAY"@,
        0xa967656e => "XGEN"@,
        0xa9677270 => "XGRP"@,
        0xa96c7972 => "XLRY"@,
        0xa96e616d => "XNAM"@,
        0xa9746f6f => "XTOO"@,
        0xa9777274 => "XWRT"@,
        0x2d2d2d2d => "____"@,
        0x6e616d65 => "NAME"@,
        0x6d65616e => "MEAN"@,
        _ => "Unknown"@,
    }
}

/// The table's name for `id`.
fn lookup_name(id: u32) -> (r: &'static str)
    ensures
        r@ == box_name(id),
{
    match id {
        0x66747970 => "FTYP",
        0x64696e66 => "DINF",
        0x64726566 => "DREF",
        0x68646c72 => "HDLR",
        0x6c696e66 => "LINF",
        0x6d657461 => "META",
        0x6d696e66 => "MINF",
        0x6d646864 => "MDHD",
        0x6d646961 => "MDIA",
        0x6d6f6f76 => "MOOV",
        0x6d766864 => "MVHD",
        0x736d6864 => "SMHD",
        0x746b6864 => "TKHD",
        0x7472616b => "TRAK",
        0x75647461 => "UDTA",
        0x55554944 => "UUID",
        0x6d646174 => "MDAT",
        0x66726565 => "FREE",
        0x7374626c => "STBL",
        0x63657274 => "CERT",
        0x63687462 => "CHTB",
        0x64726d73 => "DRMS",
        0x65736473 => "ESDS",
        0x66726d61 => "FRMA",
        0x6d703461 => "MP4A",
        0x70696e66 => "PINF",
        0x72696768 => "RIGH",
        0x73627464 => "SBTD",
        0x73636869 => "SCHI",
        0x7363686d => "SCHM",
        0x7369676e => "SIGN",
        0x73696e66 => "SINF",
        0x7374636f => "STCO",
        0x73747363 => "STSC",
        0x73747364 => "STSD",
        0x73747473 => "STTS",
        0x7374737a => "STSZ",
        0x75736572 => "USER",
        0x696c7374 => "ILST",
        0x61617274 => "AART",
        0x61415254 => "AARTC",
        0x616b4944 => "AKID",
        0x61704944 => "APID",
        0x61744944 => "ATID",
        0x63617467 => "CATG",
        0x636f7672 => "COVR",
        0x636e4944 => "CNID",
        0x636d4944 => "CMID",
        0x6370696c => "CPIL",
        0x63707274 => "CPRT",
        0x64617461 => "DATA",
        0x64657363 => "DESC",
        0x6469736b => "DISK",
        0x67654944 => "GEID",
        0x676e7265 => "GNRE",
        0x68647664 => "HDVD",
        0x6b657977 => "KEYW",
        0x6c646573 => "LDES",
        0x6f776e72 => "OWNR",
        0x70676170 => "PGAP",
        0x70637374 => "PCST",
        0x706c4944 => "PLID",
        0x70757264 => "PURD",
        0x72617465 => "RATE",
        0x72746e67 => "RTNG",
        0x73664944 => "SFID",
        0x736f6161 => "SOAA",
        0x736f616c => "SOAL",
        0x736f6172 => "SOAR",
        0x736f636f => "SOCO",
        0x736f6e6d => "SONM",
        0x736f736e => "SOSN",
        0x7374696b => "STIK",
        0x746d706f => "TMPO",
        0x74726b6e => "TRKN",
        0x7476656e => "TVEN",
        0x74766573 => "TVES",
        0x74766e6e => "TVNN",
        0x74767368 => "TVSH",
        0x7476736e => "TVSN",
        0x78696420 => "XID",
        0xa9616c62 => "XALB",
        0xa9617274 => "XART",
        0xa9415254 => "XARTC",
        0xa9636d74 => "XCMT",
        0xa9646179 => "XDAY",
        0xa967656e => "XGEN",
        0xa9677270 => "XGRP",
        0xa96c7972 => "XLRY",
        0xa96e616d => "XNAM",
        0xa9746f6f => "XTOO",
        0xa9777274 => "XWRT",
        0x2d2d2d2d => "____",
        0x6e616d65 => "NAME",
        0x6d65616e => "MEAN",
        _ => "Unknown",
    }
}

/// The number of header bytes of a box with this spec: 8 for a simple box
/// (size and four character code), 12 for a full box (plus version and flags).
pub open spec fn header_size_of(s: BoxSpec) -> nat {
    if s.full {
        FULL_BOX_HEADER_SIZE as nat
    } else {
        BOX_HEADER_SIZE as nat
    }
}

/// The four bytes of `id`, most significant first.
pub open spec fn be_bytes(id: u32) -> Seq<u8> {
    seq![
        (id / 0x100_0000) as u8,
        ((id / 0x1_0000) % 256) as u8,
        ((id / 256) % 256) as u8,
        (id % 256) as u8,
    ]
}

/// How a four character code is shown: the code itself when its bytes are
/// UTF-8; the four bytes each taken as a character when the first one is the
/// copyright sign (0xA9) of Apple's metadata codes; otherwise the decimal value.
pub open spec fn four_cc_text(id: u32) -> Seq<char> {
    let b = be_bytes(id);
    if valid_utf8(b) {
        decode_utf8(b)
    } else if b[0] == 0xa9 {
        seq![b[0] as char, b[1] as char, b[2] as char, b[3] as char]
    } else {
        decimal(id as nat)
    }
}

/// Display a u32 as 4 byte character codes, taking into account
/// the displayable copyright sign we expect, and showing the number
/// for anything else that is not UTF-8.
pub struct FourCC(pub u32);

impl FourCC {
    /// The displayed form of the code (see `four_cc_text`).
    pub fn to_string(&self) -> (r: String)
        ensures
            r@ == four_cc_text(self.0),
    {
        let id = self.0;
        let b: Vec<u8> = vec![
            (id / 0x100_0000) as u8,
            ((id / 0x1_0000) % 256) as u8,
            ((id / 256) % 256) as u8,
            (id % 256) as u8,
        ];
        assert(b@ =~= be_bytes(id));
        match crate::text::utf8_to_string(b.as_slice()) {
            Some(s) => {
                proof {
                    vstd::utf8::encode_utf8_decode_utf8(s@);
                }
                s
            },
            None => {
                if b[0] == 0xa9 {
                    let v: Vec<char> = vec![b[0] as char, b[1] as char, b[2] as char, b[3] as char];
                    assert(v@ =~= four_cc_text(id));
                    chars_to_string(v.as_slice())
                } else {
                    let v = decimal_chars(id as u64);
                    chars_to_string(v.as_slice())
                }
            },
        }
    }
}

/// How a box spec is shown: the four character code, the code in hex, whether
/// the box is full or simple, and what kind of container it is.
pub open spec fn spec_text(s: BoxSpec) -> Seq<char> {
    let fb = if s.full { "Full Box"@ } else { "Simple Box"@ };
    let cntr = match s.container {
        ContainerType::Container => " Container"@,
        ContainerType::Special(k) => " Special Container ["@ + decimal(k as nat) + "]"@,
        ContainerType::NotContainer => ""@,
    };
    four_cc_text(s.bt_id) + "["@ + hex(s.bt_id as nat) + "] "@ + fb + cntr
}

/// How a box type is shown: its name from the table ("Unknown" for an
/// unknown box) with its spec in parentheses.
pub open spec fn box_type_text(t: BoxType) -> Seq<char> {
    let name = match t {
        BoxType::Known(s) => box_name(s.bt_id),
        BoxType::Unknown(_) => "Unknown"@,
    };
    name + "("@ + spec_text(t.box_spec()) + ")"@
}

impl BoxSpec {
    /// The spec as shown (see `spec_text`).
    pub fn debug_text(&self) -> (r: String)
        ensures
            r@ == spec_text(*self),
    {
        let mut out: Vec<char> = Vec::new();
        let cc = FourCC(self.bt_id).to_string();
        push_str(&mut out, cc.as_str());
        push_str(&mut out, "[");
        push_hex(&mut out, self.bt_id as u64);
        push_str(&mut out, "] ");
        if self.full {
            push_str(&mut out, "Full Box");
        } else {
            push_str(&mut out, "Simple Box");
        }
        match self.container {
            ContainerType::Container => push_str(&mut out, " Container"),
            ContainerType::Special(k) => {
                push_str(&mut out, " Special Container [");
                push_decimal(&mut out, k as u64);
                push_str(&mut out, "]");
            },
            ContainerType::NotContainer => {},
        }
        proof {
            reveal_strlit("[");
            reveal_strlit("] ");
            reveal_strlit("Full Box");
            reveal_strlit("Simple Box");
            reveal_strlit(" Container");
            reveal_strlit(" Special Container [");
            reveal_strlit("]");
            reveal_strlit("");
        }
        assert(out@ =~= spec_text(*self));
        chars_to_string(out.as_slice())
    }
}

impl BoxType {
    /// The `BoxSpec` carried by this box type.
    pub open spec fn box_spec(self) -> BoxSpec {
        match self {
            BoxType::Known(s) => s,
            BoxType::Unknown(s) => s,
        }
    }

    /// The `BoxSpec` for this `BoxType`.
    pub fn spec(&self) -> (r: &BoxSpec)
        ensures
            *r == self.box_spec(),
    {
        match self {
            BoxType::Known(s) => s,
            BoxType::Unknown(s) => s,
        }
    }

    /// Determines if this BoxType references a container or not.
    pub fn is_container(&self) -> (r: bool)
        ensures
            r == (self.box_spec().container != ContainerType::NotContainer),
    {
        match self.spec().container {
            ContainerType::NotContainer => false,
            _ => true,
        }
    }

    /// Determines if this BoxType is a full box (has version and flags).
    pub fn is_full(&self) -> (r: bool)
        ensures
            r == self.box_spec().full,
    {
        self.spec().full
    }

    /// The size of the header associated with the box in bytes.
    /// For a simple box this is: 8 bytes = SIZE (4 bytes) + Four Character Code (4 bytes).
    /// For a full box this is 12 bytes: Simple Box (8 bytes) + Version/Flags (4 bytes).
    pub fn header_size(&self) -> (r: usize)
        ensures
            r == header_size_of(self.box_spec()),
    {
        if self.spec().full {
            FULL_BOX_HEADER_SIZE
        } else {
            BOX_HEADER_SIZE
        }
    }

    /// The four character code as a big-endian `u32`.
    pub fn value(&self) -> (r: u32)
        ensures
            r == self.box_spec().bt_id,
    {
        self.spec().bt_id
    }

    /// The box type for the four character code `t` (read as a big-endian `u32`).
    pub fn ref_from(t: u32) -> (r: BoxType)
        ensures
            r == box_type_of(t),
    {
        match lookup(t) {
            Some((c, f)) => BoxType::Known(BoxSpec { bt_id: t, container: c, full: f }),
            None => BoxType::Unknown(
                BoxSpec { bt_id: t, container: ContainerType::NotContainer, full: false },
            ),
        }
    }

    /// The four character code of this box, as displayed.
    pub fn four_cc(&self) -> (r: String)
        ensures
            r@ == four_cc_text(self.box_spec().bt_id),
    {
        FourCC(self.value()).to_string()
    }

    /// The box type as shown (see `box_type_text`).
    pub fn debug_text(&self) -> (r: String)
        ensures
            r@ == box_type_text(*self),
    {
        let mut out: Vec<char> = Vec::new();
        let name = match self {
            BoxType::Known(s) => lookup_name(s.bt_id),
            BoxType::Unknown(_) => "Unknown",
        };
        push_str(&mut out, name);
        push_str(&mut out, "(");
        let st = self.spec().debug_text();
        push_str(&mut out, st.as_str());
        push_str(&mut out, ")");
        proof {
            reveal_strlit("Unknown");
            reveal_strlit("(");
            reveal_strlit(")");
        }
        assert(out@ =~= box_type_text(*self));
        chars_to_string(out.as_slice())
    }

    /// The text description of the box contents, from the table of known boxes.
    pub fn description(&self) -> (r: &'static str)
        ensures
            r@ == (match self {
                BoxType::Known(s) => box_description(s.bt_id),
                BoxType::Unknown(_) => "Unknown"@,
            }),
    {
        match self {
            BoxType::Known(s) => lookup_description(s.bt_id),
            BoxType::Unknown(_) => "Unknown",
        }
    }
}

impl From<u32> for BoxType {
    fn from(t: u32) -> (r: BoxType) {
        BoxType::ref_from(t)
    }
}

impl vstd::std_specs::convert::FromSpecImpl<u32> for BoxType {
    open spec fn obeys_from_spec() -> bool {
        true
    }

    open spec fn from_spec(t: u32) -> BoxType {
        box_type_of(t)
    }
}

} // verus!
