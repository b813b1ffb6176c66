use lt::file::{identify, FileFormat};
use lt::mpeg4::boxes::box_types::{BoxType, FourCC, DATA, FTYP, ILST, MOOV, TKHD, TRAK, TRKN};
use lt::mpeg4::boxes::ilst::{get_data_box, DataBoxContent};
use lt::mpeg4::boxes::mdia::get_mdhd;
use lt::mpeg4::boxes::stbl::{read_esds, read_mp4a, read_schm, EsdsFields};
use lt::mpeg4::formats::{AudioObjectTypes, ChannelConfig};
use lt::mpeg4::boxes::{get_ftyp_box_values, get_version_flags, read_box_header, MP4Buffer};
use lt::mpeg4::find::find_box;
use lt::mpeg4::util::LevelStack;
use lt::mpeg4::{self, Mpeg4};
use lt::track::{CodecFormat, FormatMetadata, UNIX_EPOCH_1904};

fn bx(typ: &[u8; 4], payload: &[u8]) -> Vec<u8> {
    let size = (8 + payload.len()) as u32;
    let mut v = size.to_be_bytes().to_vec();
    v.extend_from_slice(typ);
    v.extend_from_slice(payload);
    v
}

fn full(typ: &[u8; 4], version: u8, flags: u32, payload: &[u8]) -> Vec<u8> {
    let mut p = vec![version, (flags >> 16) as u8, (flags >> 8) as u8, flags as u8];
    p.extend_from_slice(payload);
    bx(typ, &p)
}

fn data(flag: u32, value: &[u8]) -> Vec<u8> {
    let mut p = vec![0, 0, 0, 0];
    p.extend_from_slice(value);
    full(b"data", 0, flag, &p)
}

fn cat(parts: &[Vec<u8>]) -> Vec<u8> {
    parts.concat()
}

fn ftyp() -> Vec<u8> {
    bx(b"ftyp", b"M4A \x00\x00\x00\x00M4A mp42")
}

fn sample_file() -> Vec<u8> {
    let nam = bx(&[0xa9, b'n', b'a', b'm'], &data(1, b"Song"));
    let alb = bx(&[0xa9, b'a', b'l', b'b'], &data(1, b"Album"));
    let soar = bx(b"soar", &data(1, b"Sorted Artist"));
    let trkn = bx(b"trkn", &data(0, &[0, 0, 0, 3, 0, 12, 0, 0]));
    let disk = bx(b"disk", &data(0, &[0, 0, 0, 1, 0, 2]));
    let cpil = bx(b"cpil", &data(21, &[1]));
    let ilst = bx(b"ilst", &cat(&[nam, alb, soar, trkn, disk, cpil]));
    let hdlr = full(b"hdlr", 0, 0, &[0; 13]);
    let meta = full(b"meta", 0, 0, &cat(&[hdlr, ilst]));
    let udta = bx(b"udta", &meta);
    let mut mdhd_p = Vec::new();
    mdhd_p.extend_from_slice(&100u32.to_be_bytes());
    mdhd_p.extend_from_slice(&200u32.to_be_bytes());
    mdhd_p.extend_from_slice(&44100u32.to_be_bytes());
    mdhd_p.extend_from_slice(&441000u32.to_be_bytes());
    mdhd_p.extend_from_slice(&[0x55, 0xc4, 0, 0]);
    let mdhd = full(b"mdhd", 0, 0, &mdhd_p);
    let mdia = bx(b"mdia", &mdhd);
    let trak = bx(b"trak", &mdia);
    let moov = bx(b"moov", &cat(&[trak, udta]));
    let mdat = bx(b"mdat", &[0; 20]);
    cat(&[ftyp(), moov, mdat])
}

#[test]
fn identify_reads_ftyp_values() {
    let f = ftyp();
    match mpeg4::identify(&f) {
        Some(FileFormat::MPEG4(m)) => {
            assert_eq!(m.brand, "M4A ");
            assert_eq!(m.version, 0);
            assert_eq!(m.flags, 0);
            assert_eq!(m.compatible_brands, vec!["M4A ".to_string(), "mp42".to_string()]);
        }
        _ => panic!("not identified as MPEG-4"),
    }
    // Only the first 12 bytes are at hand when a file is identified.
    match identify(&f[0..12]) {
        Some(FileFormat::MPEG4(m)) => {
            assert_eq!(m.brand, "M4A ");
            assert!(m.compatible_brands.is_empty());
        }
        _ => panic!("not identified as MPEG-4"),
    }
    assert!(mpeg4::identify(&bx(b"moov", &[])).is_none());
    assert!(mpeg4::identify(&f[0..7]).is_none());
}

#[test]
fn get_track_reads_ilst_and_media_header() {
    let f = sample_file();
    let tk = Mpeg4::default().get_track(&f);
    assert_eq!(tk.title.as_deref(), Some("Song"));
    assert_eq!(tk.album.as_deref(), Some("Album"));
    // The sort-order artist fills the artist when there is no artist.
    assert_eq!(tk.artist.as_deref(), Some("Sorted Artist"));
    assert_eq!(tk.track_number, Some(3));
    assert_eq!(tk.track_total, Some(12));
    assert_eq!(tk.disk_number, Some(1));
    assert_eq!(tk.disk_total, Some(2));
    assert!(tk.file_format.is_none());
    match &tk.format {
        Some(CodecFormat::MPEG4(fmt)) => {
            assert_eq!(fmt.total_samples, 441000);
            assert!(!fmt.protected);
        }
        _ => panic!("no MPEG-4 format"),
    }
    match &tk.metadata {
        Some(FormatMetadata::MP4(md)) => {
            assert_eq!(md.creation, 100);
            assert_eq!(md.modification, 200);
            assert_eq!(md.media_size, 28);
            assert!(md.text.contains(&("\u{a9}nam".to_string(), "Song".to_string())));
            assert!(md.text.contains(&("soar".to_string(), "Sorted Artist".to_string())));
            assert_eq!(md.byte, vec![("cpil".to_string(), 1u8)]);
        }
        _ => panic!("no MPEG-4 metadata"),
    }
}

#[test]
fn get_track_of_empty_buffer_is_blank() {
    let tk = Mpeg4::default().get_track(&[]);
    assert!(tk.title.is_none() && tk.track_number.is_none());
    match &tk.metadata {
        Some(FormatMetadata::MP4(md)) => {
            assert_eq!(md.creation, UNIX_EPOCH_1904);
            assert!(md.text.is_empty() && md.byte.is_empty());
        }
        _ => panic!("no MPEG-4 metadata"),
    }
}

#[test]
fn read_box_header_and_buffer_walk() {
    let f = sample_file();
    let (b, next) = read_box_header(&f).unwrap();
    assert_eq!(b.size, 24);
    assert_eq!(b.box_type.value(), FTYP);
    assert_eq!(next, 24);
    let mut walk = MP4Buffer { buf: &f };
    let mut kinds = Vec::new();
    while let Some(b) = walk.next() {
        kinds.push(b.box_type.four_cc());
    }
    assert_eq!(kinds[0], "ftyp");
    assert_eq!(kinds[1], "moov");
    assert_eq!(kinds[2], "trak");
    assert_eq!(kinds.last().unwrap(), "mdat");
    // A size larger than the buffer stops the walk.
    assert!(read_box_header(&[0, 0, 0, 99, b'f', b'r', b'e', b'e']).is_none());
    assert!(read_box_header(&[0, 0, 0]).is_none());
}

#[test]
fn ftyp_values_and_version_flags() {
    let f = ftyp();
    let v = get_ftyp_box_values(&f[8..]);
    assert_eq!(v.brand, b"M4A ");
    assert_eq!(v.compat_brands, vec![&b"M4A "[..], &b"mp42"[..]]);
    let vf = get_version_flags(&[1, 0, 0, 21], 0);
    assert_eq!(vf.version, 1);
    assert_eq!(vf.flag, 21);
    let vf = get_version_flags(&[0x01, 0x00, 0x00, 0x05], 0);
    assert_eq!((vf.version, vf.flag), (1, 5));
    let vf = get_version_flags(&[0x10, 0x01, 0x02, 0x03], 0);
    assert_eq!((vf.version, vf.flag), (16, 0x010203));
}

#[test]
fn data_box_contents() {
    let t = data(1, b"abc");
    let (b, _) = read_box_header(&t).unwrap();
    match get_data_box(&b) {
        Some(DataBoxContent::Text(v)) => assert_eq!(v, b"abc"),
        _ => panic!("expected text"),
    }
    let d = data(21, &[7]);
    let (b, _) = read_box_header(&d).unwrap();
    match get_data_box(&b) {
        Some(DataBoxContent::Byte(v)) => assert_eq!(v, 7),
        _ => panic!("expected a byte"),
    }
    let u = data(99, &[7]);
    let (b, _) = read_box_header(&u).unwrap();
    match get_data_box(&b) {
        Some(DataBoxContent::Byte(v)) => assert_eq!(v, b'0'),
        _ => panic!("expected the byte for an unknown flag"),
    }
}

#[test]
fn media_header_fields() {
    let mut p = Vec::new();
    p.extend_from_slice(&7u64.to_be_bytes());
    p.extend_from_slice(&9u64.to_be_bytes());
    p.extend_from_slice(&48000u32.to_be_bytes());
    p.extend_from_slice(&96000u64.to_be_bytes());
    p.extend_from_slice(&[0x55, 0xc4, 0, 0]);
    let m = full(b"mdhd", 1, 0, &p);
    let (b, _) = read_box_header(&m).unwrap();
    let (mut c, mut md, mut ts, mut d, mut l) = (0u64, 0u64, 0u32, 0u64, 0u16);
    assert!(get_mdhd(&b, &mut c, &mut md, &mut ts, &mut d, &mut l));
    assert_eq!((c, md, ts, d, l), (7, 9, 48000, 96000, 0x55c4));
    let short = full(b"mdhd", 1, 0, &[0; 4]);
    let (b, _) = read_box_header(&short).unwrap();
    assert!(!get_mdhd(&b, &mut c, &mut md, &mut ts, &mut d, &mut l));
    assert_eq!(c, 7);
}

#[test]
fn sample_entry_and_scheme() {
    let mut p = vec![0u8; 28];
    p[8..10].copy_from_slice(&0u16.to_be_bytes());
    p[16..18].copy_from_slice(&2u16.to_be_bytes());
    p[18..20].copy_from_slice(&16u16.to_be_bytes());
    p[24..28].copy_from_slice(&(44100u32 << 16).to_be_bytes());
    let e = bx(b"mp4a", &p);
    let (b, _) = read_box_header(&e).unwrap();
    let (mut ch, mut ss, mut sr) = (0u16, 0u16, 0u32);
    read_mp4a(&b, &mut ch, &mut ss, &mut sr);
    assert_eq!((ch, ss, sr >> 16), (2, 16, 44100));
    let s = full(b"schm", 0, 0, b"cbcs\x00\x01\x00\x00");
    let (b, _) = read_box_header(&s).unwrap();
    let mut v = 0u32;
    read_schm(&b, &mut v);
    assert_eq!(FourCC(v).to_string(), "cbcs");
}

#[test]
fn find_box_follows_the_path() {
    let f = sample_file();
    let b = find_box("/moov", &f).unwrap();
    assert_eq!(b.box_type.value(), MOOV);
    let b = find_box("/moov/udta/meta/ilst/trkn/data", &f).unwrap();
    assert_eq!(b.box_type.value(), DATA);
    assert_eq!(b.buf, &data(0, &[0, 0, 0, 3, 0, 12, 0, 0])[..]);
    let b = find_box("ilst", &f).unwrap();
    assert_eq!(b.box_type.value(), ILST);
    let b = find_box("trkn", &f).unwrap();
    assert_eq!(b.box_type, BoxType::ref_from(TRKN));
    assert!(find_box("/moov/xxxx", &f).is_none());
    assert!(find_box("", &f).is_none());
}

fn file_with_track_header() -> Vec<u8> {
    let tkhd = full(b"tkhd", 0, 0, &[0; 80]);
    let mdhd = full(b"mdhd", 0, 0, &[0; 20]);
    let mdia = bx(b"mdia", &mdhd);
    let trak = bx(b"trak", &cat(&[tkhd, mdia]));
    let mvhd = full(b"mvhd", 0, 0, &[0; 96]);
    let moov = bx(b"moov", &cat(&[mvhd, trak]));
    let mdat = bx(b"mdat", &[7; 12]);
    cat(&[ftyp(), moov, mdat])
}

#[test]
fn find_box_paths_skip_boxes_between() {
    let f = file_with_track_header();
    let b = find_box("/ftyp", &f).unwrap();
    assert_eq!(b.box_type.value(), FTYP);
    let b = find_box("/ftyp/moov", &f).unwrap();
    assert_eq!(b.box_type.value(), MOOV);
    let b = find_box("/moov/trak", &f).unwrap();
    assert_eq!(b.box_type.value(), TRAK);
    let b = find_box("trak/tkhd", &f).unwrap();
    assert_eq!(b.box_type.value(), TKHD);
}

#[test]
fn structure_walk_closes_every_container() {
    for f in [file_with_track_header(), sample_file()] {
        let mut boxes = MP4Buffer { buf: &f };
        let mut l = LevelStack::new();
        let mut seen = 0;
        while let Some(b) = boxes.next() {
            assert!(l.has_room(b.size));
            l.add_box(b);
            while l.complete() {
                l.pop();
                if l.is_empty() {
                    break;
                }
            }
            seen += 1;
        }
        assert!(seen > 5);
        assert!(l.is_empty());
        let mut boxes = MP4Buffer { buf: &f };
        let mut u = LevelStack::new();
        while let Some(b) = boxes.next() {
            assert!(u.has_room(b.size));
            u.update(b);
        }
        assert!(u.is_empty());
    }
}

fn esds_fields(config: &[u8]) -> EsdsFields {
    let mut p = vec![5u8, config.len() as u8];
    p.extend_from_slice(config);
    let e = full(b"esds", 0, 0, &p);
    let (b, _) = read_box_header(&e).unwrap();
    let mut f = EsdsFields {
        decoder: 0,
        avg_bitrate: 0,
        max_bitrate: 0,
        codec: AudioObjectTypes::Null,
        sample_frequency: 0,
        channel_config: ChannelConfig::Unknown,
    };
    read_esds(&b, &mut f);
    f
}

#[test]
fn audio_specific_config_layouts() {
    let f = esds_fields(&[0x13, 0x10]);
    assert_eq!(f.codec, AudioObjectTypes::AACLC);
    assert_eq!(f.sample_frequency, 24000);
    assert_eq!(f.channel_config, ChannelConfig::Defined(2));
    let f = esds_fields(&[0x12, 0x10]);
    assert_eq!(f.sample_frequency, 44100);
    let f = esds_fields(&[0xF8, 0x48, 0x40]);
    assert_eq!(f.sample_frequency, 44100);
    assert_eq!(f.channel_config, ChannelConfig::Defined(2));
    assert_eq!(f.codec, AudioObjectTypes::Null);
    let f = esds_fields(&[0x17, 0x80, 0x56, 0x22, 0x10]);
    assert_eq!(f.codec, AudioObjectTypes::AACLC);
    assert_eq!(f.sample_frequency, 44100);
    assert_eq!(f.channel_config, ChannelConfig::Defined(2));
}
