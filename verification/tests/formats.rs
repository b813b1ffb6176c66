use lt::file::{identify, FileFormat};
use lt::flac::{self, Flac, FlacBlock, StreamInfo};
use lt::mp3::{self, update_track, Id3Content, Id3Frame, Mp3, Mp3Audio, Mp3Info};
use lt::mp4;
use lt::mpeg4::boxes::box_types::{BoxType, FourCC, FTYP, MP4A, XNAM};
use lt::track::{CodecFormat, FormatMetadata, MP3Layer, MPVersion, Track};
use lt::wav::{self, Wav};
use std::path::PathBuf;

#[test]
fn identify_tries_formats_in_order() {
    assert!(matches!(identify(b"fLaC\0\0\0\x22abcd"), Some(FileFormat::Flac(_))));
    assert!(matches!(identify(b"\0\0\0\x18ftypM4A "), Some(FileFormat::MPEG4(_))));
    assert!(matches!(identify(b"RIFF\0\0\0\0WAVE"), Some(FileFormat::WAV(_))));
    assert!(matches!(identify(b"ID3\x03\0\0\0\0\0\0\0\0"), Some(FileFormat::MP3(_))));
    assert!(identify(b"plain text!!").is_none());
    assert!(identify(b"").is_none());
    assert_eq!(identify(b"ID3").unwrap().to_string(), "MP3");
}

#[test]
fn single_format_identifiers() {
    assert!(flac::identify(b"fLaC").is_some());
    assert!(flac::identify(b"fLa").is_none());
    assert!(wav::identify(b"RIFF1234WAVE").is_some());
    assert!(wav::identify(b"RIFF1234WAV").is_none());
    assert!(wav::identify(b"RIFX1234WAVE").is_none());
    assert!(mp3::identify(b"ID3").is_some());
    assert!(mp3::identify(b"ID").is_none());
    assert!(mp4::identify(b"\0\0\0\x18ftypmp42").is_some());
    assert!(mp4::identify(b"\0\0\0\x18ftypM4A ").is_some());
    assert!(mp4::identify(b"\0\0\0\x18ftypisom").is_none());
    assert!(matches!(mp4::identify(b"\0\0\0\x18ftypmp42"), Some(FileFormat::MP4A(_))));
}

#[test]
fn box_types_display() {
    assert_eq!(FourCC(FTYP).to_string(), "ftyp");
    assert_eq!(FourCC(XNAM).to_string(), "\u{a9}nam");
    assert_eq!(FourCC(0xffff_ffff).to_string(), "4294967295");
    let t = BoxType::ref_from(FTYP);
    assert_eq!(t.debug_text(), "FTYP(ftyp[66747970] Simple Box)");
    assert_eq!(t.description(), "File Container");
    let a = BoxType::ref_from(MP4A);
    assert_eq!(a.debug_text(), "MP4A(mp4a[6d703461] Simple Box Special Container [28])");
    let u = BoxType::ref_from(0x7a7a7a7a);
    assert_eq!(u.debug_text(), "Unknown(zzzz[7a7a7a7a] Simple Box)");
    assert!(!u.is_container() && !u.is_full());
    assert_eq!(BoxType::from(FTYP), t);
}

#[test]
fn wav_track_has_pcm_format() {
    let tk = Wav.get_track(44100, 2, 16, 441000);
    assert_eq!(tk.file_format.as_deref(), Some("wav"));
    match tk.format {
        Some(CodecFormat::PCM(f)) => {
            assert_eq!((f.sample_rate, f.channels, f.bits_per_sample, f.total_samples), (44100, 2, 16, 441000));
            assert_eq!(f.duration().as_secs(), 10);
        }
        _ => panic!("expected PCM"),
    }
    assert_eq!(Wav.name(), "wav");
}

#[test]
fn id3_text_frames_fill_unknown_tags() {
    let mut tk = Track::default();
    update_track(&mut tk, "TRCK", "3/12");
    update_track(&mut tk, "TPOS", "1/2");
    update_track(&mut tk, "TALB", "Album");
    update_track(&mut tk, "TPE2", "Band");
    update_track(&mut tk, "TPE1", "Lead");
    update_track(&mut tk, "TRCK", "5/6");
    assert_eq!((tk.track_number, tk.track_total), (Some(3), Some(12)));
    assert_eq!((tk.disk_number, tk.disk_total), (Some(1), Some(2)));
    assert_eq!(tk.album.as_deref(), Some("Album"));
    assert_eq!(tk.artist.as_deref(), Some("Band"));
    let mut t2 = Track::default();
    update_track(&mut t2, "TRCK", "x");
    update_track(&mut t2, "TRCK", "7");
    assert_eq!((t2.track_number, t2.track_total), (Some(7), None));
}

fn frame(id: &str, content: Id3Content) -> Id3Frame {
    Id3Frame { id: id.to_string(), content }
}

#[test]
fn mp3_track_from_tags_and_frames() {
    let info = Mp3Info {
        tag: Some(("Title".to_string(), "Artist".to_string(), "Album".to_string())),
        track_numbers: vec![Some("4/10".to_string())],
        audio: Some(Mp3Audio {
            bitrate: 320,
            sample_rate: 44100,
            version: MPVersion::MPEG1,
            layer: MP3Layer::Layer3,
            position: (200, 900_000_000),
            last_duration: Some((0, 200_000_000)),
        }),
        frames: vec![
            frame("TPOS", Id3Content::Text("2/3".to_string())),
            frame("TXXX", Id3Content::Text("one".to_string())),
            frame("TXXX", Id3Content::Text("two".to_string())),
            frame("COMM", Id3Content::Comment("eng".to_string(), "d".to_string(), "t".to_string())),
            frame("APIC", Id3Content::Other),
        ],
    };
    let tk = Mp3.get_track(info);
    assert_eq!(tk.file_format.as_deref(), Some("mpeg-3"));
    assert_eq!(tk.title.as_deref(), Some("Title"));
    assert_eq!((tk.track_number, tk.track_total), (Some(4), Some(10)));
    assert_eq!((tk.disk_number, tk.disk_total), (Some(2), Some(3)));
    match &tk.format {
        Some(CodecFormat::MPEG3(f)) => {
            assert_eq!(f.duration.as_secs(), 201);
            assert_eq!(f.duration.subsec_nanos(), 100_000_000);
            assert_eq!(f.version_string(), "MPEG-1");
            assert_eq!(f.layer_string(), "Layer 3");
        }
        _ => panic!("expected MPEG-3"),
    }
    match &tk.metadata {
        Some(FormatMetadata::ID3(md)) => {
            assert!(md.text.contains(&("TXXX".to_string(), vec!["one".to_string(), "two".to_string()])));
            assert_eq!(
                md.comments,
                vec![("COMM".to_string(), vec![("eng".to_string(), "d".to_string(), "t".to_string())])]
            );
        }
        _ => panic!("expected ID3 metadata"),
    }
    let bare = Mp3.get_track(Mp3Info { tag: None, track_numbers: vec![], audio: None, frames: vec![] });
    assert!(bare.metadata.is_none() && bare.format.is_none() && bare.title.is_none());
}

fn comments(v: &[(&str, &[&str])]) -> Vec<(String, Vec<String>)> {
    v.iter()
        .map(|(k, vs)| (k.to_string(), vs.iter().map(|s| s.to_string()).collect()))
        .collect()
}

#[test]
fn flac_track_from_blocks() {
    let blocks = vec![
        FlacBlock::StreamInfo(StreamInfo {
            sample_rate: 96000,
            num_channels: 2,
            bits_per_sample: 24,
            total_samples: 960000,
        }),
        FlacBlock::VorbisComment(comments(&[
            ("TITLE", &["Part 1", "Part 2"]),
            ("ALBUMARTIST", &["Various"]),
            ("TRACKNUMBER", &["7"]),
            ("TRACKTOTAL", &["9"]),
            ("DISCNUMBER", &["1"]),
            ("DISCTOTAL", &["x"]),
        ])),
        FlacBlock::Other,
    ];
    let tk = Flac.get_track(PathBuf::from("a.flac"), blocks);
    assert_eq!(tk.file_format.as_deref(), Some("flac"));
    assert_eq!(tk.path, PathBuf::from("a.flac"));
    assert_eq!(tk.title.as_deref(), Some("Part 1/Part 2"));
    assert_eq!(tk.artist.as_deref(), Some("Various"));
    assert_eq!((tk.track_number, tk.track_total), (Some(7), Some(9)));
    assert_eq!((tk.disk_number, tk.disk_total), (Some(1), None));
    match &tk.format {
        Some(CodecFormat::PCM(f)) => assert_eq!((f.sample_rate, f.bits_per_sample), (96000, 24)),
        _ => panic!("expected PCM"),
    }
    match &tk.metadata {
        Some(FormatMetadata::Flac(md)) => assert_eq!(md.comments.len(), 6),
        _ => panic!("expected FLAC metadata"),
    }
}

#[test]
fn mp3_track_from_bytes_scans_frames() {
    assert!(Mp3.get_track_from_bytes(b"not an mp3 file at all", vec![]).is_none());
    assert!(Mp3.get_track_from_bytes(&[], vec![]).is_none());
    // Two MPEG-1 Layer III frames, 128 kbit/s at 44100 Hz, 417 bytes each.
    let mut b = Vec::new();
    for _ in 0..2 {
        let mut f = vec![0u8; 417];
        f[..4].copy_from_slice(&[0xFF, 0xFB, 0x90, 0x00]);
        b.extend_from_slice(&f);
    }
    let tk = Mp3
        .get_track_from_bytes(&b, vec![frame("TALB", Id3Content::Text("Scanned".to_string()))])
        .unwrap();
    assert_eq!(tk.file_format.as_deref(), Some("mpeg-3"));
    assert_eq!(tk.album.as_deref(), Some("Scanned"));
    match &tk.format {
        Some(CodecFormat::MPEG3(f)) => {
            assert_eq!((f.bitrate, f.sample_rate), (128, 44100));
            assert_eq!(f.version_string(), "MPEG-1");
            assert_eq!(f.layer_string(), "Layer 3");
            // Two frames of 1152 samples at 44100 Hz end after about 52 ms.
            assert_eq!(f.duration.as_millis(), 52);
        }
        _ => panic!("expected MPEG-3"),
    }
}

fn le32(v: u32) -> [u8; 4] {
    v.to_le_bytes()
}

fn wav_bytes() -> Vec<u8> {
    let mut b = Vec::new();
    b.extend_from_slice(b"RIFF");
    b.extend_from_slice(&le32(36 + 8));
    b.extend_from_slice(b"WAVEfmt ");
    b.extend_from_slice(&le32(16));
    b.extend_from_slice(&1u16.to_le_bytes());
    b.extend_from_slice(&2u16.to_le_bytes());
    b.extend_from_slice(&le32(44100));
    b.extend_from_slice(&le32(44100 * 4));
    b.extend_from_slice(&4u16.to_le_bytes());
    b.extend_from_slice(&16u16.to_le_bytes());
    b.extend_from_slice(b"data");
    b.extend_from_slice(&le32(8));
    b.extend_from_slice(&[0; 8]);
    b
}

#[test]
fn wav_track_from_bytes_reads_header() {
    let tk = Wav.get_track_from_bytes(&wav_bytes()).unwrap();
    assert_eq!(tk.file_format.as_deref(), Some("wav"));
    match tk.format {
        Some(CodecFormat::PCM(f)) => {
            assert_eq!((f.sample_rate, f.channels, f.bits_per_sample, f.total_samples), (44100, 2, 16, 2));
        }
        _ => panic!("expected PCM"),
    }
    assert!(Wav.get_track_from_bytes(b"RIFF....WAVEjunk").is_none());
}

fn flac_bytes(comments: &[&str]) -> Vec<u8> {
    let mut b = b"fLaC".to_vec();
    b.extend_from_slice(&[0, 0, 0, 34]);
    let mut si = vec![0u8; 34];
    let packed: u64 = (44100u64 << 44) | (1u64 << 41) | (15u64 << 36) | 441000;
    si[10..18].copy_from_slice(&packed.to_be_bytes());
    b.extend_from_slice(&si);
    let mut vc = Vec::new();
    vc.extend_from_slice(&le32(1));
    vc.extend_from_slice(b"v");
    vc.extend_from_slice(&le32(comments.len() as u32));
    for c in comments {
        vc.extend_from_slice(&le32(c.len() as u32));
        vc.extend_from_slice(c.as_bytes());
    }
    let n = vc.len() as u32;
    b.extend_from_slice(&[0x84, (n >> 16) as u8, (n >> 8) as u8, n as u8]);
    b.extend_from_slice(&vc);
    b
}

#[test]
fn flac_track_from_bytes_reads_blocks() {
    let b = flac_bytes(&["TITLE=Song", "artist=Band", "TRACKNUMBER=7"]);
    assert!(flac::readable_flac(&b));
    let tk = Flac.get_track_from_bytes(PathBuf::from("song.flac"), &b).unwrap().unwrap();
    assert_eq!(tk.file_format.as_deref(), Some("flac"));
    assert_eq!(tk.title.as_deref(), Some("Song"));
    assert_eq!(tk.artist.as_deref(), Some("Band"));
    assert_eq!(tk.track_number, Some(7));
    assert_eq!(tk.path, PathBuf::from("song.flac"));
    match tk.format {
        Some(CodecFormat::PCM(f)) => {
            assert_eq!((f.sample_rate, f.channels, f.bits_per_sample, f.total_samples), (44100, 2, 16, 441000));
        }
        _ => panic!("expected PCM"),
    }
    // Not FLAC: no track; FLAC with no blocks: the read runs out of bytes.
    assert!(matches!(Flac.get_track_from_bytes(PathBuf::new(), b"RIFF0000WAVE"), Ok(None)));
    assert_eq!(Flac.get_track_from_bytes(PathBuf::new(), b"fLaC").err(), Some(flac::FlacErrorKind::Io));
    // Blocks the reader would fail to take apart are refused before reading.
    assert!(!flac::readable_flac(&flac_bytes(&["no equals sign"])));
    let mut short = b"fLaC".to_vec();
    short.extend_from_slice(&[0x80, 0, 0, 34, 1, 2, 3]);
    assert!(!flac::readable_flac(&short));
    assert!(!flac::readable_flac(b"ID3\x03\x00\x00\x00\x00\x00\x00fLaC"));
}

#[test]
fn mp3_track_from_file_reads_tag_and_frames() {
    let mut b = b"ID3\x03\x00\x00\x00\x00\x00\x12".to_vec();
    b.extend_from_slice(b"TALB\x00\x00\x00\x08\x00\x00\x00Scanned");
    for _ in 0..2 {
        let mut f = vec![0u8; 417];
        f[..4].copy_from_slice(&[0xFF, 0xFB, 0x90, 0x00]);
        b.extend_from_slice(&f);
    }
    let tk = Mp3.get_track_from_file(&b).unwrap();
    assert_eq!(tk.file_format.as_deref(), Some("mpeg-3"));
    assert_eq!(tk.album.as_deref(), Some("Scanned"));
    match &tk.format {
        Some(CodecFormat::MPEG3(f)) => {
            assert_eq!((f.bitrate, f.sample_rate), (128, 44100));
            assert_eq!(f.layer_string(), "Layer 3");
        }
        _ => panic!("expected MPEG-3"),
    }
    match &tk.metadata {
        Some(FormatMetadata::ID3(md)) => {
            assert!(md.text.contains(&("TALB".to_string(), vec!["Scanned".to_string()])));
        }
        _ => panic!("expected ID3 metadata"),
    }
    // No ID3 tag: nothing is read.
    assert!(Mp3.get_track_from_file(&b[10 + 18..]).is_none());
    // A buffer starting FF 00 is one the scan cannot take.
    let mut bad = vec![0xFF, 0x00];
    bad.extend_from_slice(&b);
    assert!(Mp3.get_track_from_bytes(&bad, vec![]).is_none());
}
