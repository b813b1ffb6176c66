use lt::album::{album_from_path, album_from_tracks};
use lt::display::{describe_track, format_duration, list_files, track_secs, Block};
use lt::mpeg4::util::dump_buffer;
use lt::mpeg4::Mpeg4;
use lt::track::{
    append_entry, files_from, insert_entry, sort_tracks, CodecFormat, FlacMetadata, FormatMetadata,
    ID3Metadata, MPEG4AudioFormat, MPEG4Metadata, PCMFormat, Track,
};
use std::path::PathBuf;

fn track(title: &str, disk: Option<u32>, number: Option<u32>) -> Track {
    let mut t = Track::default();
    t.title = Some(title.to_string());
    t.disk_number = disk;
    t.track_number = number;
    t
}

fn lines(blocks: &[Block]) -> Vec<String> {
    blocks
        .iter()
        .map(|b| match b {
            Block::Line(s) => s.clone(),
            Block::Table(rows) => rows.iter().map(|r| r.join("|")).collect::<Vec<_>>().join("\n"),
        })
        .collect()
}

#[test]
fn tracks_display_formats() {
    let mut t = Track::default();
    assert_eq!(t.path, PathBuf::new());
    assert_eq!(t.tracks_display(), "-");
    t.track_number = Some(1);
    assert_eq!(t.tracks_display(), " 1");
    t.track_total = Some(9);
    assert_eq!(t.tracks_display(), " 1 of 09");
    t.track_number = None;
    assert_eq!(t.tracks_display(), " 9");
}

#[test]
fn durations_format_minutes_and_seconds() {
    assert_eq!(format_duration(0, true), " 0:00");
    assert_eq!(format_duration(61, false), "1:01");
    assert_eq!(format_duration(3725, true), "62:05");
    let f = PCMFormat { sample_rate: 44100, channels: 2, bits_per_sample: 16, total_samples: 44100 * 75 };
    assert_eq!(f.duration().as_secs(), 75);
    let z = PCMFormat { sample_rate: 0, channels: 2, bits_per_sample: 16, total_samples: 0 };
    assert_eq!(z.duration().as_nanos(), 0);
    let m = MPEG4AudioFormat { sr: 48000 << 16, total_samples: 48000 * 3, ..MPEG4AudioFormat::default() };
    assert_eq!(m.sample_rate(), 48000);
    assert_eq!(m.duration().as_secs(), 3);
}

#[test]
fn tracks_sort_by_disk_then_number_stably() {
    let ts = vec![
        track("c", Some(2), Some(1)),
        track("a", None, Some(2)),
        track("b", Some(1), Some(5)),
        track("d", None, None),
        track("e", Some(1), Some(5)),
    ];
    let sorted: Vec<String> = sort_tracks(ts).into_iter().map(|t| t.title.unwrap()).collect();
    assert_eq!(sorted, vec!["d", "a", "b", "e", "c"]);
}

#[test]
fn files_from_splits_tracks_and_files() {
    let entries = vec![
        (PathBuf::from("d/2.wav"), Some(track("two", None, Some(2))), "2.wav".to_string()),
        (PathBuf::from("d/cover.jpg"), None, "cover.jpg".to_string()),
        (PathBuf::from("d/1.wav"), Some(Track::default()), "1.wav".to_string()),
    ];
    let (tracks, files) = files_from(entries);
    assert_eq!(files, vec![PathBuf::from("d/cover.jpg")]);
    assert_eq!(tracks.len(), 2);
    // A track without number comes first; a track without title takes its file name.
    assert_eq!(tracks[0].title.as_deref(), Some("1.wav"));
    assert_eq!(tracks[0].path, PathBuf::from("d/1.wav"));
    assert_eq!(tracks[1].title.as_deref(), Some("two"));
}

#[test]
fn albums_take_the_first_track() {
    let mut first = track("x", None, Some(1));
    first.album = Some("Abbey Road".to_string());
    first.artist = Some("The Beatles".to_string());
    first.disk_total = Some(1);
    let a = album_from_tracks(vec![first, track("y", None, Some(2))]);
    assert_eq!(a.title.as_deref(), Some("Abbey Road"));
    assert_eq!(a.artist.as_deref(), Some("The Beatles"));
    assert_eq!(a.track_total, Some(2));
    assert_eq!(a.disk_total, Some(1));
    let e = album_from_tracks(vec![]);
    assert!(e.title.is_none() && e.track_total.is_none());
    match album_from_path(false, "song.m4a", vec![]) {
        Err(m) => assert_eq!(m, "File is not a directory: song.m4a "),
        Ok(_) => panic!("a file is not an album"),
    }
    let (a, files) = album_from_path(true, "d", vec![]).unwrap();
    assert!(a.tracks.is_empty() && files.is_empty());
}

#[test]
fn entries_keep_one_value_per_key() {
    let mut m: Vec<(String, String)> = Vec::new();
    insert_entry(&mut m, "a".to_string(), "1".to_string());
    insert_entry(&mut m, "b".to_string(), "2".to_string());
    insert_entry(&mut m, "a".to_string(), "3".to_string());
    assert_eq!(m, vec![("a".to_string(), "3".to_string()), ("b".to_string(), "2".to_string())]);
    let mut l: Vec<(String, Vec<u8>)> = Vec::new();
    append_entry(&mut l, "k".to_string(), 1);
    append_entry(&mut l, "k".to_string(), 2);
    assert_eq!(l, vec![("k".to_string(), vec![1, 2])]);
}

#[test]
fn describe_pcm_track() {
    let mut t = Track::default();
    t.file_format = Some("wav".to_string());
    t.format = Some(CodecFormat::PCM(PCMFormat {
        sample_rate: 44100,
        channels: 2,
        bits_per_sample: 16,
        total_samples: 44100 * 61,
    }));
    t.metadata = Some(FormatMetadata::Flac(FlacMetadata {
        comments: vec![
            ("TITLE".to_string(), vec!["T".to_string()]),
            ("ARTIST".to_string(), vec!["A".to_string(), "B".to_string()]),
        ],
    }));
    let out = lines(&describe_track(&t, "a.wav".to_string(), Some(1234567)));
    assert_eq!(
        out[0],
        "File|a.wav\nFile Format|wav\nArtist|-\nAlbum|-\nTitle|-\nTrack|-\nTrack Total|-\nDisk Number|-\nDisk Total|-\nSample Rate|44,100 Hz\nSample Size|16 bits\nSamples|2,690,100\nChannels|2\nDuration|1:01\nSize|1,234,567 bytes"
    );
    assert_eq!(out[1], "");
    assert_eq!(out[2], "Metadata");
    // The table so far is shown once for each key.
    assert_eq!(out[3], "Key|Value\nARTIST|A\n|B");
    assert_eq!(out[4], "Key|Value\nARTIST|A\n|B\nTITLE|T");
    assert_eq!(out.len(), 5);
}

#[test]
fn describe_mpeg4_track() {
    let mut t = Track::default();
    t.format = Some(CodecFormat::MPEG4(MPEG4AudioFormat {
        sr: 44100 << 16,
        channels: 2,
        bits_per_sample: 16,
        total_samples: 44100 * 10,
        ..MPEG4AudioFormat::default()
    }));
    t.metadata = Some(FormatMetadata::MP4(MPEG4Metadata::default()));
    let out = lines(&describe_track(&t, "a.m4a".to_string(), None));
    assert!(out[0].contains("Sample Rate|44100.00 Hz"));
    assert!(out[0].contains("Duration|0:10"));
    assert!(out[0].ends_with("Size|<Unknown> bytes"));
    assert_eq!(&out[2..], &["Metadata".to_string(), "No metadata.".to_string()]);
    let mut md = MPEG4Metadata::default();
    md.text = vec![("b".to_string(), "x".to_string()), ("a".to_string(), "y".to_string())];
    md.byte = vec![("cpil".to_string(), 1)];
    assert_eq!(lines(&md.print()), vec!["Metadata".to_string(), "Key|Value\na|y\nb|x\ncpil|1".to_string()]);
    assert_eq!(lines(&MPEG4Metadata::default().print())[1], "No Metadata.");
}

#[test]
fn id3_and_flac_metadata_print() {
    let md = ID3Metadata {
        text: vec![("TIT2".to_string(), vec!["t".to_string()])],
        comments: vec![],
    };
    assert_eq!(
        lines(&md.print()),
        vec!["Metadata", "\nText", "Key|Value\nTIT2|t", "\nComments", "No Comments."]
    );
    let f = FlacMetadata { comments: vec![] };
    assert_eq!(lines(&f.print()), vec!["Metadata", "No Comments."]);
}

#[test]
fn list_album_rows() {
    let mut t1 = track("One", Some(1), Some(1));
    t1.track_total = Some(2);
    t1.file_format = Some("wav".to_string());
    t1.format = Some(CodecFormat::PCM(PCMFormat {
        sample_rate: 44100,
        channels: 2,
        bits_per_sample: 16,
        total_samples: 44100 * 125,
    }));
    let mut t2 = track("Two", Some(2), Some(1));
    t2.track_total = Some(2);
    let mut a = album_from_tracks(vec![t1, t2]);
    a.disk_total = Some(2);
    let secs: Vec<Option<u64>> = a.tracks.iter().map(|t| track_secs(t)).collect();
    assert_eq!(secs, vec![Some(125), None]);
    let names = vec!["01.wav".to_string(), "02.txt".to_string()];
    let out = lines(&list_files(&a, &names, &secs, &vec!["cover.jpg".to_string()]));
    assert_eq!(out[0], "");
    assert_eq!(out[1], "Album: -");
    assert_eq!(out[2], "Artist: -");
    assert_eq!(out[3], "Disks: 2");
    assert_eq!(out[4], "Total Tracks: 2");
    assert_eq!(
        out[5],
        "\nDisk: 1\nTrack|Title|Duration|Rate|Depth|Format|File\n 1 of 02|One| 2:05|44.1 KHz|16 bits|wav|01.wav\n\nDisk: 2\nTrack|Title|Duration|Rate|Depth|Format|File\n 1 of 02|Two|-|-|-|-|02.txt"
    );
    assert_eq!(&out[6..], &["\nFiles:".to_string(), "cover.jpg".to_string()]);
    let empty = album_from_tracks(vec![]);
    assert!(list_files(&empty, &vec![], &vec![], &vec![]).is_empty());
}

#[test]
fn structure_lines_show_nesting() {
    let mut data = Vec::new();
    data.extend_from_slice(&16u32.to_be_bytes());
    data.extend_from_slice(b"udta");
    data.extend_from_slice(&8u32.to_be_bytes());
    data.extend_from_slice(b"free");
    let mut moov = Vec::new();
    moov.extend_from_slice(&24u32.to_be_bytes());
    moov.extend_from_slice(b"moov");
    moov.extend_from_slice(&data);
    let lines = Mpeg4::default().display_structure(&moov);
    assert_eq!(
        lines,
        vec![
            "moov [24]    MOOV(moov[6d6f6f76] Simple Box Container) - Path: \"/\"".to_string(),
            "\tudta [16]    UDTA(udta[75647461] Simple Box Container) - Path: \"/moov\"".to_string(),
            "\t\tfree [8]    FREE(free[66726565] Simple Box) - Path: \"/moov/udta\"".to_string(),
            "\t<udta>".to_string(),
        ]
    );
}

#[test]
fn dump_shows_hex_and_characters() {
    assert_eq!(
        dump_buffer(b"abc"),
        " 61 62 63                                            abc\n"
    );
    assert_eq!(
        dump_buffer(&[0u8; 17]),
        " 00 00 00 00  00 00 00 00  00 00 00 00  00 00 00 00    .... .... .... ....\n 00                                                  .\n"
    );
}
