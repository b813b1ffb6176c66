use lt::completion::{
    complete_path, escape, escaped_word_start, split_path, unescape, word_break_start,
};
use lt::display::{describe_track, Block};
use lt::file::{identify, FileFormat};
use lt::mpeg4::Mpeg4;
use lt::text::{join_strings, parse_u32, starts_with_text};
use lt::track::{CodecFormat, PCMFormat, Track};

#[test]
fn parse_u32_follows_from_str() {
    assert_eq!(parse_u32("12"), Some(12));
    assert_eq!(parse_u32("+7"), Some(7));
    assert_eq!(parse_u32("4294967295"), Some(u32::MAX));
    assert_eq!(parse_u32("4294967296"), None);
    assert_eq!(parse_u32(""), None);
    assert_eq!(parse_u32("+"), None);
    assert_eq!(parse_u32("1a"), None);
    assert_eq!(parse_u32(" 1"), None);
    for n in [0u32, 9, 10, 99, 12345, u32::MAX] {
        assert_eq!(parse_u32(&n.to_string()), Some(n));
    }
}

fn described_samples(n: u64) -> String {
    let mut t = Track::default();
    t.format = Some(CodecFormat::PCM(PCMFormat {
        sample_rate: 1,
        channels: 1,
        bits_per_sample: 8,
        total_samples: n,
    }));
    match &describe_track(&t, "x".to_string(), None)[0] {
        Block::Table(rows) => rows.iter().find(|r| r[0] == "Samples").unwrap()[1].clone(),
        _ => panic!("expected the description table"),
    }
}

#[test]
fn thousands_groups_digits() {
    assert_eq!(described_samples(0), "0");
    assert_eq!(described_samples(999), "999");
    assert_eq!(described_samples(1000), "1,000");
    assert_eq!(described_samples(1234567), "1,234,567");
}

#[test]
fn lossy_text_and_quoting() {
    match identify(b"\0\0\0\x14ftyp\xa9nam\0\0\0\0mp42") {
        Some(FileFormat::MPEG4(m)) => {
            assert_eq!(m.brand, "\u{fffd}nam");
            assert_eq!(m.compatible_brands, vec!["mp42".to_string()]);
        }
        _ => panic!("expected MPEG-4"),
    }
    let mut b = 16u32.to_be_bytes().to_vec();
    b.extend_from_slice(b"moov");
    b.extend_from_slice(&8u32.to_be_bytes());
    b.extend_from_slice(b"free");
    let lines = Mpeg4::default().display_structure(&b);
    assert!(lines[1].ends_with(" - Path: \"/moov\""));
    let hay: Vec<char> = "jackson browne".chars().collect();
    let start: Vec<char> = "jack".chars().collect();
    let inner: Vec<char> = "browne".chars().collect();
    assert!(starts_with_text(&hay, &start));
    assert!(!starts_with_text(&hay, &inner));
    assert!(starts_with_text(&hay, &[]));
    assert!(!starts_with_text(&start, &hay));
    assert_eq!(join_strings(&vec!["a".to_string(), "b".to_string()], '/'), "a/b");
    assert_eq!(join_strings(&vec![], '/'), "");
}

#[test]
fn escape_marks_word_separators() {
    assert_eq!(escape("hello world"), "hello\\ world");
    assert_eq!(escape("tab\there"), "tab\\\there");
    // Existing escapes are not repeated.
    assert_eq!(escape("hello\\ world"), "hello\\ world");
    assert_eq!(escape("plain"), "plain");
    // A lone backslash at the end is escaped.
    assert_eq!(escape("a\\"), "a\\\\");
}

#[test]
fn escape_is_idempotent_and_unescape_undoes_it() {
    for s in ["", "a b", "a\\ b", "x\ty\nz", "end\\", "Jackson Browne/Late for the Sky"] {
        assert_eq!(escape(&escape(s)), escape(s));
    }
    for s in ["", "a b", "x\ty\nz", "Jackson Browne/Late for the Sky"] {
        assert_eq!(unescape(&escape(s)), s);
    }
    assert_eq!(unescape("plain words here"), "plain words here");
    assert_eq!(unescape("Jackson\\ Browne"), "Jackson Browne");
    assert_eq!(unescape("a\\"), "a");
    assert_eq!(unescape("a\\\\b"), "a\\b");
}

#[test]
fn word_starts_are_byte_offsets() {
    assert_eq!(word_break_start("ls foo", " "), 3);
    assert_eq!(word_break_start("foo", " "), 0);
    assert_eq!(word_break_start("ls ", " "), 3);
    // Offsets count bytes: 'é' takes two.
    assert_eq!(word_break_start("é x", " "), 3);
    assert_eq!(escaped_word_start("cd foo\\ bar"), 3);
    assert_eq!(escaped_word_start("cd foo bar"), 7);
    assert_eq!(escaped_word_start("bar"), 0);
    // An escaped separator starts the word at the escaped character.
    assert_eq!(escaped_word_start("cd \\ bar"), 4);
}

#[test]
fn split_path_at_last_separator() {
    assert_eq!(split_path("a/b/c"), (Some("a/b".to_string()), "c".to_string()));
    assert_eq!(split_path("name"), (None, "name".to_string()));
    assert_eq!(split_path("/top"), (Some(String::new()), "top".to_string()));
    assert_eq!(split_path("dir/"), (Some("dir".to_string()), String::new()));
    for p in ["a/b/c", "/top", "dir/", "x//y"] {
        let (d, n) = split_path(p);
        assert_eq!(format!("{}/{}", d.unwrap(), n), p);
        assert!(!n.contains('/'));
    }
}

#[test]
fn complete_path_filters_escapes_and_orders() {
    let entries = vec![
        ("Zebra Song.m4a".to_string(), false),
        ("Another Song".to_string(), true),
        ("notes.txt".to_string(), false),
    ];
    let r = complete_path("music/AN", entries.clone());
    assert_eq!(r.len(), 1);
    assert_eq!(r[0].completion, "music/Another\\ Song");
    assert_eq!(r[0].display.as_deref(), Some("Another Song"));
    assert!(r[0].dir);
    let r = complete_path("music/", entries.clone());
    assert_eq!(r.len(), 3);
    assert_eq!(r[0].completion, "music/Another\\ Song");
    assert_eq!(r[1].completion, "music/Zebra\\ Song.m4a");
    assert!(!r[1].dir);
    assert_eq!(r[2].completion, "music/notes.txt");
    assert!(complete_path("music/song", entries).is_empty());
    let all = complete_path("", vec![("b".to_string(), false), ("a".to_string(), false)]);
    assert_eq!(all.len(), 2);
    assert_eq!(all[0].completion, "a");
    assert_eq!(all[0].display.as_deref(), Some("a"));
}
