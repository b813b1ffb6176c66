use lt::cmd::{parse_interactive, words_path_text, Action, FilePath, FindPath, InteractiveCommands};
use lt::run::{history_entry, line_words, prompt_for};
use std::path::PathBuf;

fn words(v: &[&str]) -> Vec<String> {
    v.iter().map(|s| s.to_string()).collect()
}

#[test]
fn path_words_join_and_unescape() {
    assert_eq!(words_path_text(&words(&["Jackson\\", "Browne"])), "Jackson Browne");
    assert_eq!(words_path_text(&[]), ".");
    let p = FilePath { path: words(&["a", "b"]) };
    assert_eq!(p.path(), PathBuf::from("a b"));
    let f = FindPath { find_path: "/moov".to_string(), file_path: words(&["x.m4a"]) };
    assert_eq!(f.file_path(), PathBuf::from("x.m4a"));
}

#[test]
fn interactive_commands_map_to_actions() {
    assert!(matches!(parse_interactive(InteractiveCommands::Quit), Action::Exit));
    match parse_interactive(InteractiveCommands::List(FilePath { path: vec![] })) {
        Action::List(p) => assert_eq!(p, PathBuf::from(".")),
        _ => panic!("expected a listing"),
    }
    match parse_interactive(InteractiveCommands::Find(FindPath {
        find_path: "/moov/udta".to_string(),
        file_path: words(&["song.m4a"]),
    })) {
        Action::Find(p, f) => {
            assert_eq!(p, PathBuf::from("song.m4a"));
            assert_eq!(f, "/moov/udta");
        }
        _ => panic!("expected a find"),
    }
    match parse_interactive(InteractiveCommands::CD(FilePath { path: words(&["..", "x"]) })) {
        Action::ChangeDir(p) => assert_eq!(p, PathBuf::from(".. x")),
        _ => panic!("expected a change of directory"),
    }
}

#[test]
fn command_lines_split_into_words() {
    assert_eq!(line_words("  ls   foo\tbar \n"), words(&["ls", "foo", "bar"]));
    assert_eq!(line_words(""), Vec::<String>::new());
    assert_eq!(line_words("a\u{3000}b"), words(&["a", "b"]));
    assert_eq!(history_entry(&line_words("  cd   music ")), "cd music");
    assert_eq!(prompt_for("/home/me").new_prompt, "cli </home/me> ");
}
