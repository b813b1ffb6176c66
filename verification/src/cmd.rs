//! The definition of the command line arguments for single and interactive
//! use: the commands, their arguments, and what each command asks to be done.
use crate::text::{chars_to_string, push_str};
use std::path::PathBuf;
use vstd::prelude::*;

verus! {

/// The top level of the commands, options, and configuration available from
/// the command line.
pub struct AppCmds {
    /// Where the history of interactive commands is kept, if anywhere.
    pub history_path: Option<String>,
    /// File name for configuration.
    pub config: String,
    /// Commands available for the application.
    pub subcmd: RootSubcommand,
}

/// The interactive command (which only appears on the command line) and all
/// other commands.
pub enum RootSubcommand {
    /// Run in interactive mode.
    Interactive(FilePath),
    /// Run a single command.
    InteractiveSubcommand(InteractiveCommands),
}

/// All commands and options available to interactive (and so command line) use.
pub struct ICmds {
    /// File name for configuration.
    pub config: String,
    /// The actual interactive command.
    pub subcmd: InteractiveCommands,
}

/// Interactive and so application command definitions.
pub enum InteractiveCommands {
    /// End the program.
    Quit,
    /// Find and print structural elements of a file (e.g. Mpeg4 box details).
    Find(FindPath),
    /// List files in the provided directory.
    List(FilePath),
    /// Print details of a track.
    Describe(FilePath),
    /// Print out the meta structure of the file (e.g. all Mpeg4 box types and sizes in order).
    Structure(FilePath),
    /// Change working directory.
    CD(FilePath),
}

/// A command argument for files: the words of a path.
pub struct FilePath {
    pub path: Vec<String>,
}

/// The find argument: the find specification (e.g. /moov/udta/ilst/trkn),
/// and the words of the path of the file to operate on.
pub struct FindPath {
    pub find_path: String,
    pub file_path: Vec<String>,
}

/// The state of a successful parse: whether it is time to exit.
#[derive(Debug, Clone, Copy, PartialEq, Eq, Structural)]
pub enum ParseResult {
    Complete,
    Exit,
}

/// The words `v` joined by single spaces.
pub open spec fn joined(v: Seq<String>) -> Seq<char>
    decreases v.len(),
{
    if v.len() == 0 {
        Seq::empty()
    } else if v.len() == 1 {
        v[0]@
    } else {
        joined(v.drop_last()) + seq![' '] + v.last()@
    }
}

/// `s` without its backslashes.
pub open spec fn without_backslashes(s: Seq<char>) -> Seq<char> {
    s.filter(|c: char| c != '\\')
}

/// The path that the words `v` name: joined by spaces, the current directory
/// `.` when that is empty, with the backslashes of escapes (as completion
/// gives them, e.g. "Jackson\ Browne") taken out.
pub open spec fn path_text(v: Seq<String>) -> Seq<char> {
    let s = joined(v);
    without_backslashes(if s.len() == 0 { seq!['.'] } else { s })
}

/// What `PathBuf::from` makes of the text `s`.
pub uninterp spec fn path_of(s: Seq<char>) -> PathBuf;

/// `PathBuf::from` on a string: the path with that text.
#[verifier::external_body]
fn path_from(s: String) -> (p: PathBuf)
    ensures
        p == path_of(s@),
{
    PathBuf::from(s)
}

/// The text of the path that the words `v` name (see `path_text`).
pub fn words_path_text(v: &[String]) -> (r: String)
    ensures
        r@ == path_text(v@),
{
    let mut s: Vec<char> = Vec::new();
    let n = v.len();
    let mut i: usize = 0;
    while i < n
        invariant
            n == v@.len(),
            i <= n,
            s@ == joined(v@.take(i as int)),
        decreases n - i,
    {
        if i > 0 {
            s.push(' ');
        }
        push_str(&mut s, v[i].as_str());
        proof {
            let t = v@.take(i + 1);
            assert(t.drop_last() =~= v@.take(i as int));
            assert(t.last() == v@[i as int]);
            if i == 0 {
                assert(s@ =~= joined(t));
            } else {
                assert(s@ =~= joined(t));
            }
        }
        i = i + 1;
    }
    assert(v@.take(n as int) =~= v@);
    if s.len() == 0 {
        s.push('.');
        assert(s@ =~= seq!['.']);
    }
    let ghost whole = s@;
    let mut out: Vec<char> = Vec::new();
    let m = s.len();
    let mut k: usize = 0;
    while k < m
        invariant
            m == s@.len(),
            s@ == whole,
            k <= m,
            out@ == whole.take(k as int).filter(|c: char| c != '\\'),
        decreases m - k,
    {
        proof {
            let t = whole.take(k + 1);
            assert(t.drop_last() =~= whole.take(k as int));
            assert(t.last() == whole[k as int]);
            whole.take(k as int).lemma_filter_push(whole[k as int], |c: char| c != '\\');
            assert(whole.take(k as int).push(whole[k as int]) =~= t);
        }
        if s[k] != '\\' {
            out.push(s[k]);
        }
        k = k + 1;
    }
    assert(whole.take(m as int) =~= whole);
    chars_to_string(out.as_slice())
}

/// Take the words of a path and make a `PathBuf` (see `path_text`).
fn strings_to_pathbuf(v: &[String]) -> (p: PathBuf)
    ensures
        p == path_of(path_text(v@)),
{
    path_from(words_path_text(v))
}

impl FilePath {
    /// Get a `PathBuf` for this FilePath (see `path_text`).
    pub fn path(&self) -> (p: PathBuf)
        ensures
            p == path_of(path_text(self.path@)),
    {
        strings_to_pathbuf(self.path.as_slice())
    }
}

impl FindPath {
    /// Get a `PathBuf` for the file of this FindPath (see `path_text`).
    pub fn file_path(&self) -> (p: PathBuf)
        ensures
            p == path_of(path_text(self.file_path@)),
    {
        strings_to_pathbuf(self.file_path.as_slice())
    }
}

/// What carrying out an interactive command asks for.
pub enum Action {
    /// List the files at the path.
    List(PathBuf),
    /// Describe the track at the path.
    Describe(PathBuf),
    /// Show the structure of the file at the path.
    Structure(PathBuf),
    /// Find the boxes of the given specification in the file at the path.
    Find(PathBuf, String),
    /// Change the working directory to the path (and update the prompt).
    ChangeDir(PathBuf),
    /// End the program.
    Exit,
}

/// Maps an interactive command to the action that carries it out; every
/// action but `Exit` completes the command.
pub fn parse_interactive(cmd: InteractiveCommands) -> (a: Action)
    ensures
        match cmd {
            InteractiveCommands::Quit => a is Exit,
            InteractiveCommands::List(p) => a == Action::List(path_of(path_text(p.path@))),
            InteractiveCommands::Describe(p) => a == Action::Describe(path_of(path_text(p.path@))),
            InteractiveCommands::Structure(p) => a == Action::Structure(path_of(path_text(p.path@))),
            InteractiveCommands::CD(p) => a == Action::ChangeDir(path_of(path_text(p.path@))),
            InteractiveCommands::Find(f) => a == Action::Find(
                path_of(path_text(f.file_path@)),
                f.find_path,
            ),
        },
{
    match cmd {
        InteractiveCommands::Quit => Action::Exit,
        InteractiveCommands::List(p) => Action::List(p.path()),
        InteractiveCommands::Describe(p) => Action::Describe(p.path()),
        InteractiveCommands::Structure(p) => Action::Structure(p.path()),
        InteractiveCommands::CD(p) => Action::ChangeDir(p.path()),
        InteractiveCommands::Find(f) => {
            let p = f.file_path();
            Action::Find(p, f.find_path)
        },
    }
}

} // verus!
