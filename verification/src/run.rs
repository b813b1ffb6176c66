//! Support for the interactive loop: configuration, the prompt, and the
//! words of a command line.
use crate::cmd::joined;
use crate::text::{chars_to_string, push_str, str_chars};
use vstd::prelude::*;

verus! {

/// Configuration information for the application.
pub struct Config {
    /// Path for the history file. If None, then no history is kept.
    pub history_path: Option<String>,
}

/// Used to send asynchronous updates for the interactive command line prompt.
pub struct PromptUpdate {
    /// Value for the prompt.
    pub new_prompt: String,
}

/// The prompt shown in directory `dir`.
pub open spec fn prompt_text(dir: Seq<char>) -> Seq<char> {
    "cli <"@ + dir + "> "@
}

/// The prompt update for the (displayed) current directory `dir`.
pub fn prompt_for(dir: &str) -> (r: PromptUpdate)
    ensures
        r.new_prompt@ == prompt_text(dir@),
{
    let mut s: Vec<char> = Vec::new();
    push_str(&mut s, "cli <");
    push_str(&mut s, dir);
    push_str(&mut s, "> ");
    assert(s@ =~= prompt_text(dir@));
    PromptUpdate { new_prompt: chars_to_string(s.as_slice()) }
}

/// Whether `c` is white space (`char::is_whitespace`: the Unicode White_Space
/// property).
pub open spec fn is_white(c: char) -> bool {
    ||| c == '\t' || c == '\n' || c == '\u{0B}' || c == '\u{0C}' || c == '\r' || c == ' '
    ||| c == '\u{85}' || c == '\u{A0}' || c == '\u{1680}'
    ||| '\u{2000}' <= c <= '\u{200A}'
    ||| c == '\u{2028}' || c == '\u{2029}' || c == '\u{202F}' || c == '\u{205F}' || c == '\u{3000}'
}

fn white(c: char) -> (r: bool)
    ensures
        r == is_white(c),
{
    c == '\t' || c == '\n' || c == '\u{0B}' || c == '\u{0C}' || c == '\r' || c == ' ' || c == '\u{85}'
        || c == '\u{A0}' || c == '\u{1680}' || ('\u{2000}' <= c && c <= '\u{200A}') || c == '\u{2028}'
        || c == '\u{2029}' || c == '\u{202F}' || c == '\u{205F}' || c == '\u{3000}'
}

/// The number of characters at the start of `s` before white space.
pub open spec fn word_len(s: Seq<char>) -> nat
    decreases s.len(),
{
    if s.len() == 0 || is_white(s[0]) {
        0
    } else {
        1 + word_len(s.skip(1))
    }
}

/// The words of `s`: its longest runs of characters other than white space,
/// in order.
pub open spec fn words(s: Seq<char>) -> Seq<Seq<char>>
    decreases s.len(),
{
    if s.len() == 0 {
        Seq::empty()
    } else if is_white(s[0]) {
        words(s.skip(1))
    } else {
        let k = word_len(s);
        proof {
            lemma_word_len_bounds(s);
        }
        seq![s.take(k as int)] + words(s.skip(k as int))
    }
}

/// A word takes at most the whole text, and at least its first character
/// when that is not white space.
pub proof fn lemma_word_len_bounds(s: Seq<char>)
    ensures
        word_len(s) <= s.len(),
        s.len() > 0 && !is_white(s[0]) ==> word_len(s) >= 1,
    decreases s.len(),
{
    if s.len() > 0 && !is_white(s[0]) {
        lemma_word_len_bounds(s.skip(1));
    }
}

proof fn lemma_word_len(s: Seq<char>, k: int)
    requires
        0 <= k <= s.len(),
        forall|i: int| 0 <= i < k ==> !is_white(#[trigger] s[i]),
        k == s.len() || is_white(s[k]),
    ensures
        word_len(s) == k,
    decreases s.len(),
{
    if k > 0 {
        let d = s.skip(1);
        assert forall|i: int| 0 <= i < k - 1 implies !is_white(#[trigger] d[i]) by {
            assert(d[i] == s[i + 1]);
        }
        if k < s.len() {
            assert(d[k - 1] == s[k]);
        }
        lemma_word_len(d, k - 1);
    }
}

/// Splits a command line into its words (`str::split_whitespace`).
pub fn line_words(line: &str) -> (r: Vec<String>)
    ensures
        r@.map_values(|w: String| w@) == words(line@),
{
    let cs = str_chars(line);
    let n = cs.len();
    let mut out: Vec<String> = Vec::new();
    let mut i: usize = 0;
    assert(cs@.skip(0) =~= cs@);
    while i < n
        invariant
            cs@ == line@,
            n == cs@.len(),
            i <= n,
            out@.map_values(|w: String| w@) + words(cs@.skip(i as int)) == words(cs@),
        decreases n - i,
    {
        let ghost rest = cs@.skip(i as int);
        if white(cs[i]) {
            assert(rest.skip(1) =~= cs@.skip(i + 1));
            i = i + 1;
        } else {
            let mut j: usize = i;
            while j < n && !white(cs[j])
                invariant
                    n == cs@.len(),
                    i <= j <= n,
                    forall|q: int| i <= q < j ==> !is_white(#[trigger] cs@[q]),
                decreases n - j,
            {
                j = j + 1;
            }
            proof {
                assert forall|q: int| 0 <= q < j - i implies !is_white(#[trigger] rest[q]) by {
                    assert(rest[q] == cs@[i + q]);
                }
                if j < n {
                    assert(rest[j - i] == cs@[j as int]);
                }
                lemma_word_len(rest, j - i);
            }
            let w = chars_to_string(&cs.as_slice()[i..j]);
            let ghost before = out@.map_values(|x: String| x@);
            out.push(w);
            proof {
                assert(cs@.subrange(i as int, j as int) =~= rest.take(j - i));
                assert(rest.skip(j - i) =~= cs@.skip(j as int));
                assert(out@.map_values(|x: String| x@) =~= before.push(rest.take(j - i)));
                assert(before.push(rest.take(j - i)) + words(cs@.skip(j as int)) =~= before + (seq![
                    rest.take(j - i),
                ] + words(rest.skip(j - i))));
            }
            i = j;
        }
    }
    assert(cs@.skip(n as int) =~= Seq::<char>::empty());
    assert(out@.map_values(|w: String| w@) + Seq::<Seq<char>>::empty() =~= out@.map_values(
        |w: String| w@,
    ));
    out
}

/// The history entry for a command line: its words joined by single spaces.
pub fn history_entry(ws: &Vec<String>) -> (r: String)
    ensures
        r@ == joined(ws@),
{
    let mut s: Vec<char> = Vec::new();
    let n = ws.len();
    let mut i: usize = 0;
    while i < n
        invariant
            n == ws@.len(),
            i <= n,
            s@ == joined(ws@.take(i as int)),
        decreases n - i,
    {
        if i > 0 {
            s.push(' ');
        }
        push_str(&mut s, ws[i].as_str());
        proof {
            let t = ws@.take(i + 1);
            assert(t.drop_last() =~= ws@.take(i as int));
            assert(t.last() == ws@[i as int]);
            assert(s@ =~= joined(t));
        }
        i = i + 1;
    }
    assert(ws@.take(n as int) =~= ws@);
    chars_to_string(s.as_slice())
}

} // verus!
