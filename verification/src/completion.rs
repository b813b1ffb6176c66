//! Completion of file paths in interactive mode: finding where the word to
//! complete starts, escaping and unescaping the characters that separate
//! words, and choosing and ordering the names that complete a path.
use crate::text::{
    chars_to_string, lower_text, push_all, starts_with_text, str_chars, text_starts_with, to_lowercase,
};
use vstd::prelude::*;
use vstd::utf8::{encode_scalar, encode_utf8};

verus! {

/// Completes file paths in interactive mode.
#[derive(Debug, Clone, Copy, PartialEq, Eq, Structural)]
pub struct PathCompleter;

/// Characters that separate words, and so are escaped inside a word: space,
/// tab, newline and the backslash itself.
pub open spec fn needs_escape_spec(ch: char) -> bool {
    ch == ' ' || ch == '\t' || ch == '\n' || ch == '\\'
}

fn needs_escape(ch: char) -> (r: bool)
    ensures
        r == needs_escape_spec(ch),
{
    ch == ' ' || ch == '\t' || ch == '\n' || ch == '\\'
}

/// The number of bytes that `s` takes in UTF-8.
pub open spec fn byte_len(s: Seq<char>) -> nat {
    encode_utf8(s).len()
}

proof fn lemma_encode_append(a: Seq<char>, b: Seq<char>)
    ensures
        encode_utf8(a + b) == encode_utf8(a) + encode_utf8(b),
    decreases a.len(),
{
    if a.len() == 0 {
        assert(a + b =~= b);
        assert(encode_utf8(a) =~= Seq::<u8>::empty());
        assert(encode_utf8(a) + encode_utf8(b) =~= encode_utf8(b));
    } else {
        lemma_encode_append(a.drop_first(), b);
        assert((a + b).drop_first() =~= a.drop_first() + b);
        assert((a + b)[0] == a[0]);
        assert(encode_utf8(a + b) =~= encode_utf8(a) + encode_utf8(b));
    }
}

proof fn lemma_byte_len_step(s: Seq<char>, i: int)
    requires
        0 <= i < s.len(),
    ensures
        byte_len(s.take(i + 1)) == byte_len(s.take(i)) + encode_scalar(s[i] as u32).len(),
{
    assert(s.take(i + 1) =~= s.take(i) + seq![s[i]]);
    lemma_encode_append(s.take(i), seq![s[i]]);
    assert(seq![s[i]].drop_first() =~= Seq::<char>::empty());
    assert(seq![s[i]][0] == s[i]);
    reveal_with_fuel(encode_utf8, 2);
    assert(encode_utf8(seq![s[i]]) =~= encode_scalar(s[i] as u32));
}

fn char_width(c: char) -> (r: usize)
    ensures
        r == encode_scalar(c as u32).len(),
{
    let v = c as u32;
    if v < 0x80 {
        1
    } else if v < 0x800 {
        2
    } else if v < 0x10000 {
        3
    } else {
        4
    }
}

/// The byte offsets of the characters of `s`: entry `i` is where character
/// `i` starts, and the last entry is the length of `s` in bytes.
fn char_offsets(s: &Vec<char>, total: usize) -> (r: Vec<usize>)
    requires
        total == byte_len(s@),
    ensures
        r@.len() == s@.len() + 1,
        forall|i: int| 0 <= i <= s@.len() ==> #[trigger] r@[i] == byte_len(s@.take(i)),
{
    let n = s.len();
    let mut r: Vec<usize> = Vec::new();
    let mut off: usize = 0;
    let mut i: usize = 0;
    assert(s@.take(0) =~= Seq::<char>::empty());
    while i < n
        invariant
            n == s@.len(),
            i <= n,
            total == byte_len(s@),
            r@.len() == i,
            off == byte_len(s@.take(i as int)),
            forall|k: int| 0 <= k < i ==> #[trigger] r@[k] == byte_len(s@.take(k)),
        decreases n - i,
    {
        r.push(off);
        proof {
            lemma_byte_len_step(s@, i as int);
            lemma_prefix_bytes(s@, i + 1);
        }
        off = off + char_width(s[i]);
        i = i + 1;
    }
    assert(s@.take(n as int) =~= s@);
    r.push(off);
    r
}

proof fn lemma_prefix_bytes(s: Seq<char>, i: int)
    requires
        0 <= i <= s.len(),
    ensures
        byte_len(s.take(i)) <= byte_len(s),
{
    assert(s =~= s.take(i) + s.skip(i));
    lemma_encode_append(s.take(i), s.skip(i));
}

/// The index just after the last character of `s[..j]` found in `breaks`
/// (0 when there is none).
pub open spec fn after_last_break(s: Seq<char>, breaks: Seq<char>, j: int) -> int
    decreases j,
{
    if j <= 0 {
        0
    } else if breaks.contains(s[j - 1]) {
        j
    } else {
        after_last_break(s, breaks, j - 1)
    }
}

fn contains_char(v: &Vec<char>, c: char) -> (r: bool)
    ensures
        r == v@.contains(c),
{
    let n = v.len();
    let mut i: usize = 0;
    while i < n
        invariant
            n == v@.len(),
            i <= n,
            forall|k: int| 0 <= k < i ==> v@[k] != c,
        decreases n - i,
    {
        if v[i] == c {
            assert(v@[i as int] == c);
            return true;
        }
        i = i + 1;
    }
    false
}

/// Returns the start position (a byte offset) of the word that ends at the
/// end of the string: just after the last character found in `word_break`,
/// or 0 when there is none.
pub fn word_break_start(s: &str, word_break: &str) -> (r: usize)
    ensures
        r == byte_len(s@.take(after_last_break(s@, word_break@, s@.len() as int))),
{
    let cs = str_chars(s);
    let wb = str_chars(word_break);
    let total = s.as_bytes().len();
    let offs = char_offsets(&cs, total);
    let mut j: usize = cs.len();
    while j > 0
        invariant
            j <= cs@.len(),
            cs@ == s@,
            wb@ == word_break@,
            offs@.len() == cs@.len() + 1,
            forall|i: int| 0 <= i <= cs@.len() ==> #[trigger] offs@[i] == byte_len(cs@.take(i)),
            after_last_break(s@, word_break@, s@.len() as int) == after_last_break(
                s@,
                word_break@,
                j as int,
            ),
        decreases j,
    {
        if contains_char(&wb, cs[j - 1]) {
            return offs[j];
        }
        j = j - 1;
    }
    offs[0]
}

/// The number of backslashes just before index `j` of `s`.
pub open spec fn backslashes_before(s: Seq<char>, j: int) -> nat
    decreases j,
{
    if j <= 0 || j > s.len() {
        0
    } else if s[j - 1] == '\\' {
        1 + backslashes_before(s, j - 1)
    } else {
        0
    }
}

/// Walking `s[..j]` back from its end, where the escaped word starts (as a
/// byte offset) when it has started at `start` so far: a character that needs
/// escaping ends the walk unless an odd number of backslashes precedes it, in
/// which case the walk goes on before those backslashes; any other character
/// belongs to the word.
pub open spec fn escaped_start_from(s: Seq<char>, j: int, start: nat) -> nat
    decreases j,
{
    if j <= 0 || j > s.len() {
        start
    } else if needs_escape_spec(s[j - 1]) {
        let n = backslashes_before(s, j - 1);
        if n % 2 == 0 {
            start
        } else {
            proof {
                lemma_backslashes_bound(s, j - 1);
            }
            escaped_start_from(s, j - 1 - n, byte_len(s.take(j - 1)))
        }
    } else {
        escaped_start_from(s, j - 1, byte_len(s.take(j - 1)))
    }
}

/// There are no more backslashes before index `j` than characters.
pub proof fn lemma_backslashes_bound(s: Seq<char>, j: int)
    requires
        0 <= j <= s.len(),
    ensures
        backslashes_before(s, j) <= j,
    decreases j,
{
    if j > 0 && s[j - 1] == '\\' {
        lemma_backslashes_bound(s, j - 1);
    }
}

/// Returns the start position (a byte offset) of a word whose non-word
/// characters are escaped by backslash (`\`), the word ending at the end of
/// the string.
pub fn escaped_word_start(s: &str) -> (r: usize)
    ensures
        r == escaped_start_from(s@, s@.len() as int, byte_len(s@)),
{
    let cs = str_chars(s);
    let total = s.as_bytes().len();
    let offs = char_offsets(&cs, total);
    let mut j: usize = cs.len();
    let mut start: usize = total;
    while j > 0
        invariant
            j <= cs@.len(),
            cs@ == s@,
            offs@.len() == cs@.len() + 1,
            forall|i: int| 0 <= i <= cs@.len() ==> #[trigger] offs@[i] == byte_len(cs@.take(i)),
            escaped_start_from(s@, s@.len() as int, byte_len(s@)) == escaped_start_from(
                s@,
                j as int,
                start as nat,
            ),
        decreases j,
    {
        let ch = cs[j - 1];
        if needs_escape(ch) {
            let mut n: usize = 0;
            while n < j - 1 && cs[j - 2 - n] == '\\'
                invariant
                    j <= cs@.len(),
                    j > 0,
                    n <= j - 1,
                    backslashes_before(cs@, (j - 1) as int) == n + backslashes_before(
                        cs@,
                        (j - 1 - n) as int,
                    ),
                decreases j - 1 - n,
            {
                n = n + 1;
            }
            proof {
                lemma_backslashes_bound(cs@, (j - 1) as int);
            }
            if n % 2 == 0 {
                return start;
            }
            start = offs[j - 1];
            j = j - 1 - n;
        } else {
            start = offs[j - 1];
            j = j - 1;
        }
    }
    start
}

/// `s` with each character that separates words escaped by a backslash; a
/// backslash already followed by a character is an escape, and that pair is
/// kept as it is (escapes are not repeated).
pub open spec fn escape_text(s: Seq<char>) -> Seq<char>
    decreases s.len(),
{
    if s.len() == 0 {
        s
    } else if s[0] == '\\' && s.len() >= 2 {
        seq!['\\', s[1]] + escape_text(s.skip(2))
    } else if needs_escape_spec(s[0]) {
        seq!['\\', s[0]] + escape_text(s.skip(1))
    } else {
        seq![s[0]] + escape_text(s.skip(1))
    }
}

/// `s` with the backslash of each escape removed: a backslash keeps the
/// character after it, and a backslash at the end is dropped.
pub open spec fn unescape_text(s: Seq<char>) -> Seq<char>
    decreases s.len(),
{
    if s.len() == 0 {
        s
    } else if s[0] == '\\' {
        if s.len() >= 2 {
            seq![s[1]] + unescape_text(s.skip(2))
        } else {
            Seq::empty()
        }
    } else {
        seq![s[0]] + unescape_text(s.skip(1))
    }
}

/// Escapes a word by prefixing a backslash (`\`) to non-word characters.
/// This checks for existing escapes and doesn't repeat them, i.e. it does not
/// turn "hello\ world" into "hello\\ world".
pub fn escape(s: &str) -> (r: String)
    ensures
        r@ == escape_text(s@),
{
    let cs = str_chars(s);
    let n = cs.len();
    let mut out: Vec<char> = Vec::new();
    let mut i: usize = 0;
    assert(cs@.skip(0) =~= cs@);
    while i < n
        invariant
            cs@ == s@,
            n == cs@.len(),
            i <= n,
            out@ + escape_text(cs@.skip(i as int)) == escape_text(cs@),
        decreases n - i,
    {
        let ghost rest = cs@.skip(i as int);
        let ghost before = out@;
        let c = cs[i];
        if c == '\\' && n - i >= 2 {
            out.push('\\');
            out.push(cs[i + 1]);
            proof {
                assert(rest.skip(2) =~= cs@.skip(i + 2));
                assert(out@ =~= before + seq!['\\', rest[1]]);
            }
            i = i + 2;
        } else {
            if needs_escape(c) {
                out.push('\\');
            }
            out.push(c);
            proof {
                assert(rest.skip(1) =~= cs@.skip(i + 1));
                if needs_escape_spec(c) {
                    assert(out@ =~= before + seq!['\\', rest[0]]);
                } else {
                    assert(out@ =~= before + seq![rest[0]]);
                }
            }
            i = i + 1;
        }
        assert(out@ + escape_text(cs@.skip(i as int)) =~= escape_text(cs@));
    }
    proof {
        assert(cs@.skip(n as int) =~= Seq::<char>::empty());
        assert(out@ + Seq::<char>::empty() =~= out@);
        assert(cs@.skip(0) =~= cs@);
    }
    chars_to_string(out.as_slice())
}

/// Unescapes a word by removing the backslash (`\`) from escaped characters.
pub fn unescape(s: &str) -> (r: String)
    ensures
        r@ == unescape_text(s@),
        !s@.contains('\\') ==> r@ == s@,
{
    proof {
        if !s@.contains('\\') {
            lemma_unescape_plain(s@);
        }
    }
    let cs = str_chars(s);
    let n = cs.len();
    let mut out: Vec<char> = Vec::new();
    let mut i: usize = 0;
    assert(cs@.skip(0) =~= cs@);
    while i < n
        invariant
            cs@ == s@,
            n == cs@.len(),
            i <= n,
            out@ + unescape_text(cs@.skip(i as int)) == unescape_text(cs@),
        decreases n - i,
    {
        let ghost rest = cs@.skip(i as int);
        let ghost before = out@;
        let c = cs[i];
        if c == '\\' {
            if n - i >= 2 {
                out.push(cs[i + 1]);
                proof {
                    assert(rest.skip(2) =~= cs@.skip(i + 2));
                    assert(out@ =~= before + seq![rest[1]]);
                }
                i = i + 2;
            } else {
                proof {
                    assert(unescape_text(rest) =~= Seq::<char>::empty());
                    assert(cs@.skip(n as int) =~= Seq::<char>::empty());
                }
                i = n;
            }
        } else {
            out.push(c);
            proof {
                assert(rest.skip(1) =~= cs@.skip(i + 1));
                assert(out@ =~= before + seq![rest[0]]);
            }
            i = i + 1;
        }
        assert(out@ + unescape_text(cs@.skip(i as int)) =~= unescape_text(cs@));
    }
    proof {
        assert(cs@.skip(n as int) =~= Seq::<char>::empty());
        assert(out@ + Seq::<char>::empty() =~= out@);
    }
    chars_to_string(out.as_slice())
}

} // verus!

verus! {

/// Escaping does not repeat escapes: escaping an escaped word changes nothing.
pub proof fn lemma_escape_idempotent(s: Seq<char>)
    ensures
        escape_text(escape_text(s)) == escape_text(s),
    decreases s.len(),
{
    if s.len() > 0 {
        let e = escape_text(s);
        if (s[0] == '\\' && s.len() >= 2) || needs_escape_spec(s[0]) {
            let x = if s[0] == '\\' && s.len() >= 2 { s[1] } else { s[0] };
            let rest = if s[0] == '\\' && s.len() >= 2 { s.skip(2) } else { s.skip(1) };
            lemma_escape_idempotent(rest);
            assert(e == seq!['\\', x] + escape_text(rest));
            assert(e.skip(2) =~= escape_text(rest));
            assert(e[0] == '\\' && e[1] == x);
        } else {
            lemma_escape_idempotent(s.skip(1));
            assert(e == seq![s[0]] + escape_text(s.skip(1)));
            assert(e.skip(1) =~= escape_text(s.skip(1)));
            assert(e[0] == s[0]);
        }
    }
}

/// A word without backslashes is its own unescaping.
pub proof fn lemma_unescape_plain(s: Seq<char>)
    requires
        !s.contains('\\'),
    ensures
        unescape_text(s) == s,
    decreases s.len(),
{
    if s.len() > 0 {
        assert(s[0] != '\\');
        assert(!s.skip(1).contains('\\')) by {
            if s.skip(1).contains('\\') {
                let k = choose|k: int| 0 <= k < s.skip(1).len() && s.skip(1)[k] == '\\';
                assert(s[k + 1] == '\\');
            }
        }
        lemma_unescape_plain(s.skip(1));
        assert(seq![s[0]] + s.skip(1) =~= s);
    }
}

/// Unescaping undoes escaping for a word without backslashes:
/// `unescape(escape(s))` gives `s` back.
pub proof fn lemma_unescape_escape(s: Seq<char>)
    requires
        !s.contains('\\'),
    ensures
        unescape_text(escape_text(s)) == s,
    decreases s.len(),
{
    if s.len() > 0 {
        let e = escape_text(s);
        assert(s[0] != '\\');
        assert(!s.skip(1).contains('\\')) by {
            if s.skip(1).contains('\\') {
                let k = choose|k: int| 0 <= k < s.skip(1).len() && s.skip(1)[k] == '\\';
                assert(s[k + 1] == '\\');
            }
        }
        lemma_unescape_escape(s.skip(1));
        if needs_escape_spec(s[0]) {
            assert(e == seq!['\\', s[0]] + escape_text(s.skip(1)));
            assert(e.skip(2) =~= escape_text(s.skip(1)));
            assert(unescape_text(e) == seq![s[0]] + unescape_text(e.skip(2)));
        } else {
            assert(e == seq![s[0]] + escape_text(s.skip(1)));
            assert(e.skip(1) =~= escape_text(s.skip(1)));
            assert(unescape_text(e) == seq![s[0]] + unescape_text(e.skip(1)));
        }
        assert(seq![s[0]] + s.skip(1) =~= s);
    }
}

} // verus!

verus! {

/// The path separator (`std::path::MAIN_SEPARATOR` on Unix).
pub const SEPARATOR: char = '/';

/// The index of the last separator in `s[..j]`.
pub open spec fn last_separator(s: Seq<char>, j: int) -> Option<int>
    decreases j,
{
    if j <= 0 || j > s.len() {
        None
    } else if s[j - 1] == SEPARATOR {
        Some(j - 1)
    } else {
        last_separator(s, j - 1)
    }
}

/// A path split at its last separator into the directory before it and the
/// name after it; a path without separator is all name.
pub open spec fn split_path_text(s: Seq<char>) -> (Option<Seq<char>>, Seq<char>) {
    match last_separator(s, s.len() as int) {
        Some(p) => (Some(s.take(p)), s.skip(p + 1)),
        None => (None, s),
    }
}

/// Splits a path at its last separator (see `split_path_text`).
pub fn split_path(path: &str) -> (r: (Option<String>, String))
    ensures
        split_path_text(path@) == ((match r.0 {
            Some(d) => Some(d@),
            None => None,
        }), r.1@),
{
    let cs = str_chars(path);
    let n = cs.len();
    let mut j: usize = n;
    while j > 0
        invariant
            cs@ == path@,
            n == cs@.len(),
            j <= n,
            last_separator(cs@, n as int) == last_separator(cs@, j as int),
        decreases j,
    {
        if cs[j - 1] == SEPARATOR {
            let p = j - 1;
            let all = cs.as_slice();
            let dir = chars_to_string(&all[0..p]);
            let name = chars_to_string(&all[p + 1..n]);
            assert(all@.subrange(0, p as int) =~= cs@.take(p as int));
            assert(all@.subrange(p + 1, n as int) =~= cs@.skip(p + 1));
            return (Some(dir), name);
        }
        j = j - 1;
    }
    (None, chars_to_string(cs.as_slice()))
}

} // verus!

verus! {

/// A completion offered for a path: the completed text (escaped), what is
/// displayed for it (the entry's name), and whether it names a directory (a
/// separator is then added after it).
pub struct PathCompletion {
    pub completion: String,
    pub display: Option<String>,
    pub dir: bool,
}

/// `PathCompletion` seen as values.
pub struct CompletionView {
    pub completion: Seq<char>,
    pub display: Option<Seq<char>>,
    pub dir: bool,
}

impl View for PathCompletion {
    type V = CompletionView;

    open spec fn view(&self) -> CompletionView {
        CompletionView {
            completion: self.completion@,
            display: match self.display {
                Some(d) => Some(d@),
                None => None,
            },
            dir: self.dir,
        }
    }
}

/// The completion that directory entry `name` (a directory when `dir`)
/// offers for the name `fname` typed in directory `base`: offered when the
/// lowercase typed name is a prefix of the lowercase name; the completion is the
/// entry's path, escaped, and the display its name.
pub open spec fn candidate(base: Option<Seq<char>>, fname: Seq<char>, name: Seq<char>, dir: bool) -> Option<
    CompletionView,
> {
    if text_starts_with(lower_text(name), lower_text(fname)) {
        let full = match base {
            Some(d) => d + seq![SEPARATOR] + name,
            None => name,
        };
        Some(CompletionView { completion: escape_text(full), display: Some(name), dir })
    } else {
        None
    }
}

/// The completions offered by the entries `es`, in their order.
pub open spec fn candidates(base: Option<Seq<char>>, fname: Seq<char>, es: Seq<(String, bool)>) -> Seq<
    CompletionView,
>
    decreases es.len(),
{
    if es.len() == 0 {
        Seq::empty()
    } else {
        let rest = candidates(base, fname, es.drop_last());
        match candidate(base, fname, es.last().0@, es.last().1) {
            Some(c) => rest.push(c),
            None => rest,
        }
    }
}

/// Whether text `a` comes before text `b`, character by character.
pub open spec fn text_lt(a: Seq<char>, b: Seq<char>) -> bool
    decreases a.len(),
{
    if a.len() == 0 {
        b.len() > 0
    } else if b.len() == 0 {
        false
    } else if a[0] != b[0] {
        a[0] < b[0]
    } else {
        text_lt(a.skip(1), b.skip(1))
    }
}

/// The first position of `s` whose completion comes after that of `x`.
pub open spec fn first_later(s: Seq<CompletionView>, x: CompletionView) -> nat
    decreases s.len(),
{
    if s.len() == 0 {
        0
    } else if text_lt(x.completion, s[0].completion) {
        0
    } else {
        1 + first_later(s.drop_first(), x)
    }
}

/// The completions `s` ordered by their completed text, keeping the order of
/// equal ones.
pub open spec fn completion_order(s: Seq<CompletionView>) -> Seq<CompletionView>
    decreases s.len(),
{
    if s.len() == 0 {
        s
    } else {
        let t = completion_order(s.drop_last());
        t.insert(first_later(t, s.last()) as int, s.last())
    }
}

/// Whether text `a` comes before text `b` (see `text_lt`).
pub fn text_less(a: &[char], b: &[char]) -> (r: bool)
    ensures
        r == text_lt(a@, b@),
{
    let n = a.len();
    let m = b.len();
    let mut i: usize = 0;
    assert(a@.skip(0) =~= a@ && b@.skip(0) =~= b@);
    while i < n && i < m && a[i] == b[i]
        invariant
            n == a@.len(),
            m == b@.len(),
            i <= n,
            i <= m,
            text_lt(a@, b@) == text_lt(a@.skip(i as int), b@.skip(i as int)),
        decreases n - i,
    {
        proof {
            assert(a@.skip(i as int).skip(1) =~= a@.skip(i + 1));
            assert(b@.skip(i as int).skip(1) =~= b@.skip(i + 1));
        }
        i = i + 1;
    }
    if i == n {
        i < m
    } else if i == m {
        false
    } else {
        a[i] < b[i]
    }
}

proof fn lemma_first_later(s: Seq<CompletionView>, x: CompletionView, j: int)
    requires
        0 <= j <= s.len(),
        forall|i: int| 0 <= i < j ==> !text_lt(x.completion, #[trigger] s[i].completion),
        j == s.len() || text_lt(x.completion, s[j].completion),
    ensures
        first_later(s, x) == j,
    decreases s.len(),
{
    if s.len() > 0 && j > 0 {
        let d = s.drop_first();
        assert forall|i: int| 0 <= i < j - 1 implies !text_lt(x.completion, #[trigger] d[i].completion) by {
            assert(d[i] == s[i + 1]);
        }
        assert(!text_lt(x.completion, s[0].completion));
        if j < s.len() {
            assert(d[j - 1] == s[j]);
        }
        lemma_first_later(d, x, j - 1);
    }
}

/// Returns the completions, ordered by their text, of the name after the last
/// separator of `path` among the entries of the directory before it (the
/// current directory when there is no separator): `entries` holds each entry's
/// name and whether it is a directory (see `candidate`).
pub fn complete_path(path: &str, entries: Vec<(String, bool)>) -> (r: Vec<PathCompletion>)
    ensures
        r@.map_values(|c: PathCompletion| c@) == completion_order(
            candidates(split_path_text(path@).0, split_path_text(path@).1, entries@),
        ),
{
    let (base_dir, fname) = split_path(path);
    let ghost base_v: Option<Seq<char>> = match &base_dir {
        Some(d) => Some(d@),
        None => None,
    };
    let lf = to_lowercase(fname.as_str());
    let lfc = str_chars(lf.as_str());
    let n = entries.len();
    let mut found: Vec<PathCompletion> = Vec::new();
    let mut keys: Vec<Vec<char>> = Vec::new();
    let mut i: usize = 0;
    while i < n
        invariant
            n == entries@.len(),
            i <= n,
            lfc@ == lower_text(fname@),
            base_v == split_path_text(path@).0,
            fname@ == split_path_text(path@).1,
            base_v == (match base_dir {
                Some(d) => Some(d@),
                None => None,
            }),
            found@.len() == keys@.len(),
            forall|k: int| 0 <= k < keys@.len() ==> #[trigger] keys@[k]@ == found@[k].completion@,
            found@.map_values(|c: PathCompletion| c@) == completion_order(
                candidates(base_v, fname@, entries@.take(i as int)),
            ),
        decreases n - i,
    {
        let name = &entries[i].0;
        let dir = entries[i].1;
        let ln = to_lowercase(name.as_str());
        let lnc = str_chars(ln.as_str());
        proof {
            let q = entries@.take(i + 1);
            assert(q.drop_last() =~= entries@.take(i as int));
            assert(q.last() == entries@[i as int]);
        }
        if starts_with_text(lnc.as_slice(), lfc.as_slice()) {
            let mut fullv: Vec<char> = Vec::new();
            match &base_dir {
                Some(d) => {
                    let dc = str_chars(d.as_str());
                    push_all(&mut fullv, dc.as_slice());
                    fullv.push(SEPARATOR);
                },
                None => {},
            }
            let nc = str_chars(name.as_str());
            push_all(&mut fullv, nc.as_slice());
            let full = chars_to_string(fullv.as_slice());
            let completion = escape(full.as_str());
            let key = str_chars(completion.as_str());
            let c = PathCompletion { completion, display: Some(name.clone()), dir };
            proof {
                assert(fullv@ =~= (match base_v {
                    Some(d) => d + seq![SEPARATOR] + name@,
                    None => name@,
                }));
            }
            let ghost cv = c@;
            let ghost before = found@.map_values(|x: PathCompletion| x@);
            let m = found.len();
            let mut j: usize = 0;
            while j < m && !text_less(key.as_slice(), keys[j].as_slice())
                invariant
                    m == found@.len(),
                    m == keys@.len(),
                    j <= m,
                    key@ == cv.completion,
                    forall|k: int| 0 <= k < keys@.len() ==> #[trigger] keys@[k]@ == found@[k].completion@,
                    before == found@.map_values(|x: PathCompletion| x@),
                    forall|q: int| 0 <= q < j ==> !text_lt(cv.completion, #[trigger] before[q].completion),
                decreases m - j,
            {
                j = j + 1;
            }
            proof {
                if j < m {
                    assert(before[j as int].completion == keys@[j as int]@);
                }
                lemma_first_later(before, cv, j as int);
            }
            let ghost old_keys = keys@;
            let ghost old_found = found@;
            found.insert(j, c);
            keys.insert(j, key);
            proof {
                assert(found@.map_values(|x: PathCompletion| x@) =~= before.insert(j as int, cv));
                assert forall|k: int| 0 <= k < keys@.len() implies #[trigger] keys@[k]@
                    == found@[k].completion@ by {
                    if k < j {
                        assert(keys@[k] == old_keys[k] && found@[k] == old_found[k]);
                    } else if k > j {
                        assert(keys@[k] == old_keys[k - 1] && found@[k] == old_found[k - 1]);
                    }
                }
                let t = candidates(base_v, fname@, entries@.take(i as int));
                assert(t.push(cv).drop_last() =~= t);
                assert(candidate(base_v, fname@, entries@[i as int].0@, dir) == Some(cv));
            }
        }
        i = i + 1;
    }
    assert(entries@.take(n as int) =~= entries@);
    found
}

} // verus!

verus! {

proof fn lemma_last_separator(s: Seq<char>, j: int)
    requires
        0 <= j <= s.len(),
    ensures
        last_separator(s, j) matches Some(p) ==> 0 <= p < j && s[p] == SEPARATOR && forall|k: int|
            p < k < j ==> s[k] != SEPARATOR,
        last_separator(s, j) is None ==> forall|k: int| 0 <= k < j ==> s[k] != SEPARATOR,
    decreases j,
{
    if j > 0 && s[j - 1] != SEPARATOR {
        lemma_last_separator(s, j - 1);
    }
}

/// Splitting a path loses nothing: the directory, a separator and the name
/// give the path back, and the name holds no separator.
pub proof fn lemma_split_path_rejoins(s: Seq<char>)
    ensures
        match split_path_text(s) {
            (Some(d), name) => d + seq![SEPARATOR] + name == s && !name.contains(SEPARATOR),
            (None, name) => name == s && !s.contains(SEPARATOR),
        },
{
    lemma_last_separator(s, s.len() as int);
    match last_separator(s, s.len() as int) {
        Some(p) => {
            assert(s.take(p) + seq![SEPARATOR] + s.skip(p + 1) =~= s);
            if s.skip(p + 1).contains(SEPARATOR) {
                let t = s.skip(p + 1);
                let k = choose|k: int| 0 <= k < t.len() && #[trigger] t[k] == SEPARATOR;
                assert(s[p + 1 + k] == SEPARATOR);
            }
        },
        None => {
            if s.contains(SEPARATOR) {
                let k = choose|k: int| 0 <= k < s.len() && #[trigger] s[k] == SEPARATOR;
                assert(s[k] != SEPARATOR);
            }
        },
    }
}

} // verus!
