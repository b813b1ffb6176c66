//! Utility functions to support MPEG4 display and use: the stack of open
//! containers met while walking the boxes of a buffer, and indentation.
use crate::mpeg4::boxes::box_types::{four_cc_text, header_size_of, BoxType, ContainerType};
use crate::mpeg4::boxes::{boxes_of, container_skip, parse_box, BoxView, MP4Box};
use crate::text::{chars_to_string, push_all};
use vstd::prelude::*;

verus! {

/// Counts the bytes met so far inside an open container box: `size` is the
/// container's size, `count` the bytes of it accounted for.
#[derive(Debug, Clone, Copy, PartialEq, Eq, Structural)]
pub struct BoxCounter {
    pub size: usize,
    pub count: usize,
    pub box_type: BoxType,
}

/// A stack of BoxCounters used to capture containers and when they have been
/// filled. This is useful for understanding the context in which a box has
/// been found (the path to the box).
#[derive(Debug)]
pub struct LevelStack {
    levels: Vec<BoxCounter>,
}

impl View for LevelStack {
    type V = Seq<BoxCounter>;

    closed spec fn view(&self) -> Seq<BoxCounter> {
        self.levels@
    }
}

/// Bytes that a box of `size` takes from the container on top of the stack:
/// its size, plus, for a special container, the data that container holds.
pub open spec fn level_bump(levels: Seq<BoxCounter>, size: nat) -> Seq<BoxCounter> {
    if levels.len() == 0 {
        levels
    } else {
        let last = levels.last();
        levels.update(
            levels.len() - 1,
            BoxCounter {
                count: (last.count + size + container_skip(last.box_type.box_spec().container)) as usize,
                ..last
            },
        )
    }
}

/// Whether a box of `size` can be counted into the top of the stack without
/// the count leaving `usize`.
pub open spec fn can_add(levels: Seq<BoxCounter>, size: nat) -> bool {
    levels.len() > 0 ==> levels.last().count + size + container_skip(
        levels.last().box_type.box_spec().container,
    ) <= usize::MAX
}

/// The stack after adding box `b`: its size counts against the top container,
/// and a container box is pushed with its header already counted.
pub open spec fn level_add(levels: Seq<BoxCounter>, b: BoxView) -> Seq<BoxCounter> {
    let l = level_bump(levels, b.size as nat);
    if b.box_type.box_spec().container != ContainerType::NotContainer {
        l.push(
            BoxCounter {
                size: b.size as usize,
                count: header_size_of(b.box_type.box_spec()) as usize,
                box_type: b.box_type,
            },
        )
    } else {
        l
    }
}

/// Whether the container on top of the stack has been filled.
pub open spec fn top_complete(levels: Seq<BoxCounter>) -> bool {
    levels.len() > 0 && levels.last().size == levels.last().count
}

/// The stack once every filled container on top has been taken off.
pub open spec fn level_complete(levels: Seq<BoxCounter>) -> Seq<BoxCounter>
    decreases levels.len(),
{
    if top_complete(levels) {
        level_complete(levels.drop_last())
    } else {
        levels
    }
}

/// The path of the stack, `/` followed by the four character codes of the
/// open containers joined by `/`.
pub open spec fn path_text(levels: Seq<BoxCounter>) -> Seq<char>
    decreases levels.len(),
{
    if levels.len() == 0 {
        seq!['/']
    } else if levels.len() == 1 {
        seq!['/'] + four_cc_text(levels[0].box_type.box_spec().bt_id)
    } else {
        path_text(levels.drop_last()) + seq!['/'] + four_cc_text(
            levels.last().box_type.box_spec().bt_id,
        )
    }
}

impl LevelStack {
    /// An empty stack.
    pub fn new() -> (r: LevelStack)
        ensures
            r@ == Seq::<BoxCounter>::empty(),
    {
        LevelStack { levels: Vec::new() }
    }

    /// Add a box and calculate its impact on the stack:
    /// 1. The count of the current container grows by the size of the new box
    ///    (and, for a special container, by the data it holds).
    /// 2. A container is pushed to account for the boxes it encloses; its
    ///    header counts as read.
    /// 3. With no container on the stack a box that is not a container leaves
    ///    it unchanged.
    pub fn add_box(&mut self, b: MP4Box)
        requires
            can_add(old(self)@, b@.size as nat),
        ensures
            final(self)@ == level_add(old(self)@, b@),
    {
        let n = self.levels.len();
        if n > 0 {
            let mut last = self.levels[n - 1];
            let skip: usize = match last.box_type.spec().container {
                ContainerType::Special(v) => v,
                _ => 0,
            };
            last.count = last.count + b.size as usize + skip;
            self.levels.set(n - 1, last);
        }
        if b.box_type.is_container() {
            let h = b.box_type.header_size();
            self.push_new(b.size as usize, h, b.box_type);
        }
    }

    fn push_new(&mut self, sz: usize, header: usize, bt: BoxType)
        ensures
            final(self)@ == old(self)@.push(BoxCounter { size: sz, count: header, box_type: bt }),
    {
        self.levels.push(BoxCounter { size: sz, count: header, box_type: bt });
    }

    /// Determine if the container at the top of the stack has been completed,
    /// and if so remove it from the stack. Continue until one is found that is
    /// not complete or the stack is empty.
    pub fn check_and_complete(&mut self)
        ensures
            final(self)@ == level_complete(old(self)@),
    {
        while self.complete()
            invariant
                level_complete(self@) == level_complete(old(self)@),
            decreases self@.len(),
        {
            self.pop();
        }
    }

    /// Whether a box of `size` bytes can be counted against the container on
    /// top of the stack without the count overflowing.
    pub fn has_room(&self, size: u32) -> (r: bool)
        ensures
            r == can_add(self@, size as nat),
    {
        let n = self.levels.len();
        if n == 0 {
            return true;
        }
        let last = self.levels[n - 1];
        let skip: usize = match last.box_type.spec().container {
            ContainerType::Special(v) => v,
            _ => 0,
        };
        let room = usize::MAX - last.count;
        (size as usize) <= room && skip <= room - (size as usize)
    }

    /// Check if the top container is complete, and if so remove it and
    /// continue checking. Returns the containers taken off, in the order they
    /// were taken (the innermost first): one entry for each container
    /// completed, for the caller to act on (e.g. to manage indentation).
    pub fn check_and_complete_with(&mut self) -> (done: Vec<BoxCounter>)
        ensures
            final(self)@ == level_complete(old(self)@),
            done@ == old(self)@.skip(final(self)@.len() as int).reverse(),
    {
        let mut done: Vec<BoxCounter> = Vec::new();
        proof {
            lemma_complete_is_prefix(old(self)@);
            assert(old(self)@.skip(old(self)@.len() as int) =~= Seq::<BoxCounter>::empty());
        }
        while self.complete()
            invariant
                level_complete(self@) == level_complete(old(self)@),
                self@ == old(self)@.take(self@.len() as int),
                self@.len() <= old(self)@.len(),
                done@ == old(self)@.skip(self@.len() as int).reverse(),
            decreases self@.len(),
        {
            let ghost before = self@;
            let c = self.pop();
            match c {
                Some(x) => {
                    done.push(x);
                },
                None => {},
            }
            proof {
                assert(self@ =~= old(self)@.take(self@.len() as int));
                assert(old(self)@.skip(self@.len() as int) =~= seq![before.last()] + old(
                    self,
                )@.skip(before.len() as int));
                assert(done@ =~= old(self)@.skip(self@.len() as int).reverse());
            }
        }
        done
    }

    /// Get the top box counter from the stack, to change it.
    pub fn top_mut(&mut self) -> (r: Option<&mut BoxCounter>)
        ensures
            old(self)@.len() == 0 ==> r is None && final(self)@ == old(self)@,
            old(self)@.len() > 0 ==> (r matches Some(c) && *c == old(self)@.last() && final(self)@
                == old(self)@.update(old(self)@.len() - 1, *final(c))),
    {
        let n = self.levels.len();
        if n > 0 {
            Some(&mut self.levels[n - 1])
        } else {
            None
        }
    }

    /// Convenience function to add a new box and immediately check for completion.
    pub fn update(&mut self, b: MP4Box)
        requires
            can_add(old(self)@, b@.size as nat),
        ensures
            final(self)@ == level_complete(level_add(old(self)@, b@)),
    {
        self.add_box(b);
        self.check_and_complete();
    }

    /// Has the container on the top of the stack been completed?
    /// Practically this means if the size is equal to the count.
    pub fn complete(&self) -> (r: bool)
        ensures
            r == top_complete(self@),
    {
        let n = self.levels.len();
        if n > 0 {
            let last = &self.levels[n - 1];
            last.size == last.count
        } else {
            false
        }
    }

    /// Take the top box off the stack.
    pub fn pop(&mut self) -> (r: Option<BoxCounter>)
        ensures
            old(self)@.len() == 0 ==> r is None && final(self)@ == old(self)@,
            old(self)@.len() > 0 ==> r == Some(old(self)@.last()) && final(self)@ == old(
                self,
            )@.drop_last(),
    {
        self.levels.pop()
    }

    /// Get the top box counter from the stack.
    pub fn top(&self) -> (r: Option<&BoxCounter>)
        ensures
            self@.len() == 0 ==> r is None,
            self@.len() > 0 ==> r == Some(&self@.last()),
    {
        let n = self.levels.len();
        if n > 0 {
            Some(&self.levels[n - 1])
        } else {
            None
        }
    }

    /// How many box counters are on the stack.
    pub fn len(&self) -> (r: usize)
        ensures
            r == self@.len(),
    {
        self.levels.len()
    }

    /// Whether the stack is empty.
    pub fn is_empty(&self) -> (r: bool)
        ensures
            r == (self@.len() == 0),
    {
        self.len() == 0
    }

    /// The four character codes of the open containers, bottom first.
    pub fn path(&self) -> (r: Vec<String>)
        ensures
            r@.len() == self@.len(),
            forall|i: int|
                0 <= i < self@.len() ==> #[trigger] r@[i]@ == four_cc_text(
                    self@[i].box_type.box_spec().bt_id,
                ),
    {
        let mut v: Vec<String> = Vec::new();
        let n = self.levels.len();
        let mut i: usize = 0;
        while i < n
            invariant
                n == self@.len(),
                i <= n,
                v@.len() == i,
                forall|j: int|
                    0 <= j < i ==> #[trigger] v@[j]@ == four_cc_text(
                        self@[j].box_type.box_spec().bt_id,
                    ),
            decreases n - i,
        {
            v.push(self.levels[i].box_type.four_cc());
            i = i + 1;
        }
        v
    }

    /// A string representation of the path (see `path_text`).
    pub fn path_string(&self) -> (r: String)
        ensures
            r@ == path_text(self@),
    {
        let parts = self.path();
        let mut out: Vec<char> = Vec::new();
        out.push('/');
        let n = parts.len();
        let mut i: usize = 0;
        while i < n
            invariant
                n == self@.len(),
                parts@.len() == n,
                forall|j: int|
                    0 <= j < n ==> #[trigger] parts@[j]@ == four_cc_text(
                        self@[j].box_type.box_spec().bt_id,
                    ),
                i <= n,
                i == 0 ==> out@ == seq!['/'],
                i > 0 ==> out@ == path_text(self@.take(i as int)),
            decreases n - i,
        {
            if i > 0 {
                out.push('/');
            }
            let cs = crate::text::str_chars(parts[i].as_str());
            push_all(&mut out, cs.as_slice());
            proof {
                let t = self@.take(i + 1);
                assert(t.drop_last() =~= self@.take(i as int));
                assert(t.last() == self@[i as int]);
                if i == 0 {
                    assert(out@ =~= path_text(t));
                } else {
                    assert(out@ =~= path_text(t));
                }
            }
            i = i + 1;
        }
        proof {
            if n == 0 {
                assert(path_text(self@) == seq!['/']);
            } else {
                assert(self@.take(n as int) =~= self@);
            }
        }
        chars_to_string(out.as_slice())
    }
}

impl Default for LevelStack {
    fn default() -> (r: LevelStack)
        ensures
            r@ == Seq::<BoxCounter>::empty(),
    {
        LevelStack::new()
    }
}

/// After completion no filled container is left on top of the stack.
pub proof fn lemma_complete_leaves_open_top(levels: Seq<BoxCounter>)
    ensures
        !top_complete(level_complete(levels)),
    decreases levels.len(),
{
    if top_complete(levels) {
        lemma_complete_leaves_open_top(levels.drop_last());
    }
}

/// Completion only takes containers off the top: it leaves a prefix of the stack.
pub proof fn lemma_complete_is_prefix(levels: Seq<BoxCounter>)
    ensures
        level_complete(levels).len() <= levels.len(),
        level_complete(levels) == levels.take(level_complete(levels).len() as int),
    decreases levels.len(),
{
    if top_complete(levels) {
        lemma_complete_is_prefix(levels.drop_last());
        assert(levels.drop_last().take(level_complete(levels).len() as int) =~= levels.take(
            level_complete(levels).len() as int,
        ));
    } else {
        assert(levels.take(levels.len() as int) =~= levels);
    }
}

/// A container filled by a single box that is not a container closes as soon
/// as that box is added: the stack ends as if the container had been a plain
/// box of the same size.
pub proof fn lemma_filled_container_closes(levels: Seq<BoxCounter>, c: BoxView, x: BoxView)
    requires
        !top_complete(levels),
        can_add(levels, c.size as nat),
        c.box_type.box_spec().container == ContainerType::Container,
        c.size > header_size_of(c.box_type.box_spec()),
        x.box_type.box_spec().container == ContainerType::NotContainer,
        x.size + header_size_of(c.box_type.box_spec()) == c.size,
    ensures
        can_add(level_complete(level_add(levels, c)), x.size as nat),
        level_complete(level_add(level_complete(level_add(levels, c)), x)) == level_complete(
            level_bump(levels, c.size as nat),
        ),
{
    let l1 = level_add(levels, c);
    assert(!top_complete(l1));
    assert(level_complete(l1) == l1);
    let l2 = level_add(l1, x);
    assert(l2.drop_last() =~= level_bump(levels, c.size as nat));
    assert(top_complete(l2));
}

/// Tabs: a helper for indenting and outdenting. Defaults to tabs, but
/// could be used to add any single char.
#[derive(Debug)]
pub struct Tabs {
    t: Vec<char>,
    c: char,
}

impl View for Tabs {
    type V = (Seq<char>, char);

    closed spec fn view(&self) -> (Seq<char>, char) {
        (self.t@, self.c)
    }
}

impl Tabs {
    /// No indentation, indenting with tabs.
    pub fn new() -> (r: Tabs)
        ensures
            r@ == (Seq::<char>::empty(), '\t'),
    {
        Tabs { t: Vec::new(), c: '\t' }
    }

    /// No indentation, indenting with `ch`.
    pub fn new_with(ch: char) -> (r: Tabs)
        ensures
            r@ == (Seq::<char>::empty(), ch),
    {
        Tabs { t: Vec::new(), c: ch }
    }

    /// One level more.
    pub fn indent(&mut self)
        ensures
            final(self)@ == (old(self)@.0.push(old(self)@.1), old(self)@.1),
    {
        let c = self.c;
        self.t.push(c);
    }

    /// One level less (nothing at no indentation).
    pub fn outdent(&mut self)
        ensures
            old(self)@.0.len() == 0 ==> final(self)@ == old(self)@,
            old(self)@.0.len() > 0 ==> final(self)@ == (old(self)@.0.drop_last(), old(self)@.1),
    {
        self.t.pop();
    }

    /// The indentation as text.
    pub fn to_string(&self) -> (r: String)
        ensures
            r@ == self@.0,
    {
        chars_to_string(self.t.as_slice())
    }
}

/// Outdenting undoes indenting.
pub proof fn lemma_outdent_undoes_indent(before: (Seq<char>, char), after: (Seq<char>, char))
    requires
        after == (before.0.push(before.1), before.1),
    ensures
        after.0.len() > 0,
        (after.0.drop_last(), after.1) == before,
{
    assert(after.0.drop_last() =~= before.0);
}

} // verus!

verus! {

/// The character shown for byte `b` in a dump: the byte itself when it is a
/// visible ASCII character (alphanumeric or punctuation), a dot otherwise.
pub open spec fn shown_byte(b: u8) -> char {
    if 33 <= b <= 126 {
        b as char
    } else {
        '.'
    }
}

/// Byte `b` as two lower-case hex digits.
pub open spec fn hex2(b: u8) -> Seq<char> {
    seq![crate::text::hex_char((b / 16) as nat), crate::text::hex_char((b % 16) as nat)]
}

/// The dump of the first `i` bytes of `buf`, and the characters shown for
/// the line under way: sixteen bytes a line in groups of four, each line
/// ended by the characters of its bytes.
pub open spec fn dump_from(buf: Seq<u8>, i: nat) -> (Seq<char>, Seq<char>)
    decreases i,
{
    if i == 0 || i > buf.len() {
        (Seq::empty(), Seq::empty())
    } else {
        let (o, a) = dump_from(buf, (i - 1) as nat);
        let k = (i - 1) as nat;
        let (o1, a1) = if k % 16 == 0 && k != 0 {
            (o + "  "@ + a + "\n"@, Seq::<char>::empty())
        } else {
            (o, a)
        };
        let (o2, a2) = if k % 4 == 0 {
            (o1 + " "@, a1 + " "@)
        } else {
            (o1, a1)
        };
        (o2 + hex2(buf[k as int]) + " "@, a2.push(shown_byte(buf[k as int])))
    }
}

/// The hex dump of `buf`: the bytes in hex, and at the end of the last line
/// the padding to a full line followed by the characters of its bytes.
pub open spec fn dump_text(buf: Seq<u8>) -> Seq<char> {
    let (o, a) = dump_from(buf, buf.len());
    let left = (16 - buf.len() % 16) as nat;
    o + Seq::new(3 * left, |_i: int| ' ') + "   "@ + a + "\n"@
}

fn push_hex2(out: &mut Vec<char>, b: u8)
    ensures
        final(out)@ == old(out)@ + hex2(b),
{
    let hi = b / 16;
    let lo = b % 16;
    let c1: char = if hi < 10 {
        (hi + 48) as char
    } else {
        (hi + 87) as char
    };
    let c2: char = if lo < 10 {
        (lo + 48) as char
    } else {
        (lo + 87) as char
    };
    out.push(c1);
    out.push(c2);
    assert(final(out)@ =~= old(out)@ + hex2(b));
}

/// A hex dump of the buffer (see `dump_text`).
pub fn dump_buffer(buf: &[u8]) -> (r: String)
    ensures
        r@ == dump_text(buf@),
{
    let mut out: Vec<char> = Vec::new();
    let mut ascii: Vec<char> = Vec::new();
    let n = buf.len();
    let mut i: usize = 0;
    proof {
        reveal_strlit("  ");
        reveal_strlit("\n");
        reveal_strlit(" ");
        reveal_strlit("   ");
    }
    assert(dump_from(buf@, 0) == (Seq::<char>::empty(), Seq::<char>::empty()));
    while i < n
        invariant
            n == buf@.len(),
            i <= n,
            out@ == dump_from(buf@, i as nat).0,
            ascii@ == dump_from(buf@, i as nat).1,
        decreases n - i,
    {
        let ghost o0 = out@;
        let ghost a0 = ascii@;
        let ghost o1: Seq<char>;
        let ghost a1: Seq<char>;
        if i % 16 == 0 && i != 0 {
            out.push(' ');
            out.push(' ');
            push_all(&mut out, ascii.as_slice());
            out.push('\n');
            ascii = Vec::new();
            proof {
                reveal_strlit("  ");
                reveal_strlit("\n");
                o1 = o0 + "  "@ + a0 + "\n"@;
                a1 = Seq::<char>::empty();
                assert(out@ =~= o1);
                assert(ascii@ =~= a1);
            }
        } else {
            proof {
                o1 = o0;
                a1 = a0;
            }
        }
        let ghost o2: Seq<char>;
        let ghost a2: Seq<char>;
        if i % 4 == 0 {
            out.push(' ');
            ascii.push(' ');
            proof {
                reveal_strlit(" ");
                o2 = o1 + " "@;
                a2 = a1 + " "@;
                assert(out@ =~= o2);
                assert(ascii@ =~= a2);
            }
        } else {
            proof {
                o2 = o1;
                a2 = a1;
            }
        }
        let b = buf[i];
        push_hex2(&mut out, b);
        out.push(' ');
        if 33 <= b && b <= 126 {
            ascii.push(b as char);
        } else {
            ascii.push('.');
        }
        proof {
            reveal_strlit(" ");
            assert(out@ =~= o2 + hex2(b) + " "@);
            assert(ascii@ =~= a2.push(shown_byte(b)));
            assert(dump_from(buf@, (i + 1) as nat) == (o2 + hex2(b) + " "@, a2.push(shown_byte(b))));
        }
        i = i + 1;
    }
    let left = 16 - n % 16;
    let mut k: usize = 0;
    let ghost o = out@;
    while k < left
        invariant
            k <= left,
            left <= 16,
            out@ == o + Seq::new(3 * (k as nat), |_i: int| ' '),
        decreases left - k,
    {
        out.push(' ');
        out.push(' ');
        out.push(' ');
        assert(out@ =~= o + Seq::new(3 * ((k + 1) as nat), |_i: int| ' '));
        k = k + 1;
    }
    out.push(' ');
    out.push(' ');
    out.push(' ');
    push_all(&mut out, ascii.as_slice());
    out.push('\n');
    assert(out@ =~= dump_text(buf@));
    chars_to_string(out.as_slice())
}

} // verus!

verus! {

/// How a box counter is shown: its code (quoted), size and count.
pub open spec fn counter_text(c: BoxCounter) -> Seq<char> {
    crate::text::debug_text(four_cc_text(c.box_type.box_spec().bt_id)) + " - Size: "@
        + crate::text::decimal(c.size as nat) + ", Count: "@ + crate::text::decimal(c.count as nat)
}

impl BoxCounter {
    /// The counter as shown (see `counter_text`).
    pub fn debug_text(&self) -> (r: String)
        ensures
            r@ == counter_text(*self),
    {
        let mut out: Vec<char> = Vec::new();
        let cc = self.box_type.four_cc();
        let q = crate::text::debug_quoted(cc.as_str());
        crate::text::push_str(&mut out, q.as_str());
        crate::text::push_str(&mut out, " - Size: ");
        crate::text::push_decimal(&mut out, self.size as u64);
        crate::text::push_str(&mut out, ", Count: ");
        crate::text::push_decimal(&mut out, self.count as u64);
        proof {
            reveal_strlit(" - Size: ");
            reveal_strlit(", Count: ");
        }
        assert(out@ =~= counter_text(*self));
        chars_to_string(out.as_slice())
    }
}

} // verus!

verus! {

/// Whether `s` holds exactly one well formed box: its header reads, its size
/// is the length of `s`, and what it encloses is well formed: for a
/// container, boxes that fill the rest of it (see `well_formed_boxes`); for
/// a special container, one box after its data (the stack counts that data
/// once for each box it encloses).
pub open spec fn well_formed_box(s: Seq<u8>) -> bool
    decreases s.len(), 0nat,
{
    match parse_box(s) {
        None => false,
        Some((v, next)) => v.size == s.len() && 0 < next && match v.box_type.box_spec().container {
            ContainerType::NotContainer => true,
            ContainerType::Container => well_formed_boxes(s.skip(next as int)),
            ContainerType::Special(_) => next < s.len() && well_formed_box(s.skip(next as int)),
        },
    }
}

/// Whether `s` is a run of well formed boxes that fills it exactly, as a well
/// formed file is.
pub open spec fn well_formed_boxes(s: Seq<u8>) -> bool
    decreases s.len(), 1nat,
{
    if s.len() == 0 {
        true
    } else {
        match parse_box(s) {
            None => false,
            Some((v, _)) => 0 < v.size <= s.len() && well_formed_box(s.take(v.size as int))
                && well_formed_boxes(s.skip(v.size as int)),
        }
    }
}

/// The stack after updating it (see `LevelStack::update`) with the boxes `bs`
/// in turn; `None` when a box does not fit into the count of the container on
/// top of the stack.
pub open spec fn stack_walk(l: Seq<BoxCounter>, bs: Seq<BoxView>) -> Option<Seq<BoxCounter>>
    decreases bs.len(),
{
    if bs.len() == 0 {
        Some(l)
    } else if can_add(l, bs[0].size as nat) {
        stack_walk(level_complete(level_add(l, bs[0])), bs.skip(1))
    } else {
        None
    }
}

proof fn lemma_stack_walk_concat(l: Seq<BoxCounter>, a: Seq<BoxView>, b: Seq<BoxView>)
    ensures
        stack_walk(l, a + b) == (match stack_walk(l, a) {
            Some(m) => stack_walk(m, b),
            None => None,
        }),
    decreases a.len(),
{
    if a.len() == 0 {
        assert(a + b =~= b);
    } else {
        assert((a + b)[0] == a[0]);
        assert((a + b).skip(1) =~= a.skip(1) + b);
        if can_add(l, a[0].size as nat) {
            lemma_stack_walk_concat(level_complete(level_add(l, a[0])), a.skip(1), b);
        }
    }
}

/// A well formed box read at the start of a longer buffer reads the same.
proof fn lemma_parse_prefix(s: Seq<u8>, t: Seq<u8>)
    requires
        parse_box(s) matches Some((v, _)) && v.size == s.len(),
    ensures
        parse_box(s + t) == parse_box(s),
{
    let u = s + t;
    assert(s.len() >= 8);
    assert(u[0] == s[0] && u[1] == s[1] && u[2] == s[2] && u[3] == s[3]);
    assert(u[4] == s[4] && u[5] == s[5] && u[6] == s[6] && u[7] == s[7]);
    let (v, _) = parse_box(s)->0;
    if v.box_type.box_spec().full {
        assert(s.len() >= 12);
        assert(u[8] == s[8] && u[9] == s[9] && u[10] == s[10] && u[11] == s[11]);
    }
    assert(u.take(v.size as int) =~= s.take(v.size as int));
}

/// The walk over a well formed box followed by more bytes is the walk over
/// the box, then over the bytes.
proof fn lemma_walk_box(s: Seq<u8>, t: Seq<u8>)
    requires
        well_formed_box(s),
    ensures
        boxes_of(s + t) == boxes_of(s) + boxes_of(t),
    decreases s.len(), 0nat,
{
    let (v, next) = parse_box(s)->0;
    lemma_parse_prefix(s, t);
    let u = s + t;
    match v.box_type.box_spec().container {
        ContainerType::NotContainer => {
            assert(u.skip(next as int) =~= t);
            assert(s.skip(next as int) =~= Seq::<u8>::empty());
            assert(boxes_of(Seq::<u8>::empty()) =~= Seq::<BoxView>::empty());
            assert(boxes_of(u) =~= seq![v] + boxes_of(t));
            assert(boxes_of(s) =~= seq![v]);
        },
        ContainerType::Container => {
            let inner = s.skip(next as int);
            assert(u.skip(next as int) =~= inner + t);
            lemma_walk_boxes(inner, t);
            assert(boxes_of(u) == seq![v] + boxes_of(inner + t));
            assert(boxes_of(s) == seq![v] + boxes_of(inner));
        },
        ContainerType::Special(_) => {
            let inner = s.skip(next as int);
            assert(u.skip(next as int) =~= inner + t);
            lemma_walk_box(inner, t);
            assert(boxes_of(u) == seq![v] + boxes_of(inner + t));
            assert(boxes_of(s) == seq![v] + boxes_of(inner));
        },
    }
}

proof fn lemma_walk_boxes(s: Seq<u8>, t: Seq<u8>)
    requires
        well_formed_boxes(s),
    ensures
        boxes_of(s + t) == boxes_of(s) + boxes_of(t),
    decreases s.len(), 1nat,
{
    if s.len() == 0 {
        assert(s + t =~= t);
        assert(boxes_of(s) =~= Seq::<BoxView>::empty());
    } else {
        let (v, _) = parse_box(s)->0;
        let n = v.size as int;
        let s1 = s.take(n);
        let s2 = s.skip(n);
        assert(s1 + s2 =~= s);
        assert(s1 + (s2 + t) =~= s + t);
        lemma_walk_box(s1, s2 + t);
        lemma_walk_box(s1, s2);
        lemma_walk_boxes(s2, t);
    }
}

/// Updating the stack with the boxes of one well formed box counts its size
/// into the container on top and takes off what that fills.
proof fn lemma_box_on_stack(s: Seq<u8>, l: Seq<BoxCounter>)
    requires
        well_formed_box(s),
        l.len() > 0 ==> l.last().count + s.len() + container_skip(l.last().box_type.box_spec().container)
            <= l.last().size,
    ensures
        stack_walk(l, boxes_of(s)) == Some(level_complete(level_bump(l, s.len()))),
    decreases s.len(), 0nat,
{
    let (v, next) = parse_box(s)->0;
    let bl = level_bump(l, s.len());
    assert(can_add(l, v.size as nat));
    let hdr = header_size_of(v.box_type.box_spec());
    match v.box_type.box_spec().container {
        ContainerType::NotContainer => {
            assert(s.skip(next as int) =~= Seq::<u8>::empty());
            assert(boxes_of(Seq::<u8>::empty()) =~= Seq::<BoxView>::empty());
            assert(boxes_of(s) =~= seq![v]);
            assert(seq![v].skip(1) =~= Seq::<BoxView>::empty());
            assert(level_add(l, v) == bl);
            assert(stack_walk(l, seq![v]) == stack_walk(level_complete(bl), Seq::<BoxView>::empty()));
        },
        ContainerType::Container => {
            let inner = s.skip(next as int);
            let c = BoxCounter { size: v.size as usize, count: hdr as usize, box_type: v.box_type };
            assert(level_add(l, v) == bl.push(c));
            assert(boxes_of(s) == seq![v] + boxes_of(inner));
            assert(seq![v] + boxes_of(inner) =~= seq![v] + boxes_of(inner));
            lemma_stack_walk_concat(l, seq![v], boxes_of(inner));
            assert(seq![v].skip(1) =~= Seq::<BoxView>::empty());
            assert(bl.push(c).drop_last() =~= bl);
            assert(stack_walk(l, seq![v]) == stack_walk(
                level_complete(bl.push(c)),
                Seq::<BoxView>::empty(),
            ));
            if inner.len() == 0 {
                assert(boxes_of(inner) =~= Seq::<BoxView>::empty());
                assert(top_complete(bl.push(c)));
                assert(level_complete(bl.push(c)) == level_complete(bl));
            } else {
                assert(!top_complete(bl.push(c)));
                assert(level_complete(bl.push(c)) == bl.push(c));
                lemma_children_on_stack(inner, bl, c);
            }
        },
        ContainerType::Special(k) => {
            let inner = s.skip(next as int);
            let c = BoxCounter { size: v.size as usize, count: hdr as usize, box_type: v.box_type };
            let l2 = bl.push(c);
            assert(level_add(l, v) == l2);
            assert(boxes_of(s) == seq![v] + boxes_of(inner));
            lemma_stack_walk_concat(l, seq![v], boxes_of(inner));
            assert(seq![v].skip(1) =~= Seq::<BoxView>::empty());
            assert(!top_complete(l2));
            assert(stack_walk(l, seq![v]) == stack_walk(level_complete(l2), Seq::<BoxView>::empty()));
            assert(level_complete(l2) == l2);
            lemma_box_on_stack(inner, l2);
            let l3 = level_bump(l2, inner.len());
            assert(top_complete(l3));
            assert(l3.drop_last() =~= bl);
            assert(level_complete(l3) == level_complete(bl));
        },
    }
}

/// Updating the stack with the boxes of a well formed run that fills the rest
/// of the (plain) container `c` on top closes it.
proof fn lemma_children_on_stack(s: Seq<u8>, x: Seq<BoxCounter>, c: BoxCounter)
    requires
        well_formed_boxes(s),
        s.len() > 0,
        c.box_type.box_spec().container == ContainerType::Container,
        c.count + s.len() == c.size,
    ensures
        stack_walk(x.push(c), boxes_of(s)) == Some(level_complete(x)),
    decreases s.len(), 1nat,
{
    let (v, _) = parse_box(s)->0;
    let n = v.size as int;
    let s1 = s.take(n);
    let s2 = s.skip(n);
    assert(s1 + s2 =~= s);
    lemma_walk_box(s1, s2);
    let l = x.push(c);
    assert(l.last() == c);
    lemma_stack_walk_concat(l, boxes_of(s1), boxes_of(s2));
    lemma_box_on_stack(s1, l);
    let c2 = BoxCounter { count: (c.count + n) as usize, ..c };
    assert(level_bump(l, s1.len()) =~= x.push(c2));
    assert(x.push(c2).drop_last() =~= x);
    if s2.len() == 0 {
        assert(boxes_of(s2) =~= Seq::<BoxView>::empty());
    } else {
        assert(!top_complete(x.push(c2)));
        lemma_children_on_stack(s2, x, c2);
    }
}

/// The stack after adding each box of `bs` in turn and completing (as
/// `LevelStack::update` does), overflow aside.
pub open spec fn stack_fold(l: Seq<BoxCounter>, bs: Seq<BoxView>) -> Seq<BoxCounter>
    decreases bs.len(),
{
    if bs.len() == 0 {
        l
    } else {
        stack_fold(level_complete(level_add(l, bs[0])), bs.skip(1))
    }
}

proof fn lemma_walk_is_fold(l: Seq<BoxCounter>, bs: Seq<BoxView>)
    requires
        stack_walk(l, bs) is Some,
    ensures
        stack_fold(l, bs) == stack_walk(l, bs)->0,
    decreases bs.len(),
{
    if bs.len() > 0 {
        lemma_walk_is_fold(level_complete(level_add(l, bs[0])), bs.skip(1));
    }
}

/// Updating a `LevelStack` that starts empty (`LevelStack::new`) with every
/// box of a well formed file (`LevelStack::update`, each box in the order
/// `MP4Buffer::next` meets it, see `boxes_of`) never overflows a count, so
/// every update may be made, and leaves the stack empty: every container is
/// closed.
pub proof fn lemma_well_formed_file_closes(s: Seq<u8>)
    requires
        well_formed_boxes(s),
    ensures
        stack_walk(Seq::empty(), boxes_of(s)) == Some(Seq::<BoxCounter>::empty()),
        stack_fold(Seq::empty(), boxes_of(s)) == Seq::<BoxCounter>::empty(),
    decreases s.len(),
{
    lemma_walk_closes(s);
    lemma_walk_is_fold(Seq::empty(), boxes_of(s));
}

proof fn lemma_walk_closes(s: Seq<u8>)
    requires
        well_formed_boxes(s),
    ensures
        stack_walk(Seq::empty(), boxes_of(s)) == Some(Seq::<BoxCounter>::empty()),
    decreases s.len(),
{
    if s.len() == 0 {
        assert(boxes_of(s) =~= Seq::<BoxView>::empty());
    } else {
        let (v, _) = parse_box(s)->0;
        let n = v.size as int;
        let s1 = s.take(n);
        let s2 = s.skip(n);
        assert(s1 + s2 =~= s);
        lemma_walk_box(s1, s2);
        lemma_stack_walk_concat(Seq::empty(), boxes_of(s1), boxes_of(s2));
        lemma_box_on_stack(s1, Seq::empty());
        assert(level_bump(Seq::<BoxCounter>::empty(), s1.len()) =~= Seq::<BoxCounter>::empty());
        lemma_walk_closes(s2);
    }
}

} // verus!
