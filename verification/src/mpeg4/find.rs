//! Searching for a box in an MPEG4 buffer by a path of box types.
use crate::mpeg4::boxes::{be32, boxes_of, lemma_parse_box_step, parse_box, read_u32, BoxView, MP4Box, MP4Buffer};
use vstd::prelude::*;
use vstd::string::StringSliceAdditionalSpecFns;

verus! {

/// `s` split at every `sep` byte, as `str::split` does: always at least one
/// (possibly empty) segment.
pub open spec fn split_bytes(s: Seq<u8>, sep: u8) -> Seq<Seq<u8>>
    decreases s.len(),
{
    if s.len() == 0 {
        seq![Seq::<u8>::empty()]
    } else {
        let prev = split_bytes(s.drop_last(), sep);
        if s.last() == sep {
            prev.push(Seq::<u8>::empty())
        } else {
            prev.update(prev.len() - 1, prev.last().push(s.last()))
        }
    }
}

/// The segments of a path: those between `/` bytes, a leading empty one dropped.
#[verifier::opaque]
pub open spec fn path_segments(path: Seq<u8>) -> Seq<Seq<u8>> {
    let segs0 = split_bytes(path, 0x2f);
    if segs0[0].len() == 0 {
        segs0.drop_first()
    } else {
        segs0
    }
}

/// The box ids named by path segments: each segment names the box whose four
/// character code is its first four bytes. `None` when there is no segment, or
/// a segment is shorter than four bytes.
pub open spec fn segment_ids(segs: Seq<Seq<u8>>) -> Option<Seq<u32>> {
    if segs.len() == 0 {
        None
    } else if exists|i: int| 0 <= i < segs.len() && #[trigger] segs[i].len() < 4 {
        None
    } else {
        Some(Seq::new(segs.len(), |i: int| be32(segs[i], 0) as u32))
    }
}

/// The box types a path names, in order (see `path_segments` and `segment_ids`).
pub open spec fn path_ids(path: Seq<u8>) -> Option<Seq<u32>> {
    segment_ids(path_segments(path))
}

/// Walking `boxes` with the path position `k`: each box whose code is the
/// next one of the path moves the position on, and the box that completes the
/// path is the result.
pub open spec fn find_in(boxes: Seq<BoxView>, ids: Seq<u32>, k: nat) -> Option<BoxView>
    decreases boxes.len(),
{
    if boxes.len() == 0 || k >= ids.len() {
        None
    } else if boxes[0].box_type.box_spec().bt_id == ids[k as int] {
        if k + 1 == ids.len() {
            Some(boxes[0])
        } else {
            find_in(boxes.drop_first(), ids, k + 1)
        }
    } else {
        find_in(boxes.drop_first(), ids, k)
    }
}

/// The box `find_box` finds for `path` in `buf`.
pub open spec fn find_box_spec(path: Seq<u8>, buf: Seq<u8>) -> Option<BoxView> {
    match path_ids(path) {
        None => None,
        Some(ids) => find_in(boxes_of(buf), ids, 0),
    }
}

/// One step of the walk: the first box, then the walk from the next header.
pub proof fn lemma_boxes_of_unfold(s: Seq<u8>)
    ensures
        parse_box(s) is None ==> boxes_of(s).len() == 0,
        parse_box(s) matches Some((v, next)) ==> boxes_of(s).len() > 0 && boxes_of(s)[0] == v
            && boxes_of(s).drop_first() == boxes_of(s.skip(next as int)) && s.skip(
            next as int,
        ).len() < s.len(),
{
    lemma_parse_box_step(s);
    if let Some((v, next)) = parse_box(s) {
        assert(boxes_of(s) == seq![v] + boxes_of(s.skip(next as int)));
        assert((seq![v] + boxes_of(s.skip(next as int))).drop_first() =~= boxes_of(
            s.skip(next as int),
        ));
    }
}

proof fn lemma_split_nonempty(s: Seq<u8>, sep: u8)
    ensures
        split_bytes(s, sep).len() >= 1,
    decreases s.len(),
{
    if s.len() > 0 {
        lemma_split_nonempty(s.drop_last(), sep);
    }
}

/// The bounds of the segments of `path` between `/` bytes.
fn segment_bounds(path: &[u8]) -> (r: Vec<(usize, usize)>)
    ensures
        r@.len() == split_bytes(path@, 0x2f).len(),
        forall|j: int| 0 <= j < r@.len() ==> #[trigger] r@[j].0 <= r@[j].1 && r@[j].1 <= path@.len(),
        forall|j: int|
            0 <= j < r@.len() ==> #[trigger] split_bytes(
                path@,
                0x2f,
            )[j] == path@.subrange(r@[j].0 as int, r@[j].1 as int),
{
    let n = path.len();
    let mut bounds: Vec<(usize, usize)> = Vec::new();
    let mut start: usize = 0;
    let mut i: usize = 0;
    assert(path@.take(0) =~= Seq::<u8>::empty());
    while i < n
        invariant
            n == path@.len(),
            start <= i <= n,
            bounds@.len() + 1 == split_bytes(path@.take(i as int), 0x2f).len(),
            forall|j: int| 0 <= j < bounds@.len() ==> #[trigger] bounds@[j].0 <= bounds@[j].1 && bounds@[j].1 <= i,
            forall|j: int|
                0 <= j < bounds@.len() ==> #[trigger] split_bytes(
                    path@.take(i as int),
                    0x2f,
                )[j] == path@.subrange(bounds@[j].0 as int, bounds@[j].1 as int),
            split_bytes(path@.take(i as int), 0x2f).last() == path@.subrange(start as int, i as int),
        decreases n - i,
    {
        let ghost prev = split_bytes(path@.take(i as int), 0x2f);
        let ghost old_bounds = bounds@;
        assert(path@.take(i + 1).drop_last() =~= path@.take(i as int));
        assert(path@.take(i + 1).last() == path@[i as int]);
        let ghost next = split_bytes(path@.take(i + 1), 0x2f);
        if path[i] == 0x2f {
            assert(next == prev.push(Seq::<u8>::empty()));
            bounds.push((start, i));
            assert forall|j: int| 0 <= j < bounds@.len() implies #[trigger] bounds@[j].0 <= bounds@[j].1
                && bounds@[j].1 <= i + 1 by {
                if j < old_bounds.len() {
                    assert(bounds@[j] == old_bounds[j]);
                }
            }
            assert forall|j: int| 0 <= j < bounds@.len() implies #[trigger] next[j] == path@.subrange(bounds@[j].0 as int, bounds@[j].1 as int) by {
                if j < old_bounds.len() {
                    assert(next[j] == prev[j]);
                    assert(bounds@[j] == old_bounds[j]);
                } else {
                    assert(next[j] == prev.last());
                }
            }
            start = i + 1;
            assert(path@.subrange(start as int, i + 1) =~= Seq::<u8>::empty());
        } else {
            assert(next == prev.update(prev.len() - 1, prev.last().push(path@[i as int])));
            assert forall|j: int| 0 <= j < bounds@.len() implies #[trigger] next[j] == path@.subrange(bounds@[j].0 as int, bounds@[j].1 as int) by {
                assert(next[j] == prev[j]);
            }
            assert(path@.subrange(start as int, i + 1) =~= path@.subrange(start as int, i as int).push(
                path[i as int],
            ));
        }
        i = i + 1;
    }
    assert(path@.take(n as int) =~= path@);
    let ghost old_bounds = bounds@;
    let ghost all = split_bytes(path@, 0x2f);
    bounds.push((start, n));
    assert forall|j: int| 0 <= j < bounds@.len() implies #[trigger] all[j] == path@.subrange(bounds@[j].0 as int, bounds@[j].1 as int) by {
        if j < old_bounds.len() {
            assert(bounds@[j] == old_bounds[j]);
        }
    }
    bounds
}

/// The ids of the box types `path` names (see `path_ids`).
fn path_segment_ids(path: &[u8]) -> (r: Option<Vec<u32>>)
    ensures
        match path_ids(path@) {
            None => r is None,
            Some(ids) => r matches Some(v) && v@ == ids,
        },
{
    let bounds = segment_bounds(path);
    let ghost segs0 = split_bytes(path@, 0x2f);
    proof {
        lemma_split_nonempty(path@, 0x2f);
        reveal(path_segments);
    }
    let total = bounds.len();
    let off: usize = if bounds[0].0 == bounds[0].1 { 1 } else { 0 };
    let ghost segs = path_segments(path@);
    assert(segs.len() == total - off);
    assert forall|i: int| 0 <= i < segs.len() implies #[trigger] segs[i] == path@.subrange(
        bounds@[i + off].0 as int,
        bounds@[i + off].1 as int,
    ) && bounds@[i + off].0 <= bounds@[i + off].1 && bounds@[i + off].1 <= path@.len() by {
        assert(segs[i] == segs0[i + off]);
        assert(segs0[i + off] == path@.subrange(bounds@[i + off].0 as int, bounds@[i + off].1 as int));
    }
    if total == off {
        return None;
    }
    let mut ids: Vec<u32> = Vec::new();
    let mut j: usize = off;
    while j < total
        invariant
            total == bounds@.len(),
            off <= j <= total,
            segs.len() == total - off,
            path_ids(path@) == segment_ids(segs),
            forall|i: int|
                0 <= i < segs.len() ==> #[trigger] segs[i] == path@.subrange(
                    bounds@[i + off].0 as int,
                    bounds@[i + off].1 as int,
                ) && bounds@[i + off].0 <= bounds@[i + off].1 && bounds@[i + off].1 <= path@.len(),
            ids@.len() == j - off,
            forall|i: int| 0 <= i < j - off ==> #[trigger] segs[i].len() >= 4,
            forall|i: int| 0 <= i < j - off ==> #[trigger] ids@[i] == be32(segs[i], 0) as u32,
        decreases total - j,
    {
        let (a, b) = bounds[j];
        assert(a == bounds@[j as int].0 && b == bounds@[j as int].1);
        let ghost seg = segs[j - off];
        assert(seg == path@.subrange(a as int, b as int));
        if b - a < 4 {
            assert(segs[j - off].len() < 4);
            return None;
        }
        ids.push(read_u32(path, a));
        assert(be32(seg, 0) == be32(path@, a as int));
        j = j + 1;
    }
    assert(ids@ =~= Seq::new(segs.len(), |i: int| be32(segs[i], 0) as u32));
    Some(ids)
}

/// Searches for a box in an MPEG4 buffer.
///
/// Returns `None` if no such box is found, otherwise the box which matches the
/// last type in the path. A path is about finding a box through boxes of the
/// path's types met in order, with any number of other boxes in between; no
/// structural relation between them is implied.
pub fn find_box<'a>(path: &str, b: &'a [u8]) -> (r: Option<MP4Box<'a>>)
    ensures
        match find_box_spec(path.spec_bytes(), b@) {
            None => r is None,
            Some(v) => r matches Some(x) && x@ == v,
        },
{
    let ids = match path_segment_ids(path.as_bytes()) {
        None => return None,
        Some(ids) => ids,
    };
    let mut boxes = MP4Buffer { buf: b };
    let mut k: usize = 0;
    let n = ids.len();
    loop
        invariant
            n == ids@.len(),
            path_ids(path.spec_bytes()) == Some(ids@),
            n > 0,
            k < n,
            find_in(boxes_of(b@), ids@, 0) == find_in(boxes_of(boxes.buf@), ids@, k as nat),
        decreases boxes.buf@.len(),
    {
        proof {
            lemma_boxes_of_unfold(boxes.buf@);
        }
        let ghost cur = boxes.buf@;
        match boxes.next() {
            None => {
                return None;
            },
            Some(bx) => {
                let ghost bs = boxes_of(cur);
                assert(bs.len() > 0 && bs[0] == bx@);
                assert(bs.drop_first() == boxes_of(boxes.buf@));
                if bx.box_type.value() == ids[k] {
                    k = k + 1;
                    if k == n {
                        return Some(bx);
                    }
                }
            },
        }
    }
}

} // verus!
