//! Unix paths, as bytes.
use vstd::prelude::*;
use vstd::slice::{slice_subrange, slice_to_vec};
use vstd::utf8::*;

verus! {

/// The separator, `/`.
pub const SLASH: u8 = 47;

/// A full stop, `.`.
pub const DOT: u8 = 46;

/// Whether a path starts at the root.
pub open spec fn absolute(path: Seq<u8>) -> bool {
    path.len() > 0 && path[0] == SLASH
}

/// A path taken from where `base` leads.
pub open spec fn joined(base: Seq<u8>, path: Seq<u8>) -> Seq<u8> {
    if absolute(path) {
        path
    } else if base.len() > 0 && base.last() != SLASH {
        base.push(SLASH) + path
    } else {
        base + path
    }
}

/// Where the segment that starts at `pos` ends: before a separator, or where
/// the path does.
pub open spec fn segment_end(path: Seq<u8>, pos: int) -> int
    decreases path.len() - pos,
{
    if pos < 0 || pos >= path.len() {
        path.len() as int
    } else if path[pos] == SLASH {
        pos
    } else {
        segment_end(path, pos + 1)
    }
}

/// Whether a segment counts: an empty one does not, nor does `.`, unless the
/// path begins with it.
pub open spec fn counts(path: Seq<u8>, start: int, end: int) -> bool {
    start < end && !(start > 0 && end == start + 1 && path[start] == DOT)
}

/// Where the segments that count are, from `pos` on.
pub open spec fn segments(path: Seq<u8>, pos: int) -> Seq<(int, int)>
    decreases path.len() + 1 - pos,
{
    if pos < 0 || pos >= path.len() {
        Seq::empty()
    } else {
        proof {
            lemma_segment_end(path, pos);
        }
        let end = segment_end(path, pos);
        let here = if counts(path, pos, end) {
            seq![(pos, end)]
        } else {
            Seq::empty()
        };
        here + segments(path, end + 1)
    }
}

/// Where the components of a path are: the root, if it starts there, and the
/// segments that count.
pub open spec fn component_spans(path: Seq<u8>) -> Seq<(int, int)> {
    if absolute(path) {
        seq![(0int, 1int)] + segments(path, 1)
    } else {
        segments(path, 0)
    }
}

/// The components of a path.
pub open spec fn components(path: Seq<u8>) -> Seq<Seq<u8>> {
    let spans = component_spans(path);
    Seq::new(spans.len(), |i: int| path.subrange(spans[i].0, spans[i].1))
}

/// Two paths are the same if their components are.
pub open spec fn same(a: Seq<u8>, b: Seq<u8>) -> bool {
    components(a) == components(b)
}

/// A path without its last component. The root has no parent, nor has the
/// empty path.
pub open spec fn parent_of(path: Seq<u8>) -> Option<Seq<u8>> {
    let spans = component_spans(path);
    if spans.len() == 0 || (spans.len() == 1 && absolute(path)) {
        None
    } else if spans.len() == 1 {
        Some(Seq::empty())
    } else {
        Some(path.take(spans[spans.len() - 2].1))
    }
}

/// What the end of a segment means.
pub proof fn lemma_segment_end(path: Seq<u8>, pos: int)
    requires
        0 <= pos <= path.len(),
    ensures
        pos <= segment_end(path, pos) <= path.len(),
    decreases path.len() - pos,
{
    if pos < path.len() && path[pos] != SLASH {
        lemma_segment_end(path, pos + 1);
    }
}

/// Whether a path starts at the root.
pub fn is_absolute(path: &[u8]) -> (r: bool)
    ensures
        r == absolute(path@),
{
    path.len() > 0 && path[0] == SLASH
}

/// A path taken from where `base` leads.
pub fn join(base: &[u8], path: &[u8]) -> (r: Vec<u8>)
    ensures
        r@ == joined(base@, path@),
{
    if is_absolute(path) {
        slice_to_vec(path)
    } else {
        let mut out: Vec<u8> = slice_to_vec(base);
        if base.len() > 0 && base[base.len() - 1] != SLASH {
            out.push(SLASH);
        }
        let mut tail: Vec<u8> = slice_to_vec(path);
        out.append(&mut tail);
        out
    }
}

spec fn spans_view(s: Seq<(usize, usize)>) -> Seq<(int, int)> {
    Seq::new(s.len(), |i: int| (s[i].0 as int, s[i].1 as int))
}

fn find_spans(path: &[u8]) -> (r: Vec<(usize, usize)>)
    ensures
        spans_view(r@) == component_spans(path@),
        forall|i: int| 0 <= i < r@.len() ==> (#[trigger] r@[i]).0 < r@[i].1 <= path@.len(),
{
    let total: usize = path.len();
    let mut out: Vec<(usize, usize)> = Vec::new();
    let mut pos: usize = 0;
    if is_absolute(path) {
        out.push((0, 1));
        pos = 1;
    }
    assert(spans_view(out@) + segments(path@, pos as int) == component_spans(path@));
    while pos < total
        invariant
            total == path@.len(),
            spans_view(out@) + segments(path@, pos as int) == component_spans(path@),
            forall|i: int| 0 <= i < out@.len() ==> (#[trigger] out@[i]).0 < out@[i].1 <= path@.len(),
        decreases total - pos,
    {
        let mut end: usize = pos;
        while end < total && path[end] != SLASH
            invariant
                total == path@.len(),
                pos <= end <= total,
                segment_end(path@, pos as int) == segment_end(path@, end as int),
            decreases total - end,
        {
            end += 1;
        }
        let ghost before = out@;
        if pos < end && !(pos > 0 && end == pos + 1 && path[pos] == DOT) {
            out.push((pos, end));
            assert(spans_view(out@) == spans_view(before).push((pos as int, end as int)));
        }
        proof {
            let here = if counts(path@, pos as int, end as int) {
                seq![(pos as int, end as int)]
            } else {
                Seq::empty()
            };
            assert(spans_view(out@) == spans_view(before) + here);
            assert(segments(path@, pos as int) == here + segments(path@, end + 1));
            assert(spans_view(out@) + segments(path@, end + 1) == spans_view(before) + segments(
                path@,
                pos as int,
            ));
        }
        if end == total {
            assert(segments(path@, end + 1) == Seq::<(int, int)>::empty());
            assert(segments(path@, end as int) == Seq::<(int, int)>::empty());
            pos = total;
        } else {
            pos = end + 1;
        }
    }
    assert(segments(path@, pos as int) == Seq::<(int, int)>::empty());
    assert(spans_view(out@) + segments(path@, pos as int) == spans_view(out@));
    out
}

/// Whether two paths have the same components.
pub fn same_path(a: &[u8], b: &[u8]) -> (r: bool)
    ensures
        r == same(a@, b@),
{
    let x: Vec<(usize, usize)> = find_spans(a);
    let y: Vec<(usize, usize)> = find_spans(b);
    if x.len() != y.len() {
        assert(components(a@).len() == spans_view(x@).len());
        assert(components(b@).len() == spans_view(y@).len());
        return false;
    }
    let mut i: usize = 0;
    while i < x.len()
        invariant
            i <= x@.len(),
            x@.len() == y@.len(),
            spans_view(x@) == component_spans(a@),
            spans_view(y@) == component_spans(b@),
            forall|k: int| 0 <= k < x@.len() ==> (#[trigger] x@[k]).0 < x@[k].1 <= a@.len(),
            forall|k: int| 0 <= k < y@.len() ==> (#[trigger] y@[k]).0 < y@[k].1 <= b@.len(),
            forall|k: int| 0 <= k < i ==> #[trigger] components(a@)[k] == components(b@)[k],
        decreases x@.len() - i,
    {
        assert(spans_view(x@)[i as int] == (x@[i as int].0 as int, x@[i as int].1 as int));
        assert(spans_view(y@)[i as int] == (y@[i as int].0 as int, y@[i as int].1 as int));
        let p: &[u8] = slice_subrange(a, x[i].0, x[i].1);
        let q: &[u8] = slice_subrange(b, y[i].0, y[i].1);
        assert(components(a@)[i as int] == p@);
        assert(components(b@)[i as int] == q@);
        if !same_bytes(p, q) {
            return false;
        }
        i += 1;
    }
    assert(components(a@).len() == spans_view(x@).len());
    assert(components(b@).len() == spans_view(y@).len());
    assert(components(a@) == components(b@));
    true
}

fn same_bytes(a: &[u8], b: &[u8]) -> (r: bool)
    ensures
        r == (a@ == b@),
{
    if a.len() != b.len() {
        return false;
    }
    let mut i: usize = 0;
    while i < a.len()
        invariant
            i <= a@.len(),
            a@.len() == b@.len(),
            forall|k: int| 0 <= k < i ==> a@[k] == b@[k],
        decreases a@.len() - i,
    {
        if a[i] != b[i] {
            return false;
        }
        i += 1;
    }
    assert(a@ == b@);
    true
}

/// A path without its last component.
pub fn parent(path: &[u8]) -> (r: Option<&[u8]>)
    ensures
        match r {
            Some(p) => parent_of(path@) == Some(p@),
            None => parent_of(path@) is None,
        },
{
    let spans: Vec<(usize, usize)> = find_spans(path);
    let count: usize = spans.len();
    assert(component_spans(path@).len() == count);
    if count == 0 || (count == 1 && is_absolute(path)) {
        None
    } else if count == 1 {
        let r: &[u8] = slice_subrange(path, 0, 0);
        assert(r@ == Seq::<u8>::empty());
        Some(r)
    } else {
        assert(component_spans(path@)[count - 2] == spans_view(spans@)[count - 2]);
        assert(spans@[count - 2].1 <= path@.len());
        Some(slice_subrange(path, 0, spans[count - 2].1))
    }
}


/// What `String::from_utf8_lossy` makes of some bytes.
pub uninterp spec fn lossy_text(path: Seq<u8>) -> Seq<char>;

/// `String::from_utf8_lossy`. Bytes that are UTF-8 come out as the text that
/// they encode; what comes out for other bytes is not stated here.
#[verifier::external_body]
fn from_utf8_lossy(bytes: &[u8]) -> (r: String)
    ensures
        r@ == lossy_text(bytes@),
        valid_utf8(bytes@) ==> r@ == decode_utf8(bytes@),
{
    String::from_utf8_lossy(bytes).into_owned()
}

/// A path as it is shown. A path that is UTF-8 is shown as it is.
pub fn display(path: &[u8]) -> (r: String)
    ensures
        r@ == lossy_text(path@),
        valid_utf8(path@) ==> r@ == decode_utf8(path@),
{
    from_utf8_lossy(path)
}

/// Where the extension of the name in `path[start..end]` starts, with its dot;
/// the end, where it has none. A name that starts with its only dot has none.
pub open spec fn stem_end(path: Seq<u8>, start: int, end: int, pos: int) -> int
    decreases pos - start,
{
    if pos <= start {
        end
    } else if path[pos] == DOT {
        pos
    } else {
        stem_end(path, start, end, pos - 1)
    }
}

/// Whether a component is the name of a file: not the root, `.` or `..`.
pub open spec fn is_name(component: Seq<u8>) -> bool {
    component != seq![SLASH] && component != seq![DOT] && component != seq![DOT, DOT]
}

/// A path whose last component has another extension, or none if that is empty.
/// A path without a name stays as it is.
pub open spec fn extended(path: Seq<u8>, extension: Seq<u8>) -> Seq<u8> {
    let spans = component_spans(path);
    if spans.len() == 0 || !is_name(components(path).last()) {
        path
    } else {
        let (start, end) = spans.last();
        let stem = path.take(stem_end(path, start, end, end - 1));
        if extension.len() == 0 {
            stem
        } else {
            stem.push(DOT) + extension
        }
    }
}

/// A path whose last component has another extension, or none.
pub fn with_extension(path: &[u8], extension: &[u8]) -> (r: Vec<u8>)
    ensures
        r@ == extended(path@, extension@),
{
    let spans: Vec<(usize, usize)> = find_spans(path);
    let count: usize = spans.len();
    assert(component_spans(path@).len() == count);
    if count == 0 {
        return slice_to_vec(path);
    }
    let (start, end): (usize, usize) = spans[count - 1];
    assert(component_spans(path@).last() == spans_view(spans@).last());
    let name: &[u8] = slice_subrange(path, start, end);
    assert(components(path@).last() == name@);
    let length: usize = name.len();
    if length == 1 && (name[0] == SLASH || name[0] == DOT) {
        assert(name@ == seq![SLASH] || name@ == seq![DOT]);
        return slice_to_vec(path);
    }
    if length == 2 && name[0] == DOT && name[1] == DOT {
        assert(name@ == seq![DOT, DOT]);
        return slice_to_vec(path);
    }
    let mut pos: usize = end - 1;
    while pos > start && path[pos] != DOT
        invariant
            start <= pos < end <= path@.len(),
            stem_end(path@, start as int, end as int, pos as int) == stem_end(
                path@,
                start as int,
                end as int,
                end - 1,
            ),
        decreases pos - start,
    {
        pos -= 1;
    }
    let stop: usize = if pos > start {
        pos
    } else {
        end
    };
    let mut out: Vec<u8> = slice_to_vec(slice_subrange(path, 0, stop));
    if extension.len() > 0 {
        out.push(DOT);
        let mut tail: Vec<u8> = slice_to_vec(extension);
        out.append(&mut tail);
    }
    out
}

proof fn lemma_last_segment(path: Seq<u8>, pos: int, start: int)
    requires
        0 <= pos <= start < path.len(),
        start == pos || path[start - 1] == SLASH,
        forall|i: int| start <= i < path.len() ==> path[i] != SLASH,
        counts(path, start, path.len() as int),
    ensures
        segments(path, pos).len() > 0,
        segments(path, pos).last() == (start, path.len() as int),
    decreases path.len() - pos,
{
    lemma_segment_end(path, pos);
    let end = segment_end(path, pos);
    if pos == start {
        lemma_no_slash(path, pos);
        assert(segments(path, end + 1) == Seq::<(int, int)>::empty());
    } else {
        lemma_segment_end_before(path, pos, start - 1);
        lemma_last_segment(path, end + 1, start);
    }
}

proof fn lemma_no_slash(path: Seq<u8>, pos: int)
    requires
        0 <= pos,
        forall|i: int| pos <= i < path.len() ==> path[i] != SLASH,
    ensures
        segment_end(path, pos) == path.len(),
    decreases path.len() - pos,
{
    if pos < path.len() {
        lemma_no_slash(path, pos + 1);
    }
}

proof fn lemma_segment_end_before(path: Seq<u8>, pos: int, slash: int)
    requires
        0 <= pos <= slash < path.len(),
        path[slash] == SLASH,
    ensures
        segment_end(path, pos) <= slash,
    decreases slash - pos,
{
    if path[pos] != SLASH {
        lemma_segment_end_before(path, pos + 1, slash);
    }
}

proof fn lemma_stem_end(path: Seq<u8>, start: int, end: int, pos: int, dot: int)
    requires
        start < dot <= pos < end,
        path[dot] == DOT,
        forall|i: int| dot < i <= pos ==> path[i] != DOT,
    ensures
        stem_end(path, start, end, pos) == dot,
    decreases pos - dot,
{
    if pos > dot {
        lemma_stem_end(path, start, end, pos - 1, dot);
    }
}

/// The name after a path's last separator, if it has an extension, gets the
/// other one in its place, or loses it.
pub proof fn law_extension_is_replaced(
    dir: Seq<u8>,
    stem: Seq<u8>,
    old_extension: Seq<u8>,
    extension: Seq<u8>,
)
    requires
        dir.len() > 0 ==> dir.last() == SLASH,
        stem.len() > 0,
        old_extension.len() > 0,
        extension.len() > 0,
        forall|i: int| 0 <= i < stem.len() ==> stem[i] != SLASH,
        forall|i: int|
            0 <= i < old_extension.len() ==> old_extension[i] != SLASH && old_extension[i] != DOT,
    ensures
        extended(dir + stem.push(DOT) + old_extension, extension) == dir + stem.push(DOT)
            + extension,
        extended(dir + stem.push(DOT) + old_extension, Seq::empty()) == dir + stem,
{
    let path = dir + stem.push(DOT) + old_extension;
    let start = dir.len() as int;
    let end = path.len() as int;
    let dot = start + stem.len();
    assert forall|i: int| start <= i < end implies path[i] != SLASH by {
        if i < dot {
            assert(path[i] == stem[i - start]);
        } else if i > dot {
            assert(path[i] == old_extension[i - dot - 1]);
        }
    }
    assert forall|i: int| dot < i < end implies path[i] != DOT by {
        assert(path[i] == old_extension[i - dot - 1]);
    }
    lemma_last_segment(
        path,
        if absolute(path) {
            1
        } else {
            0
        },
        start,
    );
    let spans = component_spans(path);
    assert(spans.last() == (start, end));
    let name = path.subrange(start, end);
    assert(components(path).last() == name);
    assert(name.last() == old_extension.last());
    assert(name.len() >= 3);
    lemma_stem_end(path, start, end, end - 1, dot);
    assert(path.take(dot) == dir + stem);
    assert((dir + stem).push(DOT) + extension == dir + stem.push(DOT) + extension);
}

proof fn lemma_no_dot(path: Seq<u8>, start: int, end: int, pos: int)
    requires
        start <= pos < end,
        forall|i: int| start < i <= pos ==> path[i] != DOT,
    ensures
        stem_end(path, start, end, pos) == end,
    decreases pos - start,
{
    if pos > start {
        lemma_no_dot(path, start, end, pos - 1);
    }
}

/// A name without a dot but at its start has no extension, and gets one.
pub proof fn law_extension_is_added(dir: Seq<u8>, name: Seq<u8>, extension: Seq<u8>)
    requires
        dir.len() > 0 ==> dir.last() == SLASH,
        name.len() > 0,
        name != seq![DOT],
        forall|i: int| 0 <= i < name.len() ==> name[i] != SLASH && (i > 0 ==> name[i] != DOT),
        extension.len() > 0,
    ensures
        extended(dir + name, extension) == dir + name.push(DOT) + extension,
        extended(dir + name, Seq::empty()) == dir + name,
{
    let path = dir + name;
    let start = dir.len() as int;
    let end = path.len() as int;
    assert forall|i: int| start <= i < end implies path[i] != SLASH && (i > start ==> path[i]
        != DOT) by {
        assert(path[i] == name[i - start]);
    }
    if name.len() == 1 {
        assert(name =~= seq![name[0]]);
        assert(name[0] != DOT);
    }
    assert(path[start] == name[0]);
    lemma_last_segment(
        path,
        if absolute(path) {
            1
        } else {
            0
        },
        start,
    );
    assert(component_spans(path).last() == (start, end));
    assert(path.subrange(start, end) =~= name);
    assert(components(path).last() == name);
    assert(name != seq![SLASH]) by {
        assert(name[0] != SLASH);
    }
    assert(name != seq![DOT, DOT]) by {
        if name.len() == 2 {
            assert(name[1] != DOT);
        }
    }
    lemma_no_dot(path, start, end, end - 1);
    assert(path.take(end) =~= path);
    assert(path.push(DOT) + extension =~= dir + name.push(DOT) + extension);
}

/// The root, the empty path, and what ends with two dots name no file: they stay
/// as they are.
pub proof fn law_no_name_no_extension(dir: Seq<u8>, extension: Seq<u8>)
    requires
        dir.len() > 0 ==> dir.last() == SLASH,
    ensures
        extended(Seq::empty(), extension) == Seq::<u8>::empty(),
        extended(seq![SLASH], extension) == seq![SLASH],
        extended(dir + seq![DOT, DOT], extension) == dir + seq![DOT, DOT],
{
    let root = seq![SLASH];
    assert(segments(root, 1) == Seq::<(int, int)>::empty());
    assert(component_spans(root) =~= seq![(0int, 1int)]);
    assert(root.subrange(0, 1) =~= root);
    assert(components(root).last() == root);
    let path = dir + seq![DOT, DOT];
    let start = dir.len() as int;
    assert(path[start] == DOT && path[start + 1] == DOT);
    lemma_last_segment(
        path,
        if absolute(path) {
            1
        } else {
            0
        },
        start,
    );
    assert(path.subrange(start, path.len() as int) =~= seq![DOT, DOT]);
    assert(components(path).last() == seq![DOT, DOT]);
}

} // verus!
