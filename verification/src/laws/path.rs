//! Paths.
use vstd::prelude::*;
use crate::path::{
    absolute, component_spans, components, counts, joined, lemma_segment_end, parent_of, same,
    segment_end, segments, SLASH,
};

verus! {

/// Whether a segment holds no separator.
pub open spec fn is_segment(s: Seq<u8>) -> bool {
    forall|i: int| 0 <= i < s.len() ==> #[trigger] s[i] != 47
}

/// Whether none of some segments holds a separator.
pub open spec fn are_segments(segs: Seq<Seq<u8>>) -> bool {
    forall|i: int| 0 <= i < segs.len() ==> is_segment(#[trigger] segs[i])
}

/// The path from the root with these segments, each after a separator.
pub open spec fn rooted(segs: Seq<Seq<u8>>) -> Seq<u8>
    decreases segs.len(),
{
    if segs.len() == 0 {
        Seq::empty()
    } else {
        seq![47u8] + segs[0] + rooted(segs.drop_first())
    }
}

/// The segments that name something: neither empty nor a single dot.
pub open spec fn kept(segs: Seq<Seq<u8>>) -> Seq<Seq<u8>>
    decreases segs.len(),
{
    if segs.len() == 0 {
        Seq::empty()
    } else if segs[0].len() == 0 || segs[0] == seq![46u8] {
        kept(segs.drop_first())
    } else {
        seq![segs[0]] + kept(segs.drop_first())
    }
}

spec fn slices(path: Seq<u8>, spans: Seq<(int, int)>) -> Seq<Seq<u8>> {
    Seq::new(spans.len(), |i: int| path.subrange(spans[i].0, spans[i].1))
}

proof fn lemma_ends_at(path: Seq<u8>, pos: int, end: int)
    requires
        0 <= pos <= end <= path.len(),
        forall|i: int| pos <= i < end ==> #[trigger] path[i] != 47,
        end == path.len() || path[end] == 47,
    ensures
        segment_end(path, pos) == end,
    decreases end - pos,
{
    if pos < end {
        assert(path[pos] != 47);
        lemma_ends_at(path, pos + 1, end);
    }
}

proof fn lemma_slices(path: Seq<u8>, pos: int, segs: Seq<Seq<u8>>)
    requires
        0 < pos <= path.len(),
        segs.len() > 0,
        are_segments(segs),
        path.skip(pos) == segs[0] + rooted(segs.drop_first()),
    ensures
        slices(path, segments(path, pos)) == kept(segs),
    decreases segs.len(),
{
    let tail = path.skip(pos);
    let first = segs[0];
    let rest = segs.drop_first();
    let end = pos + first.len();
    assert(tail.len() == path.len() - pos);
    assert(tail.len() == first.len() + rooted(rest).len());
    assert forall|i: int| pos <= i < end implies #[trigger] path[i] != 47 by {
        assert(path[i] == tail[i - pos]);
        assert(is_segment(segs[0]));
        assert(tail[i - pos] == first[i - pos]);
    }
    if rest.len() > 0 {
        assert(tail[first.len() as int] == 47);
        assert(path[end] == 47);
    } else {
        assert(rooted(rest) == Seq::<u8>::empty());
    }
    lemma_ends_at(path, pos, end);
    assert(path.subrange(pos, end) == first) by {
        assert forall|i: int| 0 <= i < first.len() implies path.subrange(pos, end)[i]
            == first[i] by {
            assert(path[pos + i] == tail[i]);
        }
    }
    let here = if counts(path, pos, end) {
        seq![(pos, end)]
    } else {
        Seq::empty()
    };
    assert(counts(path, pos, end) == !(first.len() == 0 || first == seq![46u8])) by {
        if first.len() == 1 {
            assert(path[pos] == first[0]);
            if first[0] == 46 {
                assert(first =~= seq![46u8]);
            }
        }
    }
    let others = segments(path, end + 1);
    if pos < path.len() {
        assert(segments(path, pos) == here + others);
    } else {
        assert(segments(path, pos) == Seq::<(int, int)>::empty());
    }
    if rest.len() > 0 {
        assert(path.skip(end + 1) =~= rest[0] + rooted(rest.drop_first())) by {
            let after = seq![47u8] + rest[0] + rooted(rest.drop_first());
            assert(rooted(rest) == after);
            assert forall|i: int| 0 <= i < path.len() - end - 1 implies #[trigger] path.skip(
                end + 1,
            )[i] == (rest[0] + rooted(rest.drop_first()))[i] by {
                assert(path[end + 1 + i] == tail[first.len() + 1 + i]);
                assert(tail[first.len() + 1 + i] == after[1 + i]);
            }
        }
        assert forall|i: int| 0 <= i < rest.len() implies is_segment(#[trigger] rest[i]) by {
            assert(rest[i] == segs[i + 1]);
        }
        lemma_slices(path, end + 1, rest);
        assert(slices(path, here + others) =~= slices(path, here) + slices(path, others));
    } else {
        assert(others == Seq::<(int, int)>::empty());
        assert(kept(rest) == Seq::<Seq<u8>>::empty());
        assert(here + others =~= here);
    }
    if counts(path, pos, end) {
        assert(slices(path, here) =~= seq![first]);
    } else {
        assert(slices(path, here) =~= Seq::<Seq<u8>>::empty());
    }
    if pos >= path.len() {
        assert(first.len() == 0 && rest.len() == 0);
        assert(slices(path, segments(path, pos)) =~= kept(segs));
    } else if rest.len() == 0 {
        assert(slices(path, segments(path, pos)) =~= kept(segs));
    } else {
        assert(slices(path, segments(path, pos)) =~= kept(segs));
    }
}

/// The components of a path from the root are the root and then every segment
/// that names something, in order.
pub proof fn law_components_of_a_rooted_path(segs: Seq<Seq<u8>>)
    requires
        segs.len() > 0,
        are_segments(segs),
    ensures
        components(rooted(segs)) == seq![seq![47u8]] + kept(segs),
{
    let path = rooted(segs);
    assert(path.skip(1) == segs[0] + rooted(segs.drop_first()));
    lemma_slices(path, 1, segs);
    let spans = component_spans(path);
    assert(spans == seq![(0int, 1int)] + segments(path, 1));
    assert(path.subrange(0, 1) =~= seq![47u8]);
    assert forall|i: int| 0 <= i < spans.len() implies #[trigger] components(path)[i] == (seq![
        seq![47u8],
    ] + kept(segs))[i] by {
        if i > 0 {
            assert(kept(segs)[i - 1] == slices(path, segments(path, 1))[i - 1]);
        }
    }
    assert(components(path) =~= seq![seq![47u8]] + kept(segs));
}

/// The components of a relative path are its first segment, be it a dot, and
/// then every segment that names something, in order.
pub proof fn law_components_of_a_relative_path(first: Seq<u8>, rest: Seq<Seq<u8>>)
    requires
        first.len() > 0,
        is_segment(first),
        are_segments(rest),
    ensures
        components(first + rooted(rest)) == seq![first] + kept(rest),
{
    let path = first + rooted(rest);
    let end = first.len() as int;
    assert(path[0] == first[0]);
    assert(first[0] != 47);
    assert forall|i: int| 0 <= i < end implies #[trigger] path[i] != 47 by {
        assert(path[i] == first[i]);
    }
    if rest.len() > 0 {
        assert(path[end] == 47);
    }
    lemma_ends_at(path, 0, end);
    assert(counts(path, 0, end));
    assert(path.subrange(0, end) =~= first);
    let others = segments(path, end + 1);
    assert(segments(path, 0) == seq![(0int, end)] + others);
    if rest.len() > 0 {
        assert(path.skip(end + 1) =~= rest[0] + rooted(rest.drop_first()));
        lemma_slices(path, end + 1, rest);
    } else {
        assert(others == Seq::<(int, int)>::empty());
        assert(slices(path, others) =~= kept(rest));
    }
    assert forall|i: int| 0 <= i < components(path).len() implies #[trigger] components(path)[i] == (
    seq![first] + kept(rest))[i] by {
        if i > 0 {
            assert(slices(path, others)[i - 1] == kept(rest)[i - 1]);
        }
    }
    assert(components(path) =~= seq![first] + kept(rest));
}

/// Two paths from the root are the same exactly where the same names follow each
/// other in them; a path from the root is not the same as a relative one.
pub proof fn law_same_paths(
    a: Seq<Seq<u8>>,
    b: Seq<Seq<u8>>,
    first: Seq<u8>,
    rest: Seq<Seq<u8>>,
)
    requires
        a.len() > 0,
        b.len() > 0,
        are_segments(a),
        are_segments(b),
        first.len() > 0,
        is_segment(first),
        are_segments(rest),
    ensures
        same(rooted(a), rooted(b)) <==> kept(a) == kept(b),
        !same(rooted(a), first + rooted(rest)),
{
    law_components_of_a_rooted_path(a);
    law_components_of_a_rooted_path(b);
    law_components_of_a_relative_path(first, rest);
    let root = seq![seq![47u8]];
    if same(rooted(a), rooted(b)) {
        assert((root + kept(a)).skip(1) =~= kept(a));
        assert((root + kept(b)).skip(1) =~= kept(b));
    }
    assert((root + kept(a))[0] == seq![47u8]);
    assert((seq![first] + kept(rest))[0] == first);
    if first == seq![47u8] {
        assert(first[0] == 47);
    }
}

proof fn lemma_kept_all(segs: Seq<Seq<u8>>)
    requires
        forall|i: int|
            0 <= i < segs.len() ==> (#[trigger] segs[i]).len() > 0 && segs[i] != seq![46u8],
    ensures
        kept(segs) == segs,
    decreases segs.len(),
{
    if segs.len() > 0 {
        let rest = segs.drop_first();
        assert forall|i: int| 0 <= i < rest.len() implies (#[trigger] rest[i]).len() > 0 && rest[i]
            != seq![46u8] by {
            assert(rest[i] == segs[i + 1]);
        }
        assert(segs[0].len() > 0);
        lemma_kept_all(rest);
        assert(seq![segs[0]] + rest =~= segs);
    } else {
        assert(segs =~= Seq::<Seq<u8>>::empty());
    }
}

/// Two paths are the same exactly where they have as many components and each is
/// the same.
pub proof fn law_same_component_by_component(a: Seq<u8>, b: Seq<u8>)
    ensures
        same(a, b) <==> components(a).len() == components(b).len() && forall|i: int|
            0 <= i < components(a).len() ==> components(a)[i] == components(b)[i],
{
    if components(a).len() == components(b).len() && (forall|i: int|
        0 <= i < components(a).len() ==> components(a)[i] == components(b)[i]) {
        assert(components(a) =~= components(b));
    }
}

/// Two relative paths are the same exactly where they start with the same segment
/// and the same names follow.
pub proof fn law_same_relative_paths(
    a: Seq<u8>,
    b: Seq<u8>,
    after_a: Seq<Seq<u8>>,
    after_b: Seq<Seq<u8>>,
)
    requires
        a.len() > 0,
        b.len() > 0,
        is_segment(a),
        is_segment(b),
        are_segments(after_a),
        are_segments(after_b),
    ensures
        same(a + rooted(after_a), b + rooted(after_b)) <==> a == b && kept(after_a) == kept(
            after_b,
        ),
{
    law_components_of_a_relative_path(a, after_a);
    law_components_of_a_relative_path(b, after_b);
    let x = seq![a] + kept(after_a);
    let y = seq![b] + kept(after_b);
    if x == y {
        assert(x[0] == a && y[0] == b);
        assert(x.skip(1) =~= kept(after_a));
        assert(y.skip(1) =~= kept(after_b));
    }
}

/// Two paths from the root without empty segments or dots are the same only if
/// their bytes are.
pub proof fn law_canonical_paths_are_told_apart(a: Seq<Seq<u8>>, b: Seq<Seq<u8>>)
    requires
        a.len() > 0,
        b.len() > 0,
        are_segments(a),
        are_segments(b),
        forall|i: int| 0 <= i < a.len() ==> (#[trigger] a[i]).len() > 0 && a[i] != seq![46u8],
        forall|i: int| 0 <= i < b.len() ==> (#[trigger] b[i]).len() > 0 && b[i] != seq![46u8],
    ensures
        same(rooted(a), rooted(b)) <==> rooted(a) == rooted(b),
{
    let some = seq![97u8];
    law_same_paths(a, b, some, Seq::empty());
    lemma_kept_all(a);
    lemma_kept_all(b);
}

proof fn lemma_segments_push(dir: Seq<u8>, name: Seq<u8>, pos: int)
    requires
        0 < pos <= dir.len() + 1,
        is_segment(name),
        name.len() > 0,
        name != seq![46u8],
    ensures
        segments(dir + seq![47u8] + name, pos) == segments(dir, pos).push(
            (dir.len() as int + 1, dir.len() as int + 1 + name.len() as int),
        ),
    decreases dir.len() + 1 - pos,
{
    let path = dir + seq![47u8] + name;
    let n = dir.len() as int;
    assert forall|i: int| n < i < path.len() implies #[trigger] path[i] != 47 by {
        assert(path[i] == name[i - n - 1]);
    }
    assert(path[n] == 47);
    if pos == n + 1 {
        lemma_ends_at(path, pos, path.len() as int);
        if name.len() == 1 {
            assert(path[pos] == name[0]);
            if name[0] == 46 {
                assert(name =~= seq![46u8]);
            }
        }
        assert(counts(path, pos, path.len() as int));
        assert(segments(path, path.len() as int + 1) == Seq::<(int, int)>::empty());
        assert(segments(dir, pos) == Seq::<(int, int)>::empty());
        assert(segments(path, pos) =~= segments(dir, pos).push(
            (dir.len() as int + 1, dir.len() as int + 1 + name.len() as int),
        ));
    } else if pos == n {
        lemma_ends_at(path, pos, pos);
        lemma_segments_push(dir, name, pos + 1);
        assert(segments(dir, pos + 1) == Seq::<(int, int)>::empty());
        assert(segments(dir, pos) == Seq::<(int, int)>::empty());
        assert(segments(path, pos) =~= segments(path, pos + 1));
    } else {
        lemma_segment_end(dir, pos);
        let end = segment_end(dir, pos);
        lemma_between(dir, pos);
        assert forall|i: int| pos <= i < end implies #[trigger] path[i] != 47 by {
            assert(path[i] == dir[i]);
        }
        if end < n {
            assert(path[end] == dir[end]);
        }
        lemma_ends_at(path, pos, end);
        assert(counts(path, pos, end) == counts(dir, pos, end));
        lemma_segments_push(dir, name, end + 1);
        assert(segments(path, pos) =~= segments(dir, pos).push(
            (dir.len() as int + 1, dir.len() as int + 1 + name.len() as int),
        ));
    }
}

proof fn lemma_between(path: Seq<u8>, pos: int)
    requires
        0 <= pos <= path.len(),
    ensures
        forall|i: int| pos <= i < segment_end(path, pos) ==> #[trigger] path[i] != 47,
        segment_end(path, pos) < path.len() ==> path[segment_end(path, pos)] == 47,
    decreases path.len() - pos,
{
    if pos < path.len() && path[pos] != 47 {
        lemma_between(path, pos + 1);
    }
}

/// The parent of a path from the root is the path without its last name. That of
/// a name right under the root is the root; and the root has none.
pub proof fn law_parent(segs: Seq<Seq<u8>>, last: Seq<u8>, name: Seq<u8>)
    requires
        are_segments(segs),
        is_segment(last),
        last.len() > 0,
        last != seq![46u8],
        is_segment(name),
        name.len() > 0,
        name != seq![46u8],
    ensures
        parent_of(rooted(segs) + seq![47u8] + last + seq![47u8] + name) == Some(
            rooted(segs) + seq![47u8] + last,
        ),
        parent_of(seq![47u8] + name) == Some(seq![47u8]),
        parent_of(seq![47u8]) is None,
        parent_of(Seq::empty()) is None,
{
    let dir = rooted(segs) + seq![47u8] + last;
    let path = dir + seq![47u8] + name;
    let base = rooted(segs);
    lemma_segments_push(dir, name, 1);
    lemma_segments_push(base, last, 1);
    assert(dir[0] == 47) by {
        if segs.len() > 0 {
            assert(base[0] == 47);
        }
    }
    assert(path[0] == dir[0]);
    let spans = component_spans(path);
    let n = segments(base, 1).len() as int;
    assert(spans == seq![(0int, 1int)] + segments(path, 1));
    assert(segments(path, 1)[n] == (base.len() as int + 1, base.len() as int + 1 + last.len() as int));
    assert(spans[n + 1] == segments(path, 1)[n]);
    assert(spans.len() == n + 3);
    assert(path.take(dir.len() as int) =~= dir);
    let none = Seq::<u8>::empty();
    lemma_segments_push(none, name, 1);
    assert(none + seq![47u8] + name =~= seq![47u8] + name);
    let short = seq![47u8] + name;
    assert(segments(none, 1) == Seq::<(int, int)>::empty());
    let short_spans = component_spans(short);
    assert(short_spans =~= seq![(0int, 1int), (1int, 1int + name.len() as int)]);
    assert(short.take(1) =~= seq![47u8]);
    assert(segments(seq![47u8], 1) == Seq::<(int, int)>::empty());
    assert(component_spans(seq![47u8]) =~= seq![(0int, 1int)]);
    assert(component_spans(none) =~= Seq::<(int, int)>::empty());
}

/// A path from the root is taken as it is; any other comes after the base, and
/// one separator is between them.
pub proof fn law_joined(base: Seq<u8>, path: Seq<u8>)
    ensures
        path.len() > 0 && path[0] == 47 ==> joined(base, path) == path,
        !(path.len() > 0 && path[0] == 47) ==> {
            &&& base.len() == 0 ==> joined(base, path) == path
            &&& base.len() > 0 && base.last() == 47 ==> joined(base, path) == base + path
            &&& base.len() > 0 && base.last() != 47 ==> joined(base, path) == base + seq![47u8]
                + path
        },
        absolute(path) <==> path.len() > 0 && path[0] == 47,
{
    assert(base.push(SLASH) + path =~= base + seq![47u8] + path);
    if base.len() == 0 {
        assert(base + path =~= path);
    }
}

} // verus!
