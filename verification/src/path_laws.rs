//! What holds of the path sandbox, whatever the paths.
use vstd::prelude::*;
use crate::error::AcpError;
use crate::path::{
    anchored, appended, is_absolute, is_beneath, is_rooted, lexical_normalise, normalised,
    part_text, parts_of, path_components, path_from, path_parts, render_parent, render_path,
    rendered, resolve_components, resolve_safe_path, resolved, resolved_parts, root_parts,
    segment_part, segment_parts, segments, stays_inside, walk, walk_kept, PathComponent,
    PathPart,
};

verus! {

/// A piece that stands for itself in a path.
pub open spec fn is_name(s: Seq<char>) -> bool {
    &&& s.len() > 0
    &&& !s.contains('/')
    &&& s != seq!['.']
    &&& s != seq!['.', '.']
}

/// Components without `.` and `..`, and with the root at the front if anywhere.
pub open spec fn is_normal(parts: Seq<PathPart>) -> bool {
    forall|i: int| 0 <= i < parts.len() ==> is_normal_at(#[trigger] parts[i], i)
}

/// A component that may stand at place `i` of a normal path.
pub open spec fn is_normal_at(part: PathPart, i: int) -> bool {
    match part {
        PathPart::Root => i == 0,
        PathPart::Normal(name) => is_name(name),
        _ => false,
    }
}

/// Components with the root at the front if anywhere, and with proper names.
pub open spec fn is_proper(parts: Seq<PathPart>) -> bool {
    forall|i: int| 0 <= i < parts.len() ==> is_proper_at(#[trigger] parts[i], i)
}

/// A component that may stand at place `i` of a path.
pub open spec fn is_proper_at(part: PathPart, i: int) -> bool {
    match part {
        PathPart::Root => i == 0,
        PathPart::Normal(name) => is_name(name),
        _ => true,
    }
}

/// Components without `.`, with the root and every `..` in front if anywhere, and with proper
/// names: those of a path that has been walked as far as it can be.
pub open spec fn is_anchored(parts: Seq<PathPart>) -> bool {
    forall|i: int| 0 <= i < parts.len() ==> #[trigger] is_anchored_at(parts, i)
}

/// What holds of the component at place `i` of a path that has been walked.
pub open spec fn is_anchored_at(parts: Seq<PathPart>, i: int) -> bool {
    match parts[i] {
        PathPart::Root => i == 0,
        PathPart::Current => false,
        PathPart::Parent => i == 0 || parts[i - 1] is Parent,
        PathPart::Normal(name) => is_name(name),
    }
}

/// Components of a path that does not start at the root.
pub open spec fn is_relative(parts: Seq<PathPart>) -> bool {
    forall|i: int| 0 <= i < parts.len() ==> is_proper_at(#[trigger] parts[i], 1)
}

/// How far above or below its start a walk ends.
pub open spec fn height(parts: Seq<PathPart>) -> int
    decreases parts.len(),
{
    if parts.len() == 0 {
        0
    } else {
        height(parts.drop_last()) + match parts.last() {
            PathPart::Normal(_) => 1int,
            PathPart::Parent => -1int,
            _ => 0int,
        }
    }
}

/// A walk that is nowhere above its start.
pub open spec fn never_climbs_out(parts: Seq<PathPart>) -> bool {
    forall|k: int| 0 <= k <= parts.len() ==> height(#[trigger] parts.take(k)) >= 0
}

proof fn lemma_no_slash_in_segments(text: Seq<char>)
    ensures
        segments(text).len() >= 1,
        forall|i: int|
            0 <= i < segments(text).len() ==> !(#[trigger] segments(text)[i]).contains('/'),
    decreases text.len(),
{
    if text.len() > 0 {
        let init = segments(text.drop_last());
        lemma_no_slash_in_segments(text.drop_last());
        assert forall|i: int| 0 <= i < segments(text).len() implies !(#[trigger] segments(
            text,
        )[i]).contains('/') by {
            if text.last() == '/' {
                if i < init.len() {
                    assert(segments(text)[i] == init[i]);
                }
            } else {
                if i < init.len() - 1 {
                    assert(segments(text)[i] == init[i]);
                } else {
                    let s = segments(text)[i];
                    assert(s == init.last().push(text.last()));
                    assert(init.last() == init[init.len() - 1]);
                    if s.contains('/') {
                        let j = choose|j: int| 0 <= j < s.len() && s[j] == '/';
                        if j < s.len() - 1 {
                            assert(init.last()[j] == '/');
                            assert(init.last().contains('/'));
                        }
                    }
                }
            }
        }
    }
}

proof fn lemma_segment_parts_proper(segs: Seq<Seq<char>>)
    requires
        forall|i: int| 0 <= i < segs.len() ==> !(#[trigger] segs[i]).contains('/'),
    ensures
        forall|i: int|
            0 <= i < segment_parts(segs).len() ==> is_proper_at(
                #[trigger] segment_parts(segs)[i],
                1,
            ),
    decreases segs.len(),
{
    if segs.len() > 0 {
        let init = segs.drop_last();
        assert forall|i: int| 0 <= i < init.len() implies !(#[trigger] init[i]).contains('/') by {
            assert(init[i] == segs[i]);
        }
        lemma_segment_parts_proper(init);
        assert(!segs[segs.len() - 1].contains('/'));
        let before = segment_parts(init);
        let after = segment_parts(segs);
        assert forall|i: int| 0 <= i < after.len() implies is_proper_at(#[trigger] after[i], 1) by {
            if i < before.len() {
                assert(after[i] == before[i]);
            }
        }
    }
}

proof fn lemma_path_parts_proper(text: Seq<char>)
    ensures
        is_proper(path_parts(text)),
{
    lemma_no_slash_in_segments(text);
    lemma_segment_parts_proper(segments(text));
    let tail = segment_parts(segments(text));
    assert forall|i: int| 0 <= i < path_parts(text).len() implies is_proper_at(
        #[trigger] path_parts(text)[i],
        i,
    ) by {
        let k = i - root_parts(text).len();
        if k >= 0 {
            assert(path_parts(text)[i] == tail[k]);
            assert(is_proper_at(tail[k], 1));
        }
    }
}

proof fn lemma_normalised_is_normal(parts: Seq<PathPart>)
    requires
        is_proper(parts),
    ensures
        is_normal(normalised(parts)),
        normalised(parts).len() <= parts.len(),
    decreases parts.len(),
{
    if parts.len() > 0 {
        let init = parts.drop_last();
        assert forall|i: int| 0 <= i < init.len() implies is_proper_at(#[trigger] init[i], i) by {
            assert(init[i] == parts[i]);
        }
        lemma_normalised_is_normal(init);
        let before = normalised(init);
        let after = normalised(parts);
        assert(is_proper_at(parts[parts.len() - 1], parts.len() - 1));
        assert forall|i: int| 0 <= i < after.len() implies is_normal_at(#[trigger] after[i], i) by {
            if i < before.len() && !(parts.last() is Root) {
                assert(after[i] == before[i]);
                assert(is_normal_at(before[i], i));
            }
        }
    }
}

proof fn lemma_normal_stays(parts: Seq<PathPart>)
    requires
        is_normal(parts),
    ensures
        normalised(parts) == parts,
    decreases parts.len(),
{
    if parts.len() > 0 {
        let init = parts.drop_last();
        assert forall|i: int| 0 <= i < init.len() implies is_normal_at(#[trigger] init[i], i) by {
            assert(init[i] == parts[i]);
        }
        lemma_normal_stays(init);
        assert(is_normal_at(parts[parts.len() - 1], parts.len() - 1));
        assert(init.push(parts.last()) =~= parts);
        if parts.last() is Root {
            assert(parts =~= seq![PathPart::Root]);
        }
    } else {
        assert(parts =~= Seq::empty());
    }
}

/// Text without a slash goes to the last piece.
proof fn lemma_segments_of_tail(a: Seq<char>, b: Seq<char>)
    requires
        !b.contains('/'),
    ensures
        segments(a + b) == segments(a).drop_last().push(segments(a).last() + b),
    decreases b.len(),
{
    lemma_no_slash_in_segments(a);
    if b.len() == 0 {
        assert(a + b =~= a);
        assert(segments(a).last() + b =~= segments(a).last());
        assert(segments(a).drop_last().push(segments(a).last()) =~= segments(a));
    } else {
        let c = b.drop_last();
        assert(!c.contains('/')) by {
            if c.contains('/') {
                let j = choose|j: int| 0 <= j < c.len() && c[j] == '/';
                assert(b[j] == '/');
            }
        }
        lemma_segments_of_tail(a, c);
        assert((a + b).drop_last() =~= a + c);
        assert((a + b).last() == b.last());
        assert(b.last() != '/') by {
            assert(b[b.len() - 1] == b.last());
        }
        let init = segments(a + c);
        assert(init.drop_last() =~= segments(a).drop_last());
        assert(init.last() == segments(a).last() + c);
        assert((segments(a).last() + c).push(b.last()) =~= segments(a).last() + b);
    }
}

proof fn lemma_absolute_prefix(a: Seq<char>, b: Seq<char>)
    requires
        a.len() > 0,
    ensures
        is_absolute(a + b) == is_absolute(a),
{
    assert((a + b)[0] == a[0]);
}

/// A piece behind a path is one component behind its components.
proof fn lemma_parts_of_appended(base: Seq<char>, piece: Seq<char>, part: PathPart)
    requires
        !piece.contains('/'),
        segment_part(piece, false) == Some(part),
    ensures
        path_parts(appended(base, piece)) == path_parts(base).push(part),
        appended(base, piece).len() > 0,
        appended(base, piece).last() != '/',
{
    let text = appended(base, piece);
    lemma_no_slash_in_segments(base);
    assert(piece[piece.len() - 1] != '/') by {
        assert(piece.contains(piece[piece.len() - 1]));
    }
    if base.len() == 0 || base.last() == '/' {
        lemma_segments_of_tail(base, piece);
        let segs = segments(base);
        assert(segs.last() =~= Seq::empty());
        assert(segs.last() + piece =~= piece);
        assert(segments(text) == segs.drop_last().push(piece));
        assert(segs.drop_last().push(piece).drop_last() =~= segs.drop_last());
        assert(segment_parts(segments(text)) == segment_parts(segs.drop_last()).push(part));
        assert(segment_parts(segs) == segment_parts(segs.drop_last()));
        if base.len() == 0 {
            assert(text =~= piece);
            assert(piece.contains(piece[0]));
        } else {
            lemma_absolute_prefix(base, piece);
        }
        assert(root_parts(text) == root_parts(base));
    } else {
        let mid = base + seq!['/'];
        assert(mid.drop_last() =~= base);
        assert(mid.last() == '/');
        assert(segments(mid) == segments(base).push(Seq::empty()));
        lemma_segments_of_tail(mid, piece);
        assert(segments(mid).drop_last() =~= segments(base));
        assert(Seq::<char>::empty() + piece =~= piece);
        assert(segments(text) == segments(base).push(piece));
        assert(segments(base).push(piece).drop_last() =~= segments(base));
        assert(segment_parts(segments(text)) == segment_parts(segments(base)).push(part));
        lemma_absolute_prefix(base, seq!['/']);
        lemma_absolute_prefix(mid, piece);
        assert(root_parts(text) == root_parts(base));
    }
    assert(path_parts(text) =~= path_parts(base).push(part));
}

/// The beginning of a walked path is walked.
proof fn lemma_anchored_front(parts: Seq<PathPart>)
    requires
        is_anchored(parts),
        parts.len() > 0,
    ensures
        is_anchored(parts.drop_last()),
        is_anchored_at(parts, parts.len() - 1),
{
    let init = parts.drop_last();
    assert forall|i: int| 0 <= i < init.len() implies #[trigger] is_anchored_at(init, i) by {
        assert(is_anchored_at(parts, i));
    }
}

/// In a walked path nothing but `..` precedes a `..`.
proof fn lemma_parents_in_front(parts: Seq<PathPart>, i: int)
    requires
        is_anchored(parts),
        0 <= i < parts.len(),
        parts[i] is Parent,
    ensures
        parts[0] is Parent,
    decreases i,
{
    assert(is_anchored_at(parts, i));
    if i > 0 {
        lemma_parents_in_front(parts, i - 1);
    }
}

/// A walked path that is written down has the components that it was written from.
pub proof fn lemma_parts_of_rendered(parts: Seq<PathPart>)
    requires
        is_anchored(parts),
    ensures
        path_parts(rendered(parts)) == parts,
    decreases parts.len(),
{
    if parts.len() == 0 {
        let one = segments(Seq::<char>::empty());
        assert(one.drop_last() =~= Seq::empty());
        assert(segment_parts(one.drop_last()) =~= Seq::empty());
        assert(segment_parts(one) =~= Seq::empty());
        assert(path_parts(rendered(parts)) =~= parts);
    } else {
        let init = parts.drop_last();
        let last = parts.last();
        lemma_anchored_front(parts);
        lemma_parts_of_rendered(init);
        assert(parts =~= init.push(last));
        if last is Root {
            assert(init =~= Seq::empty());
            assert(rendered(parts) =~= seq!['/']);
            let slash = seq!['/'];
            assert(slash.drop_last() =~= Seq::empty());
            let one = segments(Seq::<char>::empty());
            assert(one.drop_last() =~= Seq::empty());
            assert(one.push(Seq::empty()).drop_last() =~= one);
            assert(segments(slash) == one.push(Seq::empty()));
            assert(segment_parts(one) =~= Seq::empty());
            assert(segment_parts(segments(slash)) =~= Seq::empty());
            assert(path_parts(slash) =~= parts);
        } else {
            if last is Parent {
                let dots = seq!['.', '.'];
                assert(dots[0] == '.' && dots[1] == '.');
                assert(dots.len() != seq!['.'].len());
            }
            lemma_parts_of_appended(rendered(init), part_text(last), last);
        }
    }
}

proof fn lemma_normal_is_anchored(parts: Seq<PathPart>)
    requires
        is_normal(parts),
    ensures
        is_anchored(parts),
{
    assert forall|i: int| 0 <= i < parts.len() implies #[trigger] is_anchored_at(parts, i) by {
        assert(is_normal_at(parts[i], i));
    }
}

/// Normalising is done once and for all: a path that was normalised has the components that
/// normalising gave it, has no `.` and no `..`, and normalising it again changes nothing.
pub proof fn law_normalising_is_final(path: Seq<char>)
    ensures
        ({
            let once = rendered(normalised(path_parts(path)));
            &&& path_parts(once) == normalised(path_parts(path))
            &&& is_normal(path_parts(once))
            &&& rendered(normalised(path_parts(once))) == once
        }),
{
    lemma_path_parts_proper(path);
    lemma_normalised_is_normal(path_parts(path));
    lemma_normal_is_anchored(normalised(path_parts(path)));
    lemma_parts_of_rendered(normalised(path_parts(path)));
    lemma_normal_stays(normalised(path_parts(path)));
}

/// What a walk gives is walked.
proof fn lemma_anchored_is_anchored(parts: Seq<PathPart>)
    requires
        is_proper(parts),
    ensures
        is_anchored(anchored(parts)),
    decreases parts.len(),
{
    if parts.len() > 0 {
        let init = parts.drop_last();
        assert forall|i: int| 0 <= i < init.len() implies is_proper_at(#[trigger] init[i], i) by {
            assert(init[i] == parts[i]);
        }
        lemma_anchored_is_anchored(init);
        assert(is_proper_at(parts[parts.len() - 1], parts.len() - 1));
        lemma_step_is_anchored(anchored(init), parts.last(), parts.len() - 1);
        if parts.last() is Root {
            assert(init =~= Seq::empty());
        }
    }
}

/// One step of a walk keeps it walked.
proof fn lemma_step_is_anchored(before: Seq<PathPart>, part: PathPart, i: int)
    requires
        is_anchored(before),
        is_proper_at(part, i),
    ensures
        is_anchored(walk_kept(before, part)),
{
    let after = walk_kept(before, part);
    if before.len() > 0 {
        assert(is_anchored_at(before, before.len() - 1));
    }
    assert forall|i: int| 0 <= i < after.len() implies #[trigger] is_anchored_at(after, i) by {
        if i < before.len() {
            assert(is_anchored_at(before, i));
        }
    }
}

/// Walking a walked path changes nothing.
proof fn lemma_anchored_stays(parts: Seq<PathPart>)
    requires
        is_anchored(parts),
    ensures
        anchored(parts) == parts,
    decreases parts.len(),
{
    if parts.len() > 0 {
        let init = parts.drop_last();
        lemma_anchored_front(parts);
        lemma_anchored_stays(init);
        assert(init.push(parts.last()) =~= parts);
        if parts.last() is Root {
            assert(parts =~= seq![PathPart::Root]);
        }
        if parts.last() is Parent {
            lemma_parents_in_front(parts, parts.len() - 1);
            if init.len() > 0 {
                assert(init.last() == parts[parts.len() - 2]);
                assert(init[0] == parts[0]);
            }
        }
    } else {
        assert(parts =~= Seq::empty());
    }
}

/// A walk may be broken off and taken up again.
proof fn lemma_walk_in_two(base: Seq<PathPart>, parts: Seq<PathPart>)
    requires
        is_proper(base),
    ensures
        anchored(base + parts) == anchored(anchored(base) + parts),
    decreases parts.len(),
{
    if parts.len() == 0 {
        lemma_anchored_is_anchored(base);
        lemma_anchored_stays(anchored(base));
        assert(base + parts =~= base);
        assert(anchored(base) + parts =~= anchored(base));
    } else {
        lemma_walk_in_two(base, parts.drop_last());
        assert((base + parts).drop_last() =~= base + parts.drop_last());
        assert((anchored(base) + parts).drop_last() =~= anchored(base) + parts.drop_last());
    }
}

/// A `.` leads nowhere.
proof fn lemma_current_leads_nowhere(base: Seq<PathPart>, parts: Seq<PathPart>)
    ensures
        anchored(base.push(PathPart::Current) + parts) == anchored(base + parts),
    decreases parts.len(),
{
    let dotted = base.push(PathPart::Current);
    if parts.len() == 0 {
        assert(dotted + parts =~= dotted);
        assert(dotted.drop_last() =~= base);
        assert(base + parts =~= base);
    } else {
        lemma_current_leads_nowhere(base, parts.drop_last());
        assert((dotted + parts).drop_last() =~= dotted + parts.drop_last());
        assert((base + parts).drop_last() =~= base + parts.drop_last());
    }
}

/// From the root a walk leads where normalising does.
proof fn lemma_rooted_walk(parts: Seq<PathPart>)
    requires
        is_rooted(parts),
    ensures
        anchored(parts) == normalised(parts),
        is_rooted(anchored(parts)),
    decreases parts.len(),
{
    let init = parts.drop_last();
    if init.len() == 0 {
        assert(parts.last() == parts[0]);
    } else {
        assert(init[0] == parts[0]);
        lemma_rooted_walk(init);
    }
}

proof fn lemma_relative_parts(path: Seq<char>)
    requires
        !is_absolute(path),
    ensures
        is_relative(path_parts(path)),
{
    lemma_no_slash_in_segments(path);
    lemma_segment_parts_proper(segments(path));
    assert(path_parts(path) =~= segment_parts(segments(path)));
}

/// Where a path leads can be written down and read again.
proof fn lemma_parts_of_resolved(path: Seq<char>, working_dir: Seq<char>)
    ensures
        is_anchored(resolved_parts(path, working_dir)),
        path_parts(resolved(path, working_dir)) == resolved_parts(path, working_dir),
{
    let whole = path_from(working_dir, path);
    lemma_path_parts_proper(whole);
    lemma_anchored_is_anchored(path_parts(whole));
    lemma_parts_of_rendered(anchored(path_parts(whole)));
}

/// A path is walked from the root where it starts there.
proof fn lemma_rooted_is_absolute(path: Seq<char>)
    ensures
        is_rooted(path_parts(path)) == is_absolute(path),
        is_rooted(anchored(path_parts(path))) == is_absolute(path),
{
    let parts = path_parts(path);
    if is_absolute(path) {
        assert(parts[0] == PathPart::Root);
        lemma_rooted_walk(parts);
    } else {
        lemma_relative_parts(path);
        if parts.len() > 0 {
            assert(is_proper_at(parts[0], 1));
        }
        lemma_depth_of_walk(Seq::empty(), parts);
        assert(Seq::<PathPart>::empty() + parts =~= parts);
    }
}

/// The sandbox holds: the components of a path that is not refused are those to which the
/// working directory leads, with nothing but names behind them, so that there is no `..` with
/// which to leave it again. From an absolute working directory there is no `..` at all.
pub proof fn law_resolved_path_is_inside(path: Seq<char>, working_dir: Seq<char>)
    requires
        stays_inside(path, working_dir),
    ensures
        is_beneath(path_parts(resolved(path, working_dir)), anchored(path_parts(working_dir))),
        is_absolute(working_dir) ==> is_normal(path_parts(resolved(path, working_dir))),
{
    lemma_parts_of_resolved(path, working_dir);
    if is_absolute(working_dir) {
        let base = anchored(path_parts(working_dir));
        let whole = resolved_parts(path, working_dir);
        lemma_rooted_is_absolute(working_dir);
        assert(whole.subrange(0, base.len() as int)[0] == whole[0]);
        assert forall|i: int| 0 <= i < whole.len() implies is_normal_at(#[trigger] whole[i], i) by {
            assert(is_anchored_at(whole, i));
            if whole[i] is Parent {
                lemma_parents_in_front(whole, i);
            }
        }
    }
}

/// A resolved path leads where it says: there is no `.` or `..` left in it to carry out.
pub proof fn law_resolved_path_stays(path: Seq<char>, working_dir: Seq<char>)
    ensures
        path_parts(resolved(path, working_dir)) == resolved_parts(path, working_dir),
        anchored(path_parts(resolved(path, working_dir))) == resolved_parts(path, working_dir),
{
    lemma_parts_of_resolved(path, working_dir);
    lemma_anchored_stays(resolved_parts(path, working_dir));
}

/// Where the joined path is absolute, which it is from every absolute working directory, it
/// resolves to its normalised form.
pub proof fn law_resolving_normalises(path: Seq<char>, working_dir: Seq<char>)
    requires
        is_absolute(path_from(working_dir, path)),
    ensures
        resolved(path, working_dir) == rendered(
            normalised(path_parts(path_from(working_dir, path))),
        ),
{
    lemma_rooted_is_absolute(path_from(working_dir, path));
    lemma_rooted_walk(path_parts(path_from(working_dir, path)));
}

/// An absolute path is judged by where it leads, whatever it starts with: it is accepted where
/// the working directory is absolute and the path's normalised form is that directory or beneath
/// it, and resolves to that form.
pub proof fn law_absolute_path_stands_alone(path: Seq<char>, working_dir: Seq<char>)
    requires
        is_absolute(path),
    ensures
        ({
            let form = rendered(normalised(path_parts(path)));
            &&& stays_inside(path, working_dir) <==> is_absolute(working_dir) && anchored(
                path_parts(working_dir),
            ).is_prefix_of(path_parts(form))
            &&& resolved(path, working_dir) == form
        }),
{
    law_normalising_is_final(path);
    law_resolving_normalises(path, working_dir);
    lemma_rooted_is_absolute(path);
    lemma_rooted_is_absolute(working_dir);
    lemma_rooted_walk(path_parts(path));
    let base = anchored(path_parts(working_dir));
    let whole = normalised(path_parts(path));
    if base.is_prefix_of(whole) && base.len() > 0 {
        assert(whole.subrange(0, base.len() as int)[0] == whole[0]);
    }
    assert forall|i: int| 0 < i < whole.len() implies #[trigger] whole[i] is Normal by {
        assert(is_normal_at(whole[i], i));
    }
}

/// The pieces of a path behind a slash are pieces of their own.
proof fn lemma_segments_of_joined(a: Seq<char>, b: Seq<char>)
    ensures
        segments(a + seq!['/'] + b) == segments(a) + segments(b),
    decreases b.len(),
{
    let mid = a + seq!['/'];
    assert(mid.drop_last() =~= a);
    if b.len() == 0 {
        assert(mid + b =~= mid);
        assert(segments(a).push(Seq::empty()) =~= segments(a) + segments(b));
    } else {
        let c = b.drop_last();
        lemma_segments_of_joined(a, c);
        lemma_no_slash_in_segments(c);
        assert((mid + b).drop_last() =~= mid + c);
        assert((mid + b).last() == b.last());
        let whole = segments(a) + segments(c);
        if b.last() == '/' {
            assert(whole.push(Seq::empty()) =~= segments(a) + segments(b));
        } else {
            assert(whole.last() == segments(c).last());
            assert(whole.drop_last().push(whole.last().push(b.last())) =~= segments(a) + segments(
                b,
            ));
        }
    }
}

/// `parts` without the `.` that they start with.
pub open spec fn without_current(parts: Seq<PathPart>) -> Seq<PathPart> {
    if parts.len() > 0 && parts[0] is Current {
        parts.drop_first()
    } else {
        parts
    }
}

proof fn lemma_current_only_in_front(segs: Seq<Seq<char>>)
    ensures
        segs.len() > 0 ==> (segment_parts(segs).len() > 0 && segment_parts(segs)[0] is Current
            <==> segs[0] == seq!['.']),
        segs.len() == 0 ==> segment_parts(segs).len() == 0,
    decreases segs.len(),
{
    if segs.len() > 0 {
        lemma_current_only_in_front(segs.drop_last());
        if segs.len() == 1 {
            assert(segs.drop_last() =~= Seq::empty());
            assert(segs.last() == segs[0]);
        }
    }
}

proof fn lemma_parts_of_joined_segments(a: Seq<Seq<char>>, b: Seq<Seq<char>>)
    requires
        a.len() > 0,
    ensures
        segment_parts(a + b) == segment_parts(a) + without_current(segment_parts(b)),
    decreases b.len(),
{
    lemma_current_only_in_front(b);
    if b.len() == 0 {
        assert(a + b =~= a);
        assert(segment_parts(a) + without_current(segment_parts(b)) =~= segment_parts(a));
    } else {
        let c = b.drop_last();
        lemma_parts_of_joined_segments(a, c);
        lemma_current_only_in_front(c);
        assert((a + b).drop_last() =~= a + c);
        assert((a + b).last() == b.last());
        if b.len() == 1 {
            assert(c =~= Seq::empty());
            assert(segment_parts(c) =~= Seq::empty());
            assert(b.last() == b[0]);
        }
        assert(segment_parts(a + b) =~= segment_parts(a) + without_current(segment_parts(b)));
    }
}

/// The components of a relative path taken from a directory are those of the directory and
/// then those of the path.
pub proof fn lemma_parts_of_path_from(path: Seq<char>, working_dir: Seq<char>)
    requires
        working_dir.len() > 0,
        !is_absolute(path),
    ensures
        path_parts(path_from(working_dir, path)) == path_parts(working_dir) + without_current(
            path_parts(path),
        ),
{
    let text = path_from(working_dir, path);
    lemma_no_slash_in_segments(working_dir);
    lemma_no_slash_in_segments(path);
    assert(path_parts(path) =~= segment_parts(segments(path)));
    let tail = without_current(segment_parts(segments(path)));
    if working_dir.last() == '/' {
        let front = working_dir.drop_last();
        lemma_no_slash_in_segments(front);
        assert(working_dir =~= front + seq!['/']);
        lemma_segments_of_joined(front, path);
        assert(segments(working_dir) == segments(front).push(Seq::empty()));
        assert(segments(working_dir).drop_last() =~= segments(front));
        assert(segment_parts(segments(working_dir)) == segment_parts(segments(front)));
        lemma_parts_of_joined_segments(segments(front), segments(path));
        lemma_absolute_prefix(working_dir, path);
    } else {
        lemma_segments_of_joined(working_dir, path);
        lemma_parts_of_joined_segments(segments(working_dir), segments(path));
        lemma_absolute_prefix(working_dir, seq!['/']);
        lemma_absolute_prefix(working_dir + seq!['/'], path);
    }
    assert(segment_parts(segments(text)) == segment_parts(segments(working_dir)) + tail);
    assert(path_parts(text) =~= path_parts(working_dir) + tail);
}

/// A relative path is walked from where the working directory leads.
pub proof fn law_relative_path_starts_at_the_working_directory(
    path: Seq<char>,
    working_dir: Seq<char>,
)
    requires
        !is_absolute(path),
    ensures
        resolved_parts(path, working_dir) == anchored(
            anchored(path_parts(working_dir)) + path_parts(path),
        ),
{
    let dir = path_parts(working_dir);
    let parts = path_parts(path);
    lemma_path_parts_proper(working_dir);
    lemma_walk_in_two(dir, parts);
    if working_dir.len() == 0 {
        lemma_parts_of_rendered(Seq::empty());
        assert(working_dir =~= rendered(Seq::empty()));
        assert(path_from(working_dir, path) =~= path);
        assert(dir + parts =~= parts);
    } else {
        lemma_parts_of_path_from(path, working_dir);
        if parts.len() > 0 && parts[0] is Current {
            lemma_current_leads_nowhere(dir, parts.drop_first());
            assert(dir.push(PathPart::Current) + parts.drop_first() =~= dir + parts);
        }
    }
}

/// How the working directory is written makes no difference: what it leads to, written down
/// without a needless `.` or `..`, accepts the same paths and resolves them to the same.
pub proof fn law_spelling_of_the_working_directory(path: Seq<char>, working_dir: Seq<char>)
    ensures
        ({
            let plain = rendered(anchored(path_parts(working_dir)));
            &&& stays_inside(path, plain) == stays_inside(path, working_dir)
            &&& resolved(path, plain) == resolved(path, working_dir)
        }),
{
    let base = anchored(path_parts(working_dir));
    lemma_path_parts_proper(working_dir);
    lemma_anchored_is_anchored(path_parts(working_dir));
    lemma_parts_of_rendered(base);
    lemma_anchored_stays(base);
    if !is_absolute(path) {
        law_relative_path_starts_at_the_working_directory(path, working_dir);
        law_relative_path_starts_at_the_working_directory(path, rendered(base));
    }
}

/// From an absolute working directory, and from one that leads nowhere (such as `.`), a resolved
/// path resolves to itself.
pub proof fn law_resolving_twice(path: Seq<char>, working_dir: Seq<char>)
    requires
        is_absolute(working_dir) || anchored(path_parts(working_dir)).len() == 0,
        stays_inside(path, working_dir),
    ensures
        is_absolute(resolved(path, working_dir)) == is_absolute(working_dir),
        stays_inside(resolved(path, working_dir), working_dir),
        resolved(resolved(path, working_dir), working_dir) == resolved(path, working_dir),
{
    let base = anchored(path_parts(working_dir));
    let whole = resolved_parts(path, working_dir);
    let once = resolved(path, working_dir);
    lemma_parts_of_resolved(path, working_dir);
    lemma_anchored_stays(whole);
    lemma_rooted_is_absolute(working_dir);
    lemma_rooted_is_absolute(once);
    if is_absolute(working_dir) {
        assert(whole.subrange(0, base.len() as int)[0] == whole[0]);
    } else {
        law_relative_path_starts_at_the_working_directory(once, working_dir);
        assert(base + whole =~= whole);
    }
    assert(resolved_parts(once, working_dir) == whole);
}

/// Walking from a directory without climbing out of it ends beneath it.
proof fn lemma_walk_beneath(base: Seq<PathPart>, parts: Seq<PathPart>)
    requires
        is_anchored(base),
        is_relative(parts),
        never_climbs_out(parts),
    ensures
        is_beneath(anchored(base + parts), base),
        anchored(base + parts).len() == base.len() + height(parts),
    decreases parts.len(),
{
    if parts.len() == 0 {
        assert(base + parts =~= base);
        lemma_anchored_stays(base);
        assert(base =~= base.subrange(0, base.len() as int));
    } else {
        let init = parts.drop_last();
        assert forall|k: int| 0 <= k <= init.len() implies height(#[trigger] init.take(k)) >= 0 by {
            assert(init.take(k) =~= parts.take(k));
        }
        assert forall|i: int| 0 <= i < init.len() implies is_proper_at(#[trigger] init[i], 1) by {
            assert(init[i] == parts[i]);
        }
        lemma_walk_beneath(base, init);
        assert((base + parts).drop_last() =~= base + init);
        assert((base + parts).last() == parts.last());
        assert(is_proper_at(parts[parts.len() - 1], 1));
        assert(parts.take(parts.len() as int) =~= parts);
        let before = anchored(base + init);
        let after = anchored(base + parts);
        assert(after == walk_kept(before, parts.last()));
        assert forall|i: int| base.len() <= i < after.len() implies #[trigger] after[i] is Normal by {
            if i < before.len() {
                assert(after[i] == before[i]);
            }
        }
        assert(base =~= after.subrange(0, base.len() as int)) by {
            assert forall|i: int| 0 <= i < base.len() implies base[i] == after[i] by {
                assert(before.subrange(0, base.len() as int)[i] == before[i]);
            }
        }
    }
}

/// A relative path that never climbs above where it starts is accepted, whatever the working
/// directory; a path without `..` is such a path.
pub proof fn law_walking_beneath_is_accepted(path: Seq<char>, working_dir: Seq<char>)
    requires
        !is_absolute(path),
        never_climbs_out(path_parts(path)),
    ensures
        stays_inside(path, working_dir),
{
    law_relative_path_starts_at_the_working_directory(path, working_dir);
    lemma_path_parts_proper(working_dir);
    lemma_anchored_is_anchored(path_parts(working_dir));
    lemma_relative_parts(path);
    lemma_walk_beneath(anchored(path_parts(working_dir)), path_parts(path));
}

/// How deep a walk that starts at the depth `start` ends, above zero for names and below it for
/// `..`; with `rooted`, zero is the root, and there is no way above it.
pub open spec fn depth_after(start: int, rooted: bool, parts: Seq<PathPart>) -> int
    decreases parts.len(),
{
    if parts.len() == 0 {
        start
    } else {
        let depth = depth_after(start, rooted, parts.drop_last());
        match parts.last() {
            PathPart::Normal(_) => depth + 1,
            PathPart::Parent => if rooted && depth == 0 {
                0
            } else {
                depth - 1
            },
            _ => depth,
        }
    }
}

/// How many `..` there are.
pub open spec fn ups(parts: Seq<PathPart>) -> nat
    decreases parts.len(),
{
    if parts.len() == 0 {
        0
    } else if parts.last() is Parent {
        ups(parts.drop_last()) + 1
    } else {
        ups(parts.drop_last())
    }
}

proof fn lemma_height_from_root(at: Seq<PathPart>)
    requires
        is_anchored(at),
        is_rooted(at),
    ensures
        height(at) == at.len() - 1,
    decreases at.len(),
{
    let init = at.drop_last();
    lemma_anchored_front(at);
    if init.len() == 0 {
        assert(at.last() == at[0]);
        assert(height(init) == 0);
    } else {
        assert(init[0] == at[0]);
        lemma_height_from_root(init);
        if at.last() is Parent {
            lemma_parents_in_front(at, at.len() - 1);
        }
    }
}

/// A walk ends as deep as counting says.
proof fn lemma_depth_of_walk(base: Seq<PathPart>, parts: Seq<PathPart>)
    requires
        is_anchored(base),
        is_relative(parts),
    ensures
        is_anchored(anchored(base + parts)),
        is_rooted(anchored(base + parts)) == is_rooted(base),
        height(anchored(base + parts)) == depth_after(height(base), is_rooted(base), parts),
    decreases parts.len(),
{
    if parts.len() == 0 {
        assert(base + parts =~= base);
        lemma_anchored_stays(base);
    } else {
        let init = parts.drop_last();
        let last = parts.last();
        assert forall|i: int| 0 <= i < init.len() implies is_proper_at(#[trigger] init[i], 1) by {
            assert(init[i] == parts[i]);
        }
        lemma_depth_of_walk(base, init);
        assert((base + parts).drop_last() =~= base + init);
        assert((base + parts).last() == last);
        assert(is_proper_at(parts[parts.len() - 1], 1));
        let before = anchored(base + init);
        lemma_step_is_anchored(before, last, 1);
        if is_rooted(before) {
            lemma_height_from_root(before);
        }
        if before.len() > 0 {
            assert(is_anchored_at(before, before.len() - 1));
        }
        let after = walk_kept(before, last);
        assert(after == anchored(base + parts));
        match last {
            PathPart::Normal(_) => {
                assert(after == before.push(last));
                assert(after.drop_last() =~= before);
                assert(height(after) == height(before) + 1);
            },
            PathPart::Parent => {
                if before.len() > 0 && before.last() is Normal {
                    assert(height(before) == height(after) + 1);
                } else if is_rooted(before) {
                    if before.last() is Parent {
                        lemma_parents_in_front(before, before.len() - 1);
                    }
                } else {
                    assert(after == before.push(last));
                    assert(after.drop_last() =~= before);
                    assert(height(after) == height(before) - 1);
                }
            },
            _ => {},
        }
    }
}

/// Names that are added count as many steps down, and none up.
proof fn lemma_height_beneath(parts: Seq<PathPart>, base: Seq<PathPart>)
    requires
        is_beneath(parts, base),
    ensures
        height(parts) == height(base) + parts.len() - base.len(),
        ups(parts) == ups(base),
    decreases parts.len(),
{
    if parts.len() == base.len() {
        assert(parts.subrange(0, base.len() as int) =~= parts);
    } else {
        let init = parts.drop_last();
        assert(parts[parts.len() - 1] is Normal);
        assert(init.subrange(0, base.len() as int) =~= parts.subrange(0, base.len() as int));
        assert forall|i: int| base.len() <= i < init.len() implies #[trigger] init[i] is Normal by {
            assert(init[i] == parts[i]);
        }
        lemma_height_beneath(init, base);
    }
}

/// A relative path that ends above the working directory is refused. (The root is above
/// everything but itself: `..` leads from it to it.)
pub proof fn law_ending_above_is_refused(path: Seq<char>, working_dir: Seq<char>)
    requires
        !is_absolute(path),
        ({
            let start = height(anchored(path_parts(working_dir)));
            depth_after(start, is_absolute(working_dir), path_parts(path)) < start
        }),
    ensures
        !stays_inside(path, working_dir),
{
    let base = anchored(path_parts(working_dir));
    law_relative_path_starts_at_the_working_directory(path, working_dir);
    lemma_path_parts_proper(working_dir);
    lemma_anchored_is_anchored(path_parts(working_dir));
    lemma_rooted_is_absolute(working_dir);
    lemma_relative_parts(path);
    lemma_depth_of_walk(base, path_parts(path));
    if stays_inside(path, working_dir) {
        lemma_height_beneath(resolved_parts(path, working_dir), base);
    }
}

/// Away from the root, steps up and down add up.
proof fn lemma_depth_adds_up(start: int, parts: Seq<PathPart>)
    ensures
        depth_after(start, false, parts) == start + height(parts),
    decreases parts.len(),
{
    if parts.len() > 0 {
        lemma_depth_adds_up(start, parts.drop_last());
    }
}

proof fn lemma_no_deeper_than_ups(parts: Seq<PathPart>)
    ensures
        height(parts) + ups(parts) >= 0,
    decreases parts.len(),
{
    if parts.len() > 0 {
        lemma_no_deeper_than_ups(parts.drop_last());
    }
}

/// A `..` that was kept is kept for good.
proof fn lemma_ups_stay(base: Seq<PathPart>, parts: Seq<PathPart>, k: int)
    requires
        is_relative(parts),
        0 <= k <= parts.len(),
    ensures
        ups(anchored(base + parts.take(k))) <= ups(anchored(base + parts)),
    decreases parts.len(),
{
    if k == parts.len() {
        assert(parts.take(k) =~= parts);
    } else {
        let init = parts.drop_last();
        assert forall|i: int| 0 <= i < init.len() implies is_proper_at(#[trigger] init[i], 1) by {
            assert(init[i] == parts[i]);
        }
        lemma_ups_stay(base, init, k);
        assert(init.take(k) =~= parts.take(k));
        assert((base + parts).drop_last() =~= base + init);
        assert((base + parts).last() == parts.last());
        assert(is_proper_at(parts[parts.len() - 1], 1));
        let before = anchored(base + init);
        assert(before.push(parts.last()).drop_last() =~= before);
    }
}

/// A relative path that climbs, at any point, above where a relative working directory begins
/// is refused, also where it comes down again by the same names.
pub proof fn law_climbing_above_the_start_is_refused(
    path: Seq<char>,
    working_dir: Seq<char>,
    k: int,
)
    requires
        !is_absolute(path),
        !is_absolute(working_dir),
        0 <= k <= path_parts(path).len(),
        ({
            let base = anchored(path_parts(working_dir));
            height(base) + height(path_parts(path).take(k)) < -ups(base)
        }),
    ensures
        !stays_inside(path, working_dir),
{
    let base = anchored(path_parts(working_dir));
    let parts = path_parts(path);
    let part = parts.take(k);
    law_relative_path_starts_at_the_working_directory(path, working_dir);
    lemma_path_parts_proper(working_dir);
    lemma_anchored_is_anchored(path_parts(working_dir));
    lemma_rooted_is_absolute(working_dir);
    lemma_relative_parts(path);
    assert forall|i: int| 0 <= i < part.len() implies is_proper_at(#[trigger] part[i], 1) by {
        assert(part[i] == parts[i]);
    }
    lemma_depth_of_walk(base, part);
    lemma_depth_adds_up(height(base), part);
    lemma_no_deeper_than_ups(anchored(base + part));
    lemma_ups_stay(base, parts, k);
    if stays_inside(path, working_dir) {
        lemma_height_beneath(resolved_parts(path, working_dir), base);
    }
}

/// A path without a slash is one component: `.` and `..` are what they are, and everything else
/// is a name as it is written. The empty path has none.
pub proof fn law_piece_is_one_component(piece: Seq<char>)
    requires
        !piece.contains('/'),
    ensures
        piece.len() == 0 ==> path_parts(piece).len() == 0,
        piece == "."@ ==> path_parts(piece) == seq![PathPart::Current],
        piece == ".."@ ==> path_parts(piece) == seq![PathPart::Parent],
        piece.len() > 0 && piece != "."@ && piece != ".."@ ==> path_parts(piece) == seq![
            PathPart::Normal(piece),
        ],
{
    reveal_strlit(".");
    reveal_strlit("..");
    assert("."@ =~= seq!['.']);
    assert(".."@ =~= seq!['.', '.']);
    assert(".."@.len() != "."@.len());
    let nothing = Seq::<char>::empty();
    lemma_segments_of_tail(nothing, piece);
    assert(nothing + piece =~= piece);
    let one = segments(piece);
    assert(segments(nothing).drop_last() =~= Seq::empty());
    assert(one =~= seq![piece]);
    assert(one.drop_last() =~= Seq::empty());
    assert(segment_parts(one.drop_last()) =~= Seq::empty());
    if piece.len() > 0 {
        assert(piece.contains(piece[0]));
    }
    assert(path_parts(piece) =~= segment_parts(one));
}

/// `parts` as they count behind a slash: without a root or a `.` in front.
pub open spec fn behind_slash(parts: Seq<PathPart>) -> Seq<PathPart> {
    if parts.len() > 0 && (parts[0] is Root || parts[0] is Current) {
        parts.skip(1)
    } else {
        parts
    }
}

/// A slash parts a path in two: what stands before it and what stands behind it. With nothing
/// before it, it is the root.
pub proof fn law_slash_parts_a_path(front: Seq<char>, back: Seq<char>)
    ensures
        path_parts(front + seq!['/'] + back) == (if front.len() == 0 {
            seq![PathPart::Root]
        } else {
            path_parts(front)
        }) + behind_slash(path_parts(back)),
{
    let text = front + seq!['/'] + back;
    let tail = segment_parts(segments(back));
    lemma_segments_of_joined(front, back);
    lemma_no_slash_in_segments(front);
    lemma_no_slash_in_segments(back);
    lemma_parts_of_joined_segments(segments(front), segments(back));
    lemma_current_only_in_front(segments(back));
    assert(without_current(tail) =~= behind_slash(path_parts(back))) by {
        if is_absolute(back) {
            lemma_first_segment_of_absolute(back);
            assert(path_parts(back).skip(1) =~= tail);
        } else {
            lemma_relative_parts(back);
            assert(path_parts(back) =~= tail);
            if tail.len() > 0 {
                assert(is_proper_at(path_parts(back)[0], 1));
                assert(tail.skip(1) =~= tail.drop_first());
            }
        }
    }
    if front.len() == 0 {
        assert(text[0] == '/');
        assert(segments(front).drop_last() =~= Seq::empty());
        assert(segment_parts(segments(front).drop_last()) =~= Seq::empty());
        assert(segment_parts(segments(front)) =~= Seq::empty());
    } else {
        lemma_absolute_prefix(front, seq!['/'] + back);
        assert(front + (seq!['/'] + back) =~= text);
    }
    assert(path_parts(text) =~= (if front.len() == 0 {
        seq![PathPart::Root]
    } else {
        path_parts(front)
    }) + behind_slash(path_parts(back)));
}

/// Before the slash of an absolute path there is nothing.
proof fn lemma_first_segment_of_absolute(text: Seq<char>)
    requires
        is_absolute(text),
    ensures
        segments(text).len() > 1,
        segments(text)[0] == Seq::<char>::empty(),
{
    let nothing = Seq::<char>::empty();
    let rest = text.skip(1);
    assert(text =~= nothing + seq!['/'] + rest);
    lemma_segments_of_joined(nothing, rest);
    lemma_no_slash_in_segments(rest);
}

/// A path is written down as its components with one slash between two of them, and with none
/// behind the root or at the end.
pub proof fn law_path_is_written_plainly(parts: Seq<PathPart>, part: PathPart)
    requires
        is_anchored(parts.push(part)),
    ensures
        rendered(Seq::<PathPart>::empty()).len() == 0,
        parts.len() == 0 ==> rendered(parts.push(part)) == match part {
            PathPart::Root => "/"@,
            PathPart::Normal(name) => name,
            _ => ".."@,
        },
        parts == seq![PathPart::Root] ==> (part matches PathPart::Normal(name) && rendered(
            parts.push(part),
        ) == "/"@ + name),
        parts.len() > 0 && parts != seq![PathPart::Root] ==> rendered(parts.push(part)) == rendered(
            parts,
        ) + "/"@ + match part {
            PathPart::Normal(name) => name,
            _ => ".."@,
        },
{
    reveal_strlit("/");
    reveal_strlit("..");
    assert("/"@ =~= seq!['/']);
    assert(".."@ =~= seq!['.', '.']);
    let grown = parts.push(part);
    assert(grown.drop_last() =~= parts);
    assert(grown.last() == part);
    lemma_anchored_front(grown);
    assert(rendered(grown) == appended(rendered(parts), part_text(part)));
    if parts.len() == 0 {
        assert(rendered(grown) =~= part_text(part));
    } else if parts == seq![PathPart::Root] {
        assert(parts.drop_last() =~= Seq::empty());
        assert(rendered(parts.drop_last()) =~= Seq::empty());
        assert(parts.last() is Root);
        assert(rendered(parts) =~= seq!['/']);
        if part is Parent {
            lemma_parents_in_front(grown, 1);
        }
    } else {
        lemma_no_slash_at_end(parts);
    }
}

/// A path other than the root does not end in a slash.
proof fn lemma_no_slash_at_end(parts: Seq<PathPart>)
    requires
        is_anchored(parts),
        parts.len() > 0,
        parts != seq![PathPart::Root],
    ensures
        rendered(parts).len() > 0,
        rendered(parts).last() != '/',
{
    let init = parts.drop_last();
    let last = parts.last();
    lemma_anchored_front(parts);
    if last is Root {
        assert(parts =~= seq![PathPart::Root]);
    } else {
        if last is Parent {
            let dots = seq!['.', '.'];
            assert(dots[0] == '.' && dots[1] == '.');
            assert(dots.len() != seq!['.'].len());
        }
        lemma_parts_of_appended(rendered(init), part_text(last), last);
    }
}

/// A walk goes step by step: down by a name, nowhere by `.`, back by `..` where it came down, and
/// above its start by `..` where it did not, but never above the root.
pub proof fn law_walk_goes_step_by_step(parts: Seq<PathPart>, name: Seq<char>)
    ensures
        anchored(Seq::<PathPart>::empty()).len() == 0,
        anchored(seq![PathPart::Root]) == seq![PathPart::Root],
        anchored(parts.push(PathPart::Normal(name))) == anchored(parts).push(
            PathPart::Normal(name),
        ),
        anchored(parts.push(PathPart::Current)) == anchored(parts),
        anchored(parts.push(PathPart::Normal(name)).push(PathPart::Parent)) == anchored(parts),
        anchored(parts) == seq![PathPart::Root] ==> anchored(parts.push(PathPart::Parent))
            == anchored(parts),
        anchored(parts).len() == 0 || anchored(parts).last() is Parent && anchored(parts)[0] is Parent
            ==> anchored(parts.push(PathPart::Parent)) == anchored(parts).push(PathPart::Parent),
        anchored(parts).len() > 0 && anchored(parts).last() is Normal ==> anchored(
            parts.push(PathPart::Parent),
        ) == anchored(parts).take(anchored(parts).len() - 1),
{
    let down = parts.push(PathPart::Normal(name));
    assert(down.drop_last() =~= parts);
    assert(parts.push(PathPart::Current).drop_last() =~= parts);
    assert(parts.push(PathPart::Parent).drop_last() =~= parts);
    assert(down.push(PathPart::Parent).drop_last() =~= down);
    assert(anchored(down) == anchored(parts).push(PathPart::Normal(name)));
    assert(anchored(down.push(PathPart::Parent)) == walk_kept(anchored(down), PathPart::Parent));
    assert(anchored(parts).push(PathPart::Normal(name)).drop_last() =~= anchored(parts));
    let root = seq![PathPart::Root];
    assert(root.drop_last() =~= Seq::empty());
    assert(anchored(root.drop_last()) =~= Seq::empty());
    if anchored(parts).len() > 0 {
        assert(anchored(parts).take(anchored(parts).len() - 1) =~= anchored(parts).drop_last());
    }
}

/// Normalising goes step by step: a name is kept, `.` is dropped, and `..` takes a name with it
/// where there is one.
pub proof fn law_normalising_goes_step_by_step(parts: Seq<PathPart>, name: Seq<char>)
    ensures
        normalised(Seq::<PathPart>::empty()).len() == 0,
        normalised(seq![PathPart::Root]) == seq![PathPart::Root],
        normalised(parts.push(PathPart::Normal(name))) == normalised(parts).push(
            PathPart::Normal(name),
        ),
        normalised(parts.push(PathPart::Current)) == normalised(parts),
        normalised(parts.push(PathPart::Normal(name)).push(PathPart::Parent)) == normalised(parts),
        normalised(parts).len() > 0 && normalised(parts).last() is Normal ==> normalised(
            parts.push(PathPart::Parent),
        ) == normalised(parts).take(normalised(parts).len() - 1),
        normalised(parts).len() == 0 || normalised(parts) == seq![PathPart::Root] ==> normalised(
            parts.push(PathPart::Parent),
        ) == normalised(parts),
{
    let down = parts.push(PathPart::Normal(name));
    assert(down.drop_last() =~= parts);
    assert(parts.push(PathPart::Current).drop_last() =~= parts);
    assert(parts.push(PathPart::Parent).drop_last() =~= parts);
    assert(down.push(PathPart::Parent).drop_last() =~= down);
    assert(normalised(down) == normalised(parts).push(PathPart::Normal(name)));
    assert(normalised(down.push(PathPart::Parent)) == walk(normalised(down), PathPart::Parent));
    assert(normalised(parts).push(PathPart::Normal(name)).drop_last() =~= normalised(parts));
    let root = seq![PathPart::Root];
    assert(root.drop_last() =~= Seq::empty());
    assert(normalised(root.drop_last()) =~= Seq::empty());
    if normalised(parts).len() > 0 {
        assert(normalised(parts).take(normalised(parts).len() - 1)
            =~= normalised(parts).drop_last());
    }
}

/// Where a path is looked for: an absolute one at the root, and another behind the directory,
/// with one slash between them.
pub proof fn law_relative_paths_are_joined(path: Seq<char>, dir: Seq<char>)
    ensures
        path.len() > 0 && path[0] == '/' ==> path_from(dir, path) == path,
        !(path.len() > 0 && path[0] == '/') ==> path_from(dir, path) == if dir.len() == 0 {
            path
        } else if dir[dir.len() - 1] == '/' {
            dir + path
        } else {
            dir + "/"@ + path
        },
        resolved_parts(path, dir) == anchored(path_parts(path_from(dir, path))),
        resolved(path, dir) == rendered(anchored(path_parts(path_from(dir, path)))),
{
    reveal_strlit("/");
    assert("/"@ =~= seq!['/']);
    if dir.len() == 0 {
        assert(dir + path =~= path);
    }
}

/// A path is inside a directory where it leads to the directory or, by names alone, to something
/// beneath it.
pub proof fn law_inside_is_the_directory_and_names(path: Seq<char>, dir: Seq<char>)
    ensures
        stays_inside(path, dir) <==> {
            let base = anchored(path_parts(dir));
            let whole = anchored(path_parts(path_from(dir, path)));
            &&& base.len() <= whole.len()
            &&& forall|i: int|
                0 <= i < whole.len() ==> if i < base.len() {
                    #[trigger] whole[i] == base[i]
                } else {
                    whole[i] is Normal
                }
        },
{
    let base = anchored(path_parts(dir));
    let whole = anchored(path_parts(path_from(dir, path)));
    if base.len() <= whole.len() {
        let front = whole.subrange(0, base.len() as int);
        if base.is_prefix_of(whole) {
            assert forall|i: int| 0 <= i < base.len() implies whole[i] == base[i] by {
                assert(front[i] == whole[i]);
            }
        }
        if forall|i: int|
            0 <= i < whole.len() ==> if i < base.len() {
                #[trigger] whole[i] == base[i]
            } else {
                whole[i] is Normal
            } {
            assert forall|i: int| 0 <= i < base.len() implies front[i] == base[i] by {
                assert(whole[i] == base[i]);
            }
            assert(front =~= base);
        }
    }
}

/// A component stands for what it is, and a list of them for its components one by one.
pub proof fn law_components_are_what_they_are(name: String, list: Seq<PathComponent>)
    ensures
        PathComponent::RootDir@ == PathPart::Root,
        PathComponent::CurDir@ == PathPart::Current,
        PathComponent::ParentDir@ == PathPart::Parent,
        PathComponent::Normal(name)@ == PathPart::Normal(name@),
        parts_of(list).len() == list.len(),
        forall|i: int| 0 <= i < list.len() ==> #[trigger] parts_of(list)[i] == list[i]@,
{
}

/// A path that is inside is handed over as where it leads, in full; one that is not is refused,
/// with the path and where it leads.
pub proof fn law_safe_path_is_where_it_leads(
    path: &str,
    working_dir: &str,
    r: Result<String, AcpError>,
    components: Result<Vec<PathComponent>, AcpError>,
)
    requires
        call_ensures(resolve_safe_path, (path, working_dir), r),
        call_ensures(resolve_components, (path, working_dir), components),
    ensures
        ({
            let whole = anchored(path_parts(path_from(working_dir@, path@)));
            let refusal = "Path '"@ + path@ + "' escapes the working directory (resolved to '"@
                + rendered(whole) + "')"@;
            if stays_inside(path@, working_dir@) {
                &&& r matches Ok(given)
                &&& given@ == rendered(whole)
                &&& path_parts(given@) == whole
                &&& components matches Ok(list)
                &&& parts_of(list@) == whole
            } else {
                &&& r matches Err(e)
                &&& e.message@ == refusal
                &&& components matches Err(f)
                &&& f.message@ == refusal
            }
        }),
{
    lemma_parts_of_resolved(path@, working_dir@);
}

/// What is read from a path, written down from its components, and normalised.
pub proof fn law_paths_are_read_and_written(
    path: &str,
    read: Vec<PathComponent>,
    list: &Vec<PathComponent>,
    written: String,
    parent: Option<String>,
    normal: String,
)
    requires
        call_ensures(path_components, (path,), read),
        call_ensures(render_path, (list,), written),
        call_ensures(render_parent, (list,), parent),
        call_ensures(lexical_normalise, (path,), normal),
    ensures
        parts_of(read@) == path_parts(path@),
        written@ == rendered(parts_of(list@)),
        parent is Some <==> list@.len() > 0 && list@[list@.len() - 1] is Normal,
        parent matches Some(dir) ==> dir@ == rendered(parts_of(list@.take(list@.len() - 1))),
        normal@ == rendered(normalised(path_parts(path@))),
{
    if list@.len() > 0 {
        let parts = parts_of(list@);
        assert(parts.last() == list@[list@.len() - 1]@);
        assert(parts.drop_last() =~= parts_of(list@.take(list@.len() - 1)));
    }
}

} // verus!
