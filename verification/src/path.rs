//! POSIX paths as text: lexical normalisation, and the sandbox that keeps an
//! agent's files under the working directory.
use vstd::prelude::*;
use vstd::string::StrSliceExecFns;
use crate::error::AcpError;
use crate::text::{chars_of, concat3, concat5, same_text};

verus! {

/// One component of a path.
pub enum PathPart {
    Root,
    Current,
    Parent,
    Normal(Seq<char>),
}

/// The pieces of `text` between its slashes, from left to right.
pub open spec fn segments(text: Seq<char>) -> Seq<Seq<char>>
    decreases text.len(),
{
    if text.len() == 0 {
        seq![Seq::empty()]
    } else {
        let init = segments(text.drop_last());
        if text.last() == '/' {
            init.push(Seq::empty())
        } else {
            init.drop_last().push(init.last().push(text.last()))
        }
    }
}

/// The component that one piece stands for: an empty piece stands for none, and so does a
/// dot that other pieces precede.
pub open spec fn segment_part(segment: Seq<char>, first: bool) -> Option<PathPart> {
    if segment.len() == 0 {
        None
    } else if segment == seq!['.'] {
        if first {
            Some(PathPart::Current)
        } else {
            None
        }
    } else if segment == seq!['.', '.'] {
        Some(PathPart::Parent)
    } else {
        Some(PathPart::Normal(segment))
    }
}

/// `parts` with `part` behind them, where there is one.
pub open spec fn push_part(parts: Seq<PathPart>, part: Option<PathPart>) -> Seq<PathPart> {
    match part {
        Some(p) => parts.push(p),
        None => parts,
    }
}

/// The components that pieces stand for.
pub open spec fn segment_parts(segments: Seq<Seq<char>>) -> Seq<PathPart>
    decreases segments.len(),
{
    if segments.len() == 0 {
        Seq::empty()
    } else {
        push_part(
            segment_parts(segments.drop_last()),
            segment_part(segments.last(), segments.len() == 1),
        )
    }
}

/// A path that starts at the root.
pub open spec fn is_absolute(text: Seq<char>) -> bool {
    text.len() > 0 && text[0] == '/'
}

/// The components before the first piece: the root, where the path starts there.
pub open spec fn root_parts(text: Seq<char>) -> Seq<PathPart> {
    if is_absolute(text) {
        seq![PathPart::Root]
    } else {
        Seq::empty()
    }
}

/// The components of a path.
pub open spec fn path_parts(text: Seq<char>) -> Seq<PathPart> {
    root_parts(text) + segment_parts(segments(text))
}

/// What `part` does to a path that is walked: `..` takes the last name off, where there is
/// one to take, and `.` does nothing.
pub open spec fn walk(at: Seq<PathPart>, part: PathPart) -> Seq<PathPart> {
    match part {
        PathPart::Root => seq![PathPart::Root],
        PathPart::Current => at,
        PathPart::Parent => if at.len() > 0 && at.last() is Normal {
            at.drop_last()
        } else {
            at
        },
        PathPart::Normal(name) => at.push(PathPart::Normal(name)),
    }
}

/// A path that is walked from the root.
pub open spec fn is_rooted(at: Seq<PathPart>) -> bool {
    at.len() > 0 && at[0] is Root
}

/// As `walk`, but a `..` is kept where there is neither a name to take off nor a root to stay
/// at: it leads above where the walk began.
pub open spec fn walk_kept(at: Seq<PathPart>, part: PathPart) -> Seq<PathPart> {
    if part is Parent && !(at.len() > 0 && at.last() is Normal) && !is_rooted(at) {
        at.push(PathPart::Parent)
    } else {
        walk(at, part)
    }
}

/// Components with every `.` carried out, and every `..` that can be: where they lead.
pub open spec fn anchored(parts: Seq<PathPart>) -> Seq<PathPart>
    decreases parts.len(),
{
    if parts.len() == 0 {
        Seq::empty()
    } else {
        walk_kept(anchored(parts.drop_last()), parts.last())
    }
}

/// `parts` are those of `base` with nothing but names behind them.
pub open spec fn is_beneath(parts: Seq<PathPart>, base: Seq<PathPart>) -> bool {
    &&& base.is_prefix_of(parts)
    &&& forall|i: int| base.len() <= i < parts.len() ==> #[trigger] parts[i] is Normal
}

/// Components with every `.` and `..` carried out; a `..` with no name to take off is dropped.
pub open spec fn normalised(parts: Seq<PathPart>) -> Seq<PathPart>
    decreases parts.len(),
{
    if parts.len() == 0 {
        Seq::empty()
    } else {
        walk(normalised(parts.drop_last()), parts.last())
    }
}

/// `tail` behind `base`, with a slash between them unless `base` is empty or ends with one.
pub open spec fn appended(base: Seq<char>, tail: Seq<char>) -> Seq<char> {
    if base.len() == 0 || base.last() == '/' {
        base + tail
    } else {
        base + seq!['/'] + tail
    }
}

/// The text of one component.
pub open spec fn part_text(part: PathPart) -> Seq<char> {
    match part {
        PathPart::Root => seq!['/'],
        PathPart::Current => seq!['.'],
        PathPart::Parent => seq!['.', '.'],
        PathPart::Normal(name) => name,
    }
}

/// The path with the components `parts`.
pub open spec fn rendered(parts: Seq<PathPart>) -> Seq<char>
    decreases parts.len(),
{
    if parts.len() == 0 {
        Seq::empty()
    } else {
        appended(rendered(parts.drop_last()), part_text(parts.last()))
    }
}

/// `path` as seen from the directory `base`.
pub open spec fn path_from(base: Seq<char>, path: Seq<char>) -> Seq<char> {
    if is_absolute(path) {
        path
    } else {
        appended(base, path)
    }
}

/// Where `path` leads from `working_dir`, as components.
pub open spec fn resolved_parts(path: Seq<char>, working_dir: Seq<char>) -> Seq<PathPart> {
    anchored(path_parts(path_from(working_dir, path)))
}

/// Where `path` leads from `working_dir`.
pub open spec fn resolved(path: Seq<char>, working_dir: Seq<char>) -> Seq<char> {
    rendered(resolved_parts(path, working_dir))
}

/// `path` leads to where `working_dir` leads or to something beneath it.
pub open spec fn stays_inside(path: Seq<char>, working_dir: Seq<char>) -> bool {
    is_beneath(resolved_parts(path, working_dir), anchored(path_parts(working_dir)))
}

/// What is said of a path that leads out of the working directory.
pub open spec fn escape_message(path: Seq<char>, working_dir: Seq<char>) -> Seq<char> {
    "Path '"@ + path + "' escapes the working directory (resolved to '"@ + resolved(
        path,
        working_dir,
    ) + "')"@
}

/// One component of a path.
#[derive(Debug, PartialEq)]
pub enum PathComponent {
    RootDir,
    CurDir,
    ParentDir,
    Normal(String),
}

impl View for PathComponent {
    type V = PathPart;

    open spec fn view(&self) -> PathPart {
        match self {
            PathComponent::RootDir => PathPart::Root,
            PathComponent::CurDir => PathPart::Current,
            PathComponent::ParentDir => PathPart::Parent,
            PathComponent::Normal(name) => PathPart::Normal(name@),
        }
    }
}

/// The components of a list.
pub open spec fn parts_of(components: Seq<PathComponent>) -> Seq<PathPart> {
    components.map_values(|c: PathComponent| c@)
}

/// Appends the component that the piece from `start` to `end` stands for.
fn push_segment(
    components: &mut Vec<PathComponent>,
    text: &str,
    start: usize,
    end: usize,
    first: bool,
)
    requires
        start <= end <= text@.len(),
    ensures
        parts_of(final(components)@) == push_part(
            parts_of(old(components)@),
            segment_part(text@.subrange(start as int, end as int), first),
        ),
{
    let segment = text.substring_char(start, end);
    proof {
        reveal_strlit(".");
        reveal_strlit("..");
        assert("."@ =~= seq!['.']);
        assert(".."@ =~= seq!['.', '.']);
    }
    let ghost before = parts_of(components@);
    if segment.is_empty() {
        return;
    }
    if same_text(segment, ".") {
        if first {
            components.push(PathComponent::CurDir);
            assert(parts_of(components@) =~= before.push(PathPart::Current));
        }
        return;
    }
    if same_text(segment, "..") {
        components.push(PathComponent::ParentDir);
        assert(parts_of(components@) =~= before.push(PathPart::Parent));
        return;
    }
    components.push(PathComponent::Normal(segment.to_string()));
    assert(parts_of(components@) =~= before.push(PathPart::Normal(segment@)));
}

/// The components of a path.
pub fn path_components(text: &str) -> (r: Vec<PathComponent>)
    ensures
        parts_of(r@) == path_parts(text@),
{
    let chars = chars_of(text);
    let mut out: Vec<PathComponent> = Vec::new();
    if chars.len() > 0 && chars[0] == '/' {
        out.push(PathComponent::RootDir);
    }
    assert(parts_of(out@) =~= root_parts(text@));
    let mut start: usize = 0;
    let mut i: usize = 0;
    assert(text@.take(0) =~= Seq::empty());
    assert(segments(text@.take(0)).drop_last() =~= Seq::empty());
    assert(root_parts(text@) + Seq::<PathPart>::empty() =~= root_parts(text@));
    assert(text@.subrange(0, 0) =~= Seq::empty());
    while i < chars.len()
        invariant
            chars@ == text@,
            start <= i <= chars.len(),
            segments(text@.take(i as int)).len() >= 1,
            (start == 0) == (segments(text@.take(i as int)).len() == 1),
            segments(text@.take(i as int)).last() == text@.subrange(start as int, i as int),
            parts_of(out@) == root_parts(text@) + segment_parts(
                segments(text@.take(i as int)).drop_last(),
            ),
        decreases chars.len() - i,
    {
        let ghost done = segments(text@.take(i as int));
        assert(text@.take(i + 1).drop_last() =~= text@.take(i as int));
        assert(text@.take(i + 1).last() == text@[i as int]);
        if chars[i] == '/' {
            push_segment(&mut out, text, start, i, start == 0);
            assert(done.push(Seq::empty()).drop_last() =~= done);
            assert(parts_of(out@) =~= root_parts(text@) + segment_parts(done));
            start = i + 1;
            assert(text@.subrange(start as int, i + 1) =~= Seq::empty());
        } else {
            assert(text@.subrange(start as int, i + 1) =~= text@.subrange(
                start as int,
                i as int,
            ).push(text@[i as int]));
            assert(segments(text@.take(i + 1)).drop_last() =~= done.drop_last());
        }
        i += 1;
    }
    assert(text@.take(i as int) =~= text@);
    push_segment(&mut out, text, start, i, start == 0);
    assert(parts_of(out@) =~= path_parts(text@));
    out
}

/// Whether a list of components ends in a name.
fn ends_in_name(components: &Vec<PathComponent>) -> (r: bool)
    ensures
        r == (parts_of(components@).len() > 0 && parts_of(components@).last() is Normal),
{
    let n = components.len();
    if n == 0 {
        return false;
    }
    assert(parts_of(components@).last() == components@[n - 1]@);
    match components[n - 1] {
        PathComponent::Normal(_) => true,
        _ => false,
    }
}

/// Whether a list of components starts at the root.
fn starts_at_root(components: &Vec<PathComponent>) -> (r: bool)
    ensures
        r == is_rooted(parts_of(components@)),
{
    if components.len() == 0 {
        return false;
    }
    assert(parts_of(components@)[0] == components@[0]@);
    match components[0] {
        PathComponent::RootDir => true,
        _ => false,
    }
}

/// Components that are walked: with `keep`, a `..` that cannot be carried out stays.
spec fn walked(parts: Seq<PathPart>, keep: bool) -> Seq<PathPart> {
    if keep {
        anchored(parts)
    } else {
        normalised(parts)
    }
}

/// Walks a list of components.
fn walk_components(components: Vec<PathComponent>, keep: bool) -> (r: Vec<PathComponent>)
    ensures
        parts_of(r@) == walked(parts_of(components@), keep),
{
    let ghost all = components@;
    let ghost parts = parts_of(all);
    let mut out: Vec<PathComponent> = Vec::new();
    assert(parts_of(out@) =~= walked(parts.take(0), keep));
    for component in it: components
        invariant
            it.seq() == all,
            parts == parts_of(all),
            parts_of(out@) == walked(parts.take(it.index()), keep),
    {
        let ghost k = it.index();
        let ghost before = parts_of(out@);
        assert(parts.take(k + 1).drop_last() =~= parts.take(k));
        assert(parts[k] == component@);
        match component {
            PathComponent::ParentDir => {
                if ends_in_name(&out) {
                    out.pop();
                    assert(parts_of(out@) =~= before.drop_last());
                } else if keep && !starts_at_root(&out) {
                    out.push(PathComponent::ParentDir);
                    assert(parts_of(out@) =~= before.push(PathPart::Parent));
                }
            },
            PathComponent::CurDir => {},
            PathComponent::RootDir => {
                out = Vec::new();
                out.push(PathComponent::RootDir);
                assert(parts_of(out@) =~= seq![PathPart::Root]);
            },
            PathComponent::Normal(name) => {
                let ghost part = PathPart::Normal(name@);
                out.push(PathComponent::Normal(name));
                assert(parts_of(out@) =~= before.push(part));
            },
        }
    }
    assert(parts.take(parts.len() as int) =~= parts);
    out
}

/// The text of one component.
fn component_text(component: &PathComponent) -> (r: &str)
    ensures
        r@ == part_text(component@),
{
    proof {
        reveal_strlit("/");
        reveal_strlit(".");
        reveal_strlit("..");
        assert("/"@ =~= seq!['/']);
        assert("."@ =~= seq!['.']);
        assert(".."@ =~= seq!['.', '.']);
    }
    match component {
        PathComponent::RootDir => "/",
        PathComponent::CurDir => ".",
        PathComponent::ParentDir => "..",
        PathComponent::Normal(name) => name.as_str(),
    }
}

/// Whether `text` is empty or ends with a slash.
fn needs_no_slash(text: &str) -> (r: bool)
    ensures
        r == (text@.len() == 0 || text@.last() == '/'),
{
    let n = text.unicode_len();
    n == 0 || text.get_char(n - 1) == '/'
}

/// `tail` behind `base`, with a slash between them unless `base` is empty or ends with one.
fn append_path(base: &str, tail: &str) -> (r: String)
    ensures
        r@ == appended(base@, tail@),
{
    proof {
        reveal_strlit("/");
        reveal_strlit("");
        assert("/"@ =~= seq!['/']);
        assert(base@ + ""@ =~= base@);
    }
    let slash = if needs_no_slash(base) {
        ""
    } else {
        "/"
    };
    concat3(base, slash, tail)
}

/// The path with the first `n` components of a list.
fn render_first(components: &Vec<PathComponent>, n: usize) -> (r: String)
    requires
        n <= components.len(),
    ensures
        r@ == rendered(parts_of(components@).take(n as int)),
{
    let ghost parts = parts_of(components@);
    let mut out = String::new();
    assert(parts.take(0) =~= Seq::empty());
    let mut i: usize = 0;
    while i < n
        invariant
            parts == parts_of(components@),
            i <= n <= components.len(),
            out@ == rendered(parts.take(i as int)),
        decreases n - i,
    {
        assert(parts.take(i + 1).drop_last() =~= parts.take(i as int));
        out = append_path(out.as_str(), component_text(&components[i]));
        i += 1;
    }
    out
}

/// The path with the components of a list.
pub fn render_path(components: &Vec<PathComponent>) -> (r: String)
    ensures
        r@ == rendered(parts_of(components@)),
{
    let ghost parts = parts_of(components@);
    assert(parts.take(parts.len() as int) =~= parts);
    render_first(components, components.len())
}

/// The directory that holds what a path leads to, where the path ends in a name.
pub open spec fn parent_dir(parts: Seq<PathPart>) -> Option<Seq<char>> {
    if parts.len() > 0 && parts.last() is Normal {
        Some(rendered(parts.drop_last()))
    } else {
        None
    }
}

/// The directory that holds what a path leads to, where the path ends in a name.
pub fn render_parent(components: &Vec<PathComponent>) -> (r: Option<String>)
    ensures
        match r {
            Some(dir) => parent_dir(parts_of(components@)) == Some(dir@),
            None => parent_dir(parts_of(components@)) is None,
        },
{
    if !ends_in_name(components) {
        return None;
    }
    let ghost parts = parts_of(components@);
    assert(parts.take(components.len() - 1) =~= parts.drop_last());
    Some(render_first(components, components.len() - 1))
}

/// Whether two components are the same.
fn same_component(a: &PathComponent, b: &PathComponent) -> (r: bool)
    ensures
        r == (a@ == b@),
{
    match (a, b) {
        (PathComponent::RootDir, PathComponent::RootDir) => true,
        (PathComponent::CurDir, PathComponent::CurDir) => true,
        (PathComponent::ParentDir, PathComponent::ParentDir) => true,
        (PathComponent::Normal(x), PathComponent::Normal(y)) => same_text(x.as_str(), y.as_str()),
        _ => false,
    }
}

/// Whether `path` is `base` with nothing but names behind it.
fn beneath(path: &Vec<PathComponent>, base: &Vec<PathComponent>) -> (r: bool)
    ensures
        r == is_beneath(parts_of(path@), parts_of(base@)),
{
    let ghost whole = parts_of(path@);
    let ghost front = parts_of(base@);
    if base.len() > path.len() {
        return false;
    }
    let mut i: usize = 0;
    while i < path.len()
        invariant
            whole == parts_of(path@),
            front == parts_of(base@),
            base.len() <= path.len(),
            i <= path.len(),
            forall|k: int| 0 <= k < i && k < front.len() ==> #[trigger] front[k] == whole[k],
            forall|k: int| front.len() <= k < i ==> #[trigger] whole[k] is Normal,
        decreases path.len() - i,
    {
        assert(whole[i as int] == path@[i as int]@);
        if i < base.len() {
            assert(front[i as int] == base@[i as int]@);
            assert(whole.subrange(0, front.len() as int)[i as int] == whole[i as int]);
            if !same_component(&base[i], &path[i]) {
                return false;
            }
        } else {
            match path[i] {
                PathComponent::Normal(_) => {},
                _ => {
                    return false;
                },
            }
        }
        i += 1;
    }
    assert(front =~= whole.subrange(0, front.len() as int));
    true
}

/// Resolves `.` and `..` components without looking at the file system.
pub fn lexical_normalise(path: &str) -> (r: String)
    ensures
        r@ == rendered(normalised(path_parts(path@))),
{
    render_path(&walk_components(path_components(path), false))
}

/// Resolves `path` against `working_dir`, as components, and refuses it where it leads out
/// of that directory.
pub fn resolve_components(path: &str, working_dir: &str) -> (r: Result<
    Vec<PathComponent>,
    AcpError,
>)
    ensures
        match r {
            Ok(components) => stays_inside(path@, working_dir@) && parts_of(components@)
                == resolved_parts(path@, working_dir@),
            Err(e) => !stays_inside(path@, working_dir@) && e@ == escape_message(
                path@,
                working_dir@,
            ),
        },
{
    let absolute = path.unicode_len() > 0 && path.get_char(0) == '/';
    let raw = if absolute {
        path.to_string()
    } else {
        append_path(working_dir, path)
    };
    let components = walk_components(path_components(raw.as_str()), true);
    let base = walk_components(path_components(working_dir), true);
    if beneath(&components, &base) {
        Ok(components)
    } else {
        let shown = render_path(&components);
        Err(
            AcpError::new(
                concat5(
                    "Path '",
                    path,
                    "' escapes the working directory (resolved to '",
                    shown.as_str(),
                    "')",
                ),
            ),
        )
    }
}

/// Validates `path` and resolves it against `working_dir`.
///
/// A relative path is taken from `working_dir`. A path that leads out of it, by `..` or by being
/// absolute and elsewhere, is refused; from a relative `working_dir` every absolute path counts as
/// elsewhere. Neither the path nor the directory need exist, and `.` and `..` in `working_dir`
/// are carried out as they are in the path.
///
/// Both are POSIX paths: only `/` separates names and only a leading `/` is a root. Where paths
/// are written otherwise (drive letters, backslashes) the sandbox does not hold.
pub fn resolve_safe_path(path: &str, working_dir: &str) -> (r: Result<String, AcpError>)
    ensures
        match r {
            Ok(p) => stays_inside(path@, working_dir@) && p@ == resolved(path@, working_dir@),
            Err(e) => !stays_inside(path@, working_dir@) && e@ == escape_message(
                path@,
                working_dir@,
            ),
        },
{
    match resolve_components(path, working_dir) {
        Ok(components) => Ok(render_path(&components)),
        Err(e) => Err(e),
    }
}

} // verus!
