//! Paths as strings with `/` as the separator: joining, resolving a request
//! path below a root without ever leaving it, and file extensions.

use vstd::prelude::*;
use crate::text::{
    append_chars, append_str, chars_of, first_index, lemma_first_index_is, lemma_split_pieces,
    slice_chars, split, split_chars, string_of, views,
};

verus! {

/// Why a request path was not resolved.
#[derive(Clone, Copy, Debug, PartialEq, Eq, Structural)]
pub enum JoinError {
    /// A segment of the request was the parent-directory marker `..`.
    TraversalBlocked,
}

impl JoinError {
    pub open spec fn message_spec(self) -> Seq<char> {
        "path traversal blocked"@
    }

    /// The text shown for this error.
    pub fn message(&self) -> (s: String)
        ensures
            s@ == self.message_spec(),
    {
        "path traversal blocked".to_owned()
    }
}

/// The directory, below a project root, that holds one directory per run.
pub open spec fn runs_subdir() -> Seq<char> {
    ".glia-fab/runs"@
}

/// The file served for a request that names a directory.
pub open spec fn index_file() -> Seq<char> {
    "index.html"@
}

/// `base` extended by `rel`. A `rel` that starts with `/` is absolute and
/// replaces `base`; otherwise a `/` is put between them unless `base` is
/// empty or already ends with one.
pub open spec fn join_path(base: Seq<char>, rel: Seq<char>) -> Seq<char> {
    if rel.len() > 0 && rel[0] == '/' {
        rel
    } else if base.len() > 0 && base.last() != '/' {
        base.push('/') + rel
    } else {
        base + rel
    }
}

/// The segment `.`, which names the directory it stands in.
pub open spec fn is_dot(seg: Seq<char>) -> bool {
    seg.len() == 1 && seg[0] == '.'
}

/// The segment `..`, which names the parent directory.
pub open spec fn is_dot_dot(seg: Seq<char>) -> bool {
    seg.len() == 2 && seg[0] == '.' && seg[1] == '.'
}

/// A segment that contributes to a path: not empty and not `.`.
pub open spec fn is_kept(seg: Seq<char>) -> bool {
    seg.len() > 0 && !is_dot(seg)
}

/// `base` extended, in order, by each kept segment of `segs`.
pub open spec fn push_all(base: Seq<char>, segs: Seq<Seq<char>>) -> Seq<char>
    decreases segs.len(),
{
    if segs.len() == 0 {
        base
    } else {
        let init = push_all(base, segs.drop_last());
        if is_kept(segs.last()) {
            join_path(init, segs.last())
        } else {
            init
        }
    }
}

/// Some segment is `..`.
pub open spec fn has_parent_segment(segs: Seq<Seq<char>>) -> bool {
    exists|i: int| 0 <= i < segs.len() && is_dot_dot(#[trigger] segs[i])
}

/// `s` without its leading run of `c`.
pub open spec fn strip_leading(s: Seq<char>, c: char) -> Seq<char>
    decreases s.len(),
{
    if s.len() > 0 && s[0] == c {
        strip_leading(s.drop_first(), c)
    } else {
        s
    }
}

/// The part of a request before its query string.
pub open spec fn before_query(requested: Seq<char>) -> Seq<char> {
    requested.take(first_index(requested, '?'))
}

/// The relative path that a request asks for: the query string and leading
/// slashes removed, and the index file added where the request names a
/// directory.
pub open spec fn relative_request(requested: Seq<char>) -> Seq<char> {
    let rel = strip_leading(before_query(requested), '/');
    if rel.len() == 0 || rel.last() == '/' {
        rel + index_file()
    } else {
        rel
    }
}

/// The segments of the relative path that a request asks for.
pub open spec fn request_segments(requested: Seq<char>) -> Seq<Seq<char>> {
    split(relative_request(requested), '/')
}

/// What resolving `requested` below `root` gives.
pub open spec fn safe_join_spec(root: Seq<char>, requested: Seq<char>) -> Result<
    Seq<char>,
    JoinError,
> {
    let segs = request_segments(requested);
    if has_parent_segment(segs) {
        Err(JoinError::TraversalBlocked)
    } else {
        Ok(push_all(root, segs))
    }
}

/// A name that can stand as one component below a directory: not empty, free
/// of `/`, and neither `.` nor `..`.
pub open spec fn is_plain_name(seg: Seq<char>) -> bool {
    &&& is_kept(seg)
    &&& !is_dot_dot(seg)
    &&& forall|j: int| 0 <= j < seg.len() ==> seg[j] != '/'
}

/// `path` is `root` followed by plain names only, so it names `root` itself or
/// something below it.
pub open spec fn stays_below(root: Seq<char>, path: Seq<char>) -> bool {
    exists|names: Seq<Seq<char>>|
        {
            &&& forall|i: int| 0 <= i < names.len() ==> is_plain_name(#[trigger] names[i])
            &&& path == push_all(root, names)
        }
}

/// The kept segments of `segs`, in order.
pub open spec fn kept_segments(segs: Seq<Seq<char>>) -> Seq<Seq<char>>
    decreases segs.len(),
{
    if segs.len() == 0 {
        Seq::empty()
    } else if is_kept(segs.last()) {
        kept_segments(segs.drop_last()).push(segs.last())
    } else {
        kept_segments(segs.drop_last())
    }
}

/// Only the kept segments matter to `push_all`, and each of them is one of
/// the given segments.
pub proof fn lemma_push_all_kept(base: Seq<char>, segs: Seq<Seq<char>>)
    ensures
        push_all(base, segs) == push_all(base, kept_segments(segs)),
        forall|i: int|
            0 <= i < kept_segments(segs).len() ==> is_kept(#[trigger] kept_segments(segs)[i])
                && segs.contains(kept_segments(segs)[i]),
    decreases segs.len(),
{
    if segs.len() > 0 {
        let init = segs.drop_last();
        lemma_push_all_kept(base, init);
        let kept = kept_segments(segs);
        if is_kept(segs.last()) {
            assert(kept.drop_last() == kept_segments(init));
            assert(kept.last() == segs.last());
        }
        assert forall|i: int| 0 <= i < kept.len() implies is_kept(#[trigger] kept[i])
            && segs.contains(kept[i]) by {
            if i < kept_segments(init).len() {
                let seg = kept_segments(init)[i];
                assert(init.contains(seg));
                let j = choose|j: int| 0 <= j < init.len() && init[j] == seg;
                assert(segs[j] == seg);
            } else {
                assert(segs[segs.len() - 1] == kept[i]);
            }
        }
    }
}

/// Appending plain names keeps what was there as a prefix.
pub proof fn lemma_push_all_prefix(base: Seq<char>, names: Seq<Seq<char>>)
    requires
        forall|i: int| 0 <= i < names.len() ==> is_plain_name(#[trigger] names[i]),
    ensures
        base.is_prefix_of(push_all(base, names)),
    decreases names.len(),
{
    if names.len() > 0 {
        let init = names.drop_last();
        assert forall|i: int| 0 <= i < init.len() implies is_plain_name(#[trigger] init[i]) by {
            assert(init[i] == names[i]);
        }
        lemma_push_all_prefix(base, init);
        let name = names[names.len() - 1];
        assert(is_plain_name(name));
        assert(name[0] != '/');
    }
}

/// A request that is resolved never leaves its root: the resolved path is
/// the root followed by plain names only, none of them `..`, and so has the
/// root as a prefix.
pub proof fn lemma_safe_join_stays_below(root: Seq<char>, requested: Seq<char>)
    ensures
        safe_join_spec(root, requested) matches Ok(path) ==> stays_below(root, path)
            && root.is_prefix_of(path),
        safe_join_spec(root, requested) is Err <==> has_parent_segment(
            request_segments(requested),
        ),
{
    let segs = request_segments(requested);
    if !has_parent_segment(segs) {
        let names = kept_segments(segs);
        lemma_push_all_kept(root, segs);
        lemma_split_pieces(relative_request(requested), '/');
        assert forall|i: int| 0 <= i < names.len() implies is_plain_name(#[trigger] names[i]) by {
            let name = names[i];
            assert(segs.contains(name));
            let j = choose|j: int| 0 <= j < segs.len() && segs[j] == name;
            assert(!is_dot_dot(segs[j]));
        }
        lemma_push_all_prefix(root, names);
    }
}

pub fn join_chars(base: &Vec<char>, rel: &Vec<char>) -> (r: Vec<char>)
    ensures
        r@ == join_path(base@, rel@),
{
    let mut out: Vec<char> = Vec::new();
    if rel.len() > 0 && rel[0] == '/' {
        append_chars(&mut out, rel);
        return out;
    }
    append_chars(&mut out, base);
    if base.len() > 0 && base[base.len() - 1] != '/' {
        out.push('/');
    }
    append_chars(&mut out, rel);
    out
}

/// `base` extended by `rel`, as `join_path` says.
pub fn join(base: &str, rel: &str) -> (r: String)
    ensures
        r@ == join_path(base@, rel@),
{
    let b = chars_of(base);
    let r = chars_of(rel);
    let joined = join_chars(&b, &r);
    string_of(&joined)
}

/// The directory that holds the runs of the project rooted at
/// `project_root`.
pub fn runs_dir_for_project(project_root: &str) -> (dir: String)
    ensures
        dir@ == join_path(project_root@, runs_subdir()),
{
    join(project_root, ".glia-fab/runs")
}

fn is_dot_chars(seg: &Vec<char>) -> (r: bool)
    ensures
        r == is_dot(seg@),
{
    seg.len() == 1 && seg[0] == '.'
}

fn is_dot_dot_chars(seg: &Vec<char>) -> (r: bool)
    ensures
        r == is_dot_dot(seg@),
{
    seg.len() == 2 && seg[0] == '.' && seg[1] == '.'
}

fn strip_leading_chars(s: &Vec<char>, c: char) -> (r: Vec<char>)
    ensures
        r@ == strip_leading(s@, c),
{
    let mut i: usize = 0;
    assert(s@.skip(0) == s@);
    while i < s.len() && s[i] == c
        invariant
            i <= s.len(),
            strip_leading(s@, c) == strip_leading(s@.skip(i as int), c),
        decreases s.len() - i,
    {
        proof {
            let t = s@.skip(i as int);
            assert(t[0] == s@[i as int]);
            assert(t.drop_first() == s@.skip(i + 1));
        }
        i += 1;
    }
    proof {
        let t = s@.skip(i as int);
        if i < s.len() {
            assert(t[0] == s@[i as int]);
        }
        assert(strip_leading(t, c) == t);
        assert(t == s@.subrange(i as int, s.len() as int));
    }
    slice_chars(s, i, s.len())
}

fn before_query_chars(s: &Vec<char>) -> (r: Vec<char>)
    ensures
        r@ == before_query(s@),
{
    let mut i: usize = 0;
    while i < s.len() && s[i] != '?'
        invariant
            i <= s.len(),
            forall|j: int| 0 <= j < i ==> s@[j] != '?',
        decreases s.len() - i,
    {
        i += 1;
    }
    proof {
        lemma_first_index_is(s@, '?', i as int);
    }
    slice_chars(s, 0, i)
}

/// Resolves the path of a request below `root`.
///
/// The query string and leading slashes of the request are dropped, a request
/// for a directory is given the index file, empty and `.` segments are
/// skipped, and the rest is appended to `root` segment by segment. A request
/// with a `..` segment is refused, so an accepted request never leaves
/// `root`.
pub fn safe_join(root: &str, requested_path: &str) -> (r: Result<String, JoinError>)
    ensures
        match r {
            Ok(path) => safe_join_spec(root@, requested_path@) == Ok::<Seq<char>, JoinError>(
                path@,
            ),
            Err(e) => safe_join_spec(root@, requested_path@) == Err::<Seq<char>, JoinError>(e),
        },
{
    let requested = chars_of(requested_path);
    let path = before_query_chars(&requested);
    let mut rel = strip_leading_chars(&path, '/');
    if rel.len() == 0 || rel[rel.len() - 1] == '/' {
        append_str(&mut rel, "index.html");
    }
    let segs = split_chars(&rel, '/');
    assert(views(segs@) == request_segments(requested_path@));
    let mut out = chars_of(root);
    let mut i: usize = 0;
    while i < segs.len()
        invariant
            i <= segs.len(),
            views(segs@) == request_segments(requested_path@),
            out@ == push_all(root@, views(segs@).take(i as int)),
            !has_parent_segment(views(segs@).take(i as int)),
        decreases segs.len() - i,
    {
        let seg = &segs[i];
        proof {
            let all = views(segs@);
            assert(all[i as int] == seg@);
            assert(all.take(i + 1).drop_last() == all.take(i as int));
            assert(all.take(i + 1).last() == seg@);
        }
        if seg.len() == 0 || is_dot_chars(seg) {
        } else if is_dot_dot_chars(seg) {
            assert(has_parent_segment(views(segs@)));
            return Err(JoinError::TraversalBlocked);
        } else {
            out = join_chars(&out, seg);
        }
        proof {
            let all = views(segs@);
            let next = all.take(i + 1);
            if has_parent_segment(next) {
                let k = choose|k: int| 0 <= k < next.len() && is_dot_dot(#[trigger] next[k]);
                if k < i {
                    assert(all.take(i as int)[k] == next[k]);
                }
            }
        }
        i += 1;
    }
    assert(views(segs@).take(segs.len() as int) == views(segs@));
    Ok(string_of(&out))
}

/// The last kept segment of `segs`, if there is one.
pub open spec fn last_kept(segs: Seq<Seq<char>>) -> Option<Seq<char>>
    decreases segs.len(),
{
    if segs.len() == 0 {
        None
    } else if is_kept(segs.last()) {
        Some(segs.last())
    } else {
        last_kept(segs.drop_last())
    }
}

/// The final component of a path: its last segment that is neither empty nor
/// `.`, unless that segment is `..`.
pub open spec fn file_name(path: Seq<char>) -> Option<Seq<char>> {
    match last_kept(split(path, '/')) {
        Some(name) => if is_dot_dot(name) {
            None
        } else {
            Some(name)
        },
        None => None,
    }
}

/// The position of the last `c` in `s`, or `-1` if there is none.
pub open spec fn last_index(s: Seq<char>, c: char) -> int
    decreases s.len(),
{
    if s.len() == 0 {
        -1
    } else if s.last() == c {
        s.len() - 1
    } else {
        last_index(s.drop_last(), c)
    }
}

/// The extension of a path: what follows the last `.` of its file name.
/// There is none where the path has no file name, where the file name holds
/// no `.`, and where its only `.` is its first character.
pub open spec fn extension(path: Seq<char>) -> Option<Seq<char>> {
    match file_name(path) {
        Some(name) => {
            let k = last_index(name, '.');
            if k <= 0 {
                None
            } else {
                Some(name.skip(k + 1))
            }
        },
        None => None,
    }
}

fn last_index_chars(s: &Vec<char>, c: char) -> (r: Option<usize>)
    ensures
        match r {
            Some(k) => k < s.len() && k == last_index(s@, c),
            None => last_index(s@, c) == -1,
        },
{
    let mut i: usize = s.len();
    assert(s@.take(s.len() as int) == s@);
    while i > 0
        invariant
            i <= s.len(),
            last_index(s@, c) == last_index(s@.take(i as int), c),
        decreases i,
    {
        proof {
            let t = s@.take(i as int);
            assert(t.last() == s@[i - 1]);
            assert(t.drop_last() == s@.take(i - 1));
        }
        if s[i - 1] == c {
            return Some(i - 1);
        }
        i -= 1;
    }
    None
}

/// The extension of the path held in `path`, as `extension` says.
pub fn extension_chars(path: &Vec<char>) -> (r: Option<Vec<char>>)
    ensures
        match r {
            Some(ext) => extension(path@) == Some(ext@),
            None => extension(path@) is None,
        },
{
    let segs = split_chars(path, '/');
    let mut i: usize = segs.len();
    assert(views(segs@).take(segs.len() as int) == views(segs@));
    while i > 0
        invariant
            i <= segs.len(),
            views(segs@) == split(path@, '/'),
            last_kept(views(segs@)) == last_kept(views(segs@).take(i as int)),
        decreases i,
    {
        let seg = &segs[i - 1];
        proof {
            let t = views(segs@).take(i as int);
            assert(t.last() == seg@);
            assert(t.drop_last() == views(segs@).take(i - 1));
        }
        if seg.len() > 0 && !is_dot_chars(seg) {
            if is_dot_dot_chars(seg) {
                return None;
            }
            return match last_index_chars(seg, '.') {
                Some(k) => if k == 0 {
                    None
                } else {
                    Some(slice_chars(seg, k + 1, seg.len()))
                },
                None => None,
            };
        }
        i -= 1;
    }
    None
}

} // verus!
