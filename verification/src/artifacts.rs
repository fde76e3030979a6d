//! The files that a run left behind: what kind each is, and under which
//! address it is served.

use vstd::prelude::*;
use crate::order::{
    arranged, is_stable_order, is_stably_sorted, lemma_text_before_total,
    lemma_text_not_before_chain, stable_order, text_before, text_precedes, views_of, Ranked,
};
use crate::paths::{extension, extension_chars};
use crate::text::{
    append_chars, append_str, ascii_lower_seq, chars_of, opt_view, same_chars, string_of,
    to_ascii_lower_chars,
};

verus! {

/// The kind of a file with the given extension in lower case.
pub open spec fn kind_for_extension(ext: Seq<char>) -> Seq<char> {
    if ext == "json"@ {
        "json"@
    } else if ext == "png"@ || ext == "jpg"@ || ext == "jpeg"@ || ext == "webp"@ {
        "image"@
    } else if ext == "glb"@ {
        "glb"@
    } else if ext == "html"@ || ext == "htm"@ {
        "html"@
    } else if ext == "txt"@ || ext == "log"@ || ext == "md"@ || ext == "yaml"@ || ext == "yml"@ {
        "text"@
    } else {
        "other"@
    }
}

/// The extension of a path in lower case, or the empty text where the
/// path has none.
pub open spec fn lower_extension(path: Seq<char>) -> Seq<char> {
    match extension(path) {
        Some(ext) => ascii_lower_seq(ext),
        None => Seq::empty(),
    }
}

/// The kind of the file at `path`, judged by its extension without regard
/// to case.
pub open spec fn kind_of(path: Seq<char>) -> Seq<char> {
    kind_for_extension(lower_extension(path))
}

fn is_text(chars: &Vec<char>, text: &str) -> (r: bool)
    ensures
        r == (chars@ == text@),
{
    let other = chars_of(text);
    same_chars(chars, &other)
}

/// The kind of the file at `path`: `json`, `image`, `glb`, `html`, `text`
/// or `other`.
pub fn artifact_kind(path: &str) -> (kind: &'static str)
    ensures
        kind@ == kind_of(path@),
{
    let chars = chars_of(path);
    let ext: Vec<char> = match extension_chars(&chars) {
        Some(e) => to_ascii_lower_chars(&e),
        None => Vec::new(),
    };
    if is_text(&ext, "json") {
        "json"
    } else if is_text(&ext, "png") || is_text(&ext, "jpg") || is_text(&ext, "jpeg") || is_text(
        &ext,
        "webp",
    ) {
        "image"
    } else if is_text(&ext, "glb") {
        "glb"
    } else if is_text(&ext, "html") || is_text(&ext, "htm") {
        "html"
    } else if is_text(&ext, "txt") || is_text(&ext, "log") || is_text(&ext, "md") || is_text(
        &ext,
        "yaml",
    ) || is_text(&ext, "yml") {
        "text"
    } else {
        "other"
    }
}

/// A file found below a run directory.
pub struct FoundFile {
    /// The path of the file.
    pub path: String,
    /// The path of the file relative to the run directory; `None` where
    /// the file does not lie below it.
    pub rel_path: Option<String>,
    /// The size of the file in bytes, where it could be had.
    pub size_bytes: Option<u64>,
}

/// What a `FoundFile` holds.
pub struct FoundFileView {
    pub path: Seq<char>,
    pub rel_path: Option<Seq<char>>,
    pub size_bytes: Option<u64>,
}

impl View for FoundFile {
    type V = FoundFileView;

    open spec fn view(&self) -> FoundFileView {
        FoundFileView {
            path: self.path@,
            rel_path: opt_view(self.rel_path),
            size_bytes: self.size_bytes,
        }
    }
}

/// An artifact of a run.
pub struct ArtifactInfo {
    /// The path relative to the run directory, with `/` as separator.
    pub rel_path: String,
    pub kind: String,
    pub size_bytes: u64,
    /// The address under which the file server serves the artifact.
    pub url: String,
}

/// What an `ArtifactInfo` holds.
pub struct ArtifactInfoView {
    pub rel_path: Seq<char>,
    pub kind: Seq<char>,
    pub size_bytes: u64,
    pub url: Seq<char>,
}

impl View for ArtifactInfo {
    type V = ArtifactInfoView;

    open spec fn view(&self) -> ArtifactInfoView {
        ArtifactInfoView {
            rel_path: self.rel_path@,
            kind: self.kind@,
            size_bytes: self.size_bytes,
            url: self.url@,
        }
    }
}

impl ArtifactInfo {
    /// A copy of this record.
    pub fn duplicate(&self) -> (copy: ArtifactInfo)
        ensures
            copy@ == self@,
    {
        ArtifactInfo {
            rel_path: self.rel_path.clone(),
            kind: self.kind.clone(),
            size_bytes: self.size_bytes,
            url: self.url.clone(),
        }
    }
}

impl Ranked for ArtifactInfo {
    open spec fn before(a: ArtifactInfoView, b: ArtifactInfoView) -> bool {
        text_before(a.rel_path, b.rel_path)
    }

    fn precedes(&self, other: &Self) -> (r: bool) {
        let mine = chars_of(self.rel_path.as_str());
        let theirs = chars_of(other.rel_path.as_str());
        text_precedes(&mine, &theirs)
    }

    proof fn lemma_asymmetric(a: ArtifactInfoView, b: ArtifactInfoView) {
        lemma_text_before_total(a.rel_path, b.rel_path);
    }

    proof fn lemma_not_before_chain(a: ArtifactInfoView, b: ArtifactInfoView, c: ArtifactInfoView) {
        lemma_text_not_before_chain(a.rel_path, b.rel_path, c.rel_path);
    }
}

/// `s` with every backslash replaced by a slash.
pub open spec fn with_slashes(s: Seq<char>) -> Seq<char> {
    Seq::new(
        s.len(),
        |i: int|
            if s[i] == '\\' {
                '/'
            } else {
                s[i]
            },
    )
}

/// The address under which the artifact `rel_path` of the run `run_id` is
/// served.
pub open spec fn artifact_url(run_id: Seq<char>, rel_path: Seq<char>) -> Seq<char> {
    "/artifacts/"@ + run_id + seq!['/'] + rel_path
}

/// The artifact that a found file is, or `None` for a file that does not
/// lie below the run directory. A size that could not be had counts as
/// zero.
pub open spec fn artifact_of(run_id: Seq<char>, file: FoundFileView) -> Option<ArtifactInfoView> {
    match file.rel_path {
        Some(rel) => Some(
            ArtifactInfoView {
                rel_path: with_slashes(rel),
                kind: kind_of(file.path),
                size_bytes: match file.size_bytes {
                    Some(n) => n,
                    None => 0,
                },
                url: artifact_url(run_id, with_slashes(rel)),
            },
        ),
        None => None,
    }
}

/// The artifacts that the found files are, in the order of the files.
pub open spec fn artifacts_of(run_id: Seq<char>, files: Seq<FoundFileView>) -> Seq<
    ArtifactInfoView,
>
    decreases files.len(),
{
    if files.len() == 0 {
        Seq::empty()
    } else {
        match artifact_of(run_id, files.last()) {
            Some(info) => artifacts_of(run_id, files.drop_last()).push(info),
            None => artifacts_of(run_id, files.drop_last()),
        }
    }
}

fn with_slashes_chars(s: &Vec<char>) -> (r: Vec<char>)
    ensures
        r@ == with_slashes(s@),
{
    let mut r: Vec<char> = Vec::new();
    let mut i: usize = 0;
    while i < s.len()
        invariant
            i <= s.len(),
            r@ == with_slashes(s@.take(i as int)),
        decreases s.len() - i,
    {
        let c = s[i];
        r.push(if c == '\\' { '/' } else { c });
        assert(r@ =~= with_slashes(s@.take(i + 1)));
        i += 1;
    }
    assert(s@.take(s.len() as int) == s@);
    r
}

/// The artifact that one found file is.
pub fn artifact_info(run_id: &str, file: &FoundFile) -> (info: Option<ArtifactInfo>)
    ensures
        match info {
            Some(i) => artifact_of(run_id@, file@) == Some(i@),
            None => artifact_of(run_id@, file@) is None,
        },
{
    match &file.rel_path {
        Some(rel) => {
            let rel_chars = with_slashes_chars(&chars_of(rel.as_str()));
            let mut url: Vec<char> = Vec::new();
            append_str(&mut url, "/artifacts/");
            assert(url@ == "/artifacts/"@);
            append_str(&mut url, run_id);
            url.push('/');
            append_chars(&mut url, &rel_chars);
            assert(url@ =~= artifact_url(run_id@, rel_chars@));
            let info = ArtifactInfo {
                rel_path: string_of(&rel_chars),
                kind: artifact_kind(file.path.as_str()).to_owned(),
                size_bytes: match file.size_bytes {
                    Some(n) => n,
                    None => 0,
                },
                url: string_of(&url),
            };
            assert(info@.rel_path == with_slashes(rel@));
            assert(info@.kind == kind_of(file.path@));
            assert(info@.url == artifact_url(run_id@, with_slashes(rel@)));
            Some(info)
        },
        None => None,
    }
}

/// The artifacts of a run, sorted by relative path: every found file that
/// lies below the run directory, once.
pub fn run_artifacts(run_id: &str, files: &Vec<FoundFile>) -> (artifacts: Vec<ArtifactInfo>)
    ensures
        is_stably_sorted::<ArtifactInfo>(
            artifacts_of(run_id@, views_of(files@)),
            views_of(artifacts@),
        ),
{
    let mut found: Vec<ArtifactInfo> = Vec::new();
    let mut i: usize = 0;
    assert(views_of(found@) =~= artifacts_of(run_id@, views_of(files@).take(0)));
    while i < files.len()
        invariant
            i <= files.len(),
            views_of(found@) == artifacts_of(run_id@, views_of(files@).take(i as int)),
        decreases files.len() - i,
    {
        proof {
            let next = views_of(files@).take(i + 1);
            assert(next.drop_last() == views_of(files@).take(i as int));
            assert(next.last() == files[i as int]@);
        }
        let ghost before = found@;
        match artifact_info(run_id, &files[i]) {
            Some(info) => {
                found.push(info);
                assert(views_of(found@) =~= views_of(before).push(info@));
            },
            None => {},
        }
        i += 1;
    }
    assert(views_of(files@).take(files.len() as int) == views_of(files@));
    let order = stable_order(&found);
    let mut artifacts: Vec<ArtifactInfo> = Vec::new();
    let mut k: usize = 0;
    while k < order.len()
        invariant
            k <= order.len(),
            artifacts.len() == k,
            is_stable_order::<ArtifactInfo>(views_of(found@), order@),
            forall|j: int| 0 <= j < k ==> (#[trigger] artifacts[j])@ == found[order[j] as int]@,
        decreases order.len() - k,
    {
        artifacts.push(found[order[k]].duplicate());
        k += 1;
    }
    assert(views_of(artifacts@) =~= arranged(views_of(found@), order@));
    artifacts
}

} // verus!
