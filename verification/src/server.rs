//! The local file server: which directory a request is served from, and
//! what is answered at each point of handling it.
//!
//! The caller owns the socket and the disk. It hands a request to
//! `route_request`, probes the path it is given, reads the file it is asked
//! to read, and sends the reply it ends up with.

use vstd::prelude::*;
use vstd::utf8::encode_utf8;
use crate::paths::{
    join_path, lemma_safe_join_stays_below, runs_dir_for_project, runs_subdir, safe_join,
    safe_join_spec, stays_below,
};
use crate::text::{
    append_str, chars_of, decimal, opt_view, push_decimal, starts_with, string_of,
    strip_prefix_all, strip_prefix_all_chars,
};

verus! {

/// The content type of a file, guessed from the extension of its path; a
/// path without a known extension gives `application/octet-stream`.
pub uninterp spec fn guessed_content_type(path: Seq<char>) -> Seq<char>;

/// Guesses the content type of a file from its path.
///
/// Trusted: stands for `mime_guess::MimeGuess::from_path`, of which the
/// first guess or else `application/octet-stream` is taken, reduced to its
/// essence (type and subtype, without parameters). No disk access is made.
/// The contract only gives the result its name.
#[verifier::external_body]
fn guess_content_type(path: &str) -> (content_type: String)
    ensures
        content_type@ == guessed_content_type(path@),
{
    mime_guess::MimeGuess::from_path(path).first_or_octet_stream().essence_str().to_string()
}

/// The directories that the server serves from.
pub struct WebRoots {
    /// Where requests below `/viewer` are served from.
    pub viewer_dir: Option<String>,
    /// Where requests below `/artifacts` are served from.
    pub runs_dir: Option<String>,
}

/// What `WebRoots` holds.
pub struct WebRootsView {
    pub viewer_dir: Option<Seq<char>>,
    pub runs_dir: Option<Seq<char>>,
}

impl View for WebRoots {
    type V = WebRootsView;

    open spec fn view(&self) -> WebRootsView {
        WebRootsView { viewer_dir: opt_view(self.viewer_dir), runs_dir: opt_view(self.runs_dir) }
    }
}

/// The roots for a viewer directory and a project root: requests for
/// artifacts are served from the project's run directory.
pub open spec fn roots_for(
    viewer_dir: Option<Seq<char>>,
    project_root: Option<Seq<char>>,
) -> WebRootsView {
    WebRootsView {
        viewer_dir,
        runs_dir: match project_root {
            Some(root) => Some(join_path(root, runs_subdir())),
            None => None,
        },
    }
}

impl WebRoots {
    /// No directory is configured.
    pub fn new() -> (roots: WebRoots)
        ensures
            roots@ == (WebRootsView { viewer_dir: None, runs_dir: None }),
    {
        WebRoots { viewer_dir: None, runs_dir: None }
    }

    /// Replaces both roots.
    pub fn set_server_roots(&mut self, viewer_dir: Option<String>, project_root: Option<String>)
        ensures
            final(self)@ == roots_for(opt_view(viewer_dir), opt_view(project_root)),
    {
        self.viewer_dir = viewer_dir;
        self.runs_dir =
        match project_root {
            Some(root) => Some(runs_dir_for_project(root.as_str())),
            None => None,
        };
    }
}

/// The address under which the server is reached on `port`.
pub open spec fn base_url_text(port: u16) -> Seq<char> {
    "http://127.0.0.1:"@ + decimal(port as nat)
}

/// The address under which the server is reached on `port`.
pub fn base_url(port: u16) -> (url: String)
    ensures
        url@ == base_url_text(port),
{
    let mut out: Vec<char> = Vec::new();
    append_str(&mut out, "http://127.0.0.1:");
    assert(out@ == "http://127.0.0.1:"@);
    push_decimal(&mut out, port as u64);
    string_of(&out)
}

/// An answer to a request. Every answer is sent with caching switched
/// off.
pub struct HttpReply {
    pub status: u16,
    pub content_type: Option<String>,
    pub body: Option<Vec<u8>>,
}

/// What an `HttpReply` holds.
pub struct HttpReplyView {
    pub status: u16,
    pub content_type: Option<Seq<char>>,
    pub body: Option<Seq<u8>>,
}

impl View for HttpReply {
    type V = HttpReplyView;

    open spec fn view(&self) -> HttpReplyView {
        HttpReplyView {
            status: self.status,
            content_type: opt_view(self.content_type),
            body: match self.body {
                Some(bytes) => Some(bytes@),
                None => None,
            },
        }
    }
}

/// The value of the `Cache-Control` header of every answer.
pub open spec fn cache_control() -> Seq<char> {
    "no-store"@
}

/// The value of the `Cache-Control` header of every answer.
pub fn cache_control_value() -> (value: &'static str)
    ensures
        value@ == cache_control(),
{
    "no-store"
}

/// An answer in plain text.
pub open spec fn text_reply(status: u16, text: Seq<char>) -> HttpReplyView {
    HttpReplyView { status, content_type: Some("text/plain"@), body: Some(encode_utf8(text)) }
}

/// The answer to a request for a file.
pub open spec fn file_reply(content_type: Seq<char>, body: Option<Seq<u8>>) -> HttpReplyView {
    HttpReplyView { status: 200, content_type: Some(content_type), body }
}

fn make_text_reply(status: u16, text: &str) -> (reply: HttpReply)
    ensures
        reply@ == text_reply(status, text@),
{
    HttpReply {
        status,
        content_type: Some("text/plain".to_owned()),
        body: Some(text.as_bytes_vec()),
    }
}

/// What routing a request comes to.
pub enum Routed {
    /// The request is answered at once.
    Reply(HttpReply),
    /// The request names this path; whether it is a file decides the rest.
    Probe { path: String },
}

/// What `Routed` holds.
pub enum RoutedView {
    Reply(HttpReplyView),
    Probe { path: Seq<char> },
}

impl View for Routed {
    type V = RoutedView;

    open spec fn view(&self) -> RoutedView {
        match self {
            Routed::Reply(reply) => RoutedView::Reply(reply@),
            Routed::Probe { path } => RoutedView::Probe { path: path@ },
        }
    }
}

/// The prefix of requests for the viewer.
pub open spec fn viewer_prefix() -> Seq<char> {
    "/viewer"@
}

/// The prefix of requests for artifacts.
pub open spec fn artifacts_prefix() -> Seq<char> {
    "/artifacts"@
}

/// What a request for `rest` below the root `root` comes to, where `root`
/// may be missing and `missing` is then the answer.
pub open spec fn route_below(root: Option<Seq<char>>, rest: Seq<char>, missing: Seq<char>) -> RoutedView {
    match root {
        None => RoutedView::Reply(text_reply(404, missing)),
        Some(dir) => match safe_join_spec(dir, rest) {
            Ok(path) => RoutedView::Probe { path },
            Err(_) => RoutedView::Reply(text_reply(403, "Forbidden"@)),
        },
    }
}

/// What routing the request `url` comes to.
///
/// A request below `/viewer` is served from the viewer directory and one
/// below `/artifacts` from the run directory; the prefix, however often it
/// is repeated, is dropped and the rest resolved below that directory. A
/// request for anything else, and one whose directory is not configured,
/// is answered with 404; one that would leave its directory, with 403.
pub open spec fn route(roots: WebRootsView, url: Seq<char>) -> RoutedView {
    if viewer_prefix().is_prefix_of(url) {
        route_below(
            roots.viewer_dir,
            strip_prefix_all(url, viewer_prefix()),
            "Viewer root not configured"@,
        )
    } else if artifacts_prefix().is_prefix_of(url) {
        route_below(
            roots.runs_dir,
            strip_prefix_all(url, artifacts_prefix()),
            "Artifacts root not configured"@,
        )
    } else {
        RoutedView::Reply(text_reply(404, "Not found"@))
    }
}

fn route_below_dir(root: &Option<String>, rest: &Vec<char>, missing: &str) -> (routed: Routed)
    ensures
        routed@ == route_below(opt_view(*root), rest@, missing@),
{
    match root {
        None => Routed::Reply(make_text_reply(404, missing)),
        Some(dir) => {
            let rest_text = string_of(rest);
            match safe_join(dir.as_str(), rest_text.as_str()) {
                Ok(path) => Routed::Probe { path },
                Err(_) => Routed::Reply(make_text_reply(403, "Forbidden")),
            }
        },
    }
}

/// Routes a request.
pub fn route_request(roots: &WebRoots, url: &str) -> (routed: Routed)
    ensures
        routed@ == route(roots@, url@),
{
    let chars = chars_of(url);
    let viewer = chars_of("/viewer");
    let artifacts = chars_of("/artifacts");
    if starts_with(&chars, &viewer) {
        let rest = strip_prefix_all_chars(&chars, &viewer);
        route_below_dir(&roots.viewer_dir, &rest, "Viewer root not configured")
    } else if starts_with(&chars, &artifacts) {
        let rest = strip_prefix_all_chars(&chars, &artifacts);
        route_below_dir(&roots.runs_dir, &rest, "Artifacts root not configured")
    } else {
        Routed::Reply(make_text_reply(404, "Not found"))
    }
}

/// What probing a path comes to.
pub enum Probed {
    /// The request is answered at once.
    Reply(HttpReply),
    /// The file at `path` is to be read and sent as `content_type`.
    Read { path: String, content_type: String },
}

/// What `Probed` holds.
pub enum ProbedView {
    Reply(HttpReplyView),
    Read { path: Seq<char>, content_type: Seq<char> },
}

impl View for Probed {
    type V = ProbedView;

    open spec fn view(&self) -> ProbedView {
        match self {
            Probed::Reply(reply) => ProbedView::Reply(reply@),
            Probed::Read { path, content_type } => ProbedView::Read {
                path: path@,
                content_type: content_type@,
            },
        }
    }
}

/// The method of a request that asks for headers only.
pub open spec fn head_method() -> Seq<char> {
    "HEAD"@
}

/// What a request for an existing file of the given content type comes
/// to: a `HEAD` request is answered without a body, for any other method
/// the file is read.
pub open spec fn file_plan(path: Seq<char>, content_type: Seq<char>, method: Seq<char>) -> ProbedView {
    if method == head_method() {
        ProbedView::Reply(file_reply(content_type, None))
    } else {
        ProbedView::Read { path, content_type }
    }
}

/// What probing comes to: a path that is no file is answered with 404.
pub open spec fn probe_plan(path: Seq<char>, is_file: bool, method: Seq<char>) -> ProbedView {
    if is_file {
        file_plan(path, guessed_content_type(path), method)
    } else {
        ProbedView::Reply(text_reply(404, "Not found"@))
    }
}

/// Plans the answer for an existing file whose content type is known.
pub fn plan_file(path: &str, content_type: String, method: &str) -> (probed: Probed)
    ensures
        probed@ == file_plan(path@, content_type@, method@),
{
    let is_head = method.to_owned() == "HEAD".to_owned();
    if is_head {
        Probed::Reply(HttpReply { status: 200, content_type: Some(content_type), body: None })
    } else {
        Probed::Read { path: path.to_owned(), content_type }
    }
}

/// Decides what to do once it is known whether the path is a file.
pub fn after_probe(path: &str, is_file: bool, method: &str) -> (probed: Probed)
    ensures
        probed@ == probe_plan(path@, is_file, method@),
{
    if is_file {
        let content_type = guess_content_type(path);
        plan_file(path, content_type, method)
    } else {
        Probed::Reply(make_text_reply(404, "Not found"))
    }
}

/// The answer after the file was read, or could not be read.
pub open spec fn read_reply(content_type: Seq<char>, contents: Option<Seq<u8>>) -> HttpReplyView {
    match contents {
        Some(bytes) => file_reply(content_type, Some(bytes)),
        None => text_reply(500, "Failed to read file"@),
    }
}

/// Answers with the file's contents, or with 500 where reading failed.
pub fn after_read(content_type: String, contents: Option<Vec<u8>>) -> (reply: HttpReply)
    ensures
        reply@ == read_reply(
            content_type@,
            match contents {
                Some(bytes) => Some(bytes@),
                None => None,
            },
        ),
{
    match contents {
        Some(bytes) => HttpReply {
            status: 200,
            content_type: Some(content_type),
            body: Some(bytes),
        },
        None => make_text_reply(500, "Failed to read file"),
    }
}

/// The directory that a request is served from, if it is for the viewer
/// or for artifacts and that directory is configured.
pub open spec fn serving_root(roots: WebRootsView, url: Seq<char>) -> Option<Seq<char>> {
    if viewer_prefix().is_prefix_of(url) {
        roots.viewer_dir
    } else if artifacts_prefix().is_prefix_of(url) {
        roots.runs_dir
    } else {
        None
    }
}

/// No request is resolved outside the directory it is served from: where
/// routing asks for a path to be probed, the request has a directory to be
/// served from, and the path is that directory followed by plain names
/// only.
pub proof fn lemma_route_stays_below_root(roots: WebRootsView, url: Seq<char>)
    ensures
        route(roots, url) matches RoutedView::Probe { path } ==> (serving_root(roots, url)
            matches Some(dir) && stays_below(dir, path) && dir.is_prefix_of(path)),
{
    if viewer_prefix().is_prefix_of(url) {
        if let Some(dir) = roots.viewer_dir {
            lemma_safe_join_stays_below(dir, strip_prefix_all(url, viewer_prefix()));
        }
    } else if artifacts_prefix().is_prefix_of(url) {
        if let Some(dir) = roots.runs_dir {
            lemma_safe_join_stays_below(dir, strip_prefix_all(url, artifacts_prefix()));
        }
    }
}

} // verus!
