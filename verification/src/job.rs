//! One-shot jobs: naming a run, laying out its directory, describing the
//! process to start, and recording how it ended.

use vstd::prelude::*;
use crate::clock::epoch_ms_now;
use crate::env::{with_var, with_vars, Environment};
use crate::errors::CommandError;
use crate::events::{exit_code_field, exit_code_json, job_exit, Event, EventView};
use crate::ids::{
    digits_before, format_id, hex_char, hex_digit_at, id_text, is_random_id,
    lemma_hex_digit_in_range, random_id,
};
use crate::json::{pretty_json, JsonField, JsonFieldView, JsonRecord};
use crate::paths::{
    is_plain_name, join, join_path, push_all, runs_dir_for_project, runs_subdir, stays_below,
};
use crate::slug::{is_slug_char, lemma_slug_is_safe, sanitize_slug, slug_of};
use crate::terminal::{
    cell_size, command_shell, SpawnSpec, SpawnSpecView, TerminalSize, DEFAULT_COLS, DEFAULT_ROWS,
};
use crate::text::{
    append_chars, append_str, chars_of, clone_pairs, decimal, lemma_decimal_digits,
    opt_view, pairs_view, push_decimal, slice_chars, string_of,
};

verus! {

/// The number of characters of a job's identifier that its run identifier
/// ends with.
pub const ID_FRAGMENT_LEN: usize = 8;

/// What is asked for when a job is started.
pub struct JobRequest {
    /// The root of the project that the command runs in.
    pub project_root: String,
    /// The command line, handed to the shell.
    pub command: String,
    /// A name for the run; the command stands in where none is given.
    pub label: Option<String>,
    /// Environment variables to set for the command, if any.
    pub env: Option<Environment>,
}

/// What a `JobRequest` holds.
pub struct JobRequestView {
    pub project_root: Seq<char>,
    pub command: Seq<char>,
    pub label: Option<Seq<char>>,
    pub env: Option<Seq<(Seq<char>, Seq<char>)>>,
}

impl View for JobRequest {
    type V = JobRequestView;

    open spec fn view(&self) -> JobRequestView {
        JobRequestView {
            project_root: self.project_root@,
            command: self.command@,
            label: opt_view(self.label),
            env: match self.env {
                Some(env) => Some(env@),
                None => None,
            },
        }
    }
}

impl JobRequest {
    /// The request is well formed: no environment variable is named
    /// twice.
    pub open spec fn wf(&self) -> bool {
        self.env matches Some(env) ==> env.wf()
    }
}

/// How a started job is known to its caller.
pub struct JobInfo {
    pub job_id: String,
    pub run_id: String,
    pub run_dir: String,
}

/// Everything that starting a job takes, worked out ahead of any effect.
///
/// The caller creates `runs_dir` and `info.run_dir`, writes `meta_json` to
/// `meta_path`, opens a terminal of `size`, starts `spawn` in it, and then
/// pumps the output into `log_path` and watches for the exit.
pub struct JobPlan {
    pub info: JobInfo,
    pub started_ms: u64,
    pub runs_dir: String,
    pub meta_path: String,
    pub log_path: String,
    pub result_path: String,
    pub meta: JsonRecord,
    pub meta_json: Vec<u8>,
    pub size: TerminalSize,
    pub spawn: SpawnSpec,
}

/// What a `JobPlan` holds.
pub struct JobPlanView {
    pub job_id: Seq<char>,
    pub run_id: Seq<char>,
    pub run_dir: Seq<char>,
    pub started_ms: u64,
    pub runs_dir: Seq<char>,
    pub meta_path: Seq<char>,
    pub log_path: Seq<char>,
    pub result_path: Seq<char>,
    pub meta: Seq<(Seq<char>, JsonFieldView)>,
    pub meta_json: Seq<u8>,
    pub size: TerminalSize,
    pub spawn: SpawnSpecView,
}

impl View for JobPlan {
    type V = JobPlanView;

    open spec fn view(&self) -> JobPlanView {
        JobPlanView {
            job_id: self.info.job_id@,
            run_id: self.info.run_id@,
            run_dir: self.info.run_dir@,
            started_ms: self.started_ms,
            runs_dir: self.runs_dir@,
            meta_path: self.meta_path@,
            log_path: self.log_path@,
            result_path: self.result_path@,
            meta: self.meta@,
            meta_json: self.meta_json@,
            size: self.size,
            spawn: self.spawn@,
        }
    }
}

/// The name of the metadata record in a run directory.
pub open spec fn meta_file() -> Seq<char> {
    "run_meta.json"@
}

/// The name of the transcript in a run directory.
pub open spec fn log_file() -> Seq<char> {
    "terminal.log"@
}

/// The name of the result record in a run directory.
pub open spec fn result_file() -> Seq<char> {
    "job_result.json"@
}

/// The slug of a run: that of its label, or of its command where it has no
/// label.
pub open spec fn run_slug(label: Option<Seq<char>>, command: Seq<char>) -> Seq<char> {
    match label {
        Some(l) => slug_of(l),
        None => slug_of(command),
    }
}

/// The identifier of a run: `run_`, the start time in milliseconds, the
/// slug, and the first characters of the job's identifier, joined by `_`.
pub open spec fn run_id_text(started_ms: u64, slug: Seq<char>, job_id: u128) -> Seq<char> {
    "run_"@ + decimal(started_ms as nat) + seq!['_'] + slug + seq!['_'] + id_text(job_id).take(
        ID_FRAGMENT_LEN as int,
    )
}

/// The directory of the run `run_id` of the project at `project_root`.
pub open spec fn run_dir_path(project_root: Seq<char>, run_id: Seq<char>) -> Seq<char> {
    join_path(join_path(project_root, runs_subdir()), run_id)
}

/// The member of a record for an optional text: the text, or null.
pub open spec fn optional_text(text: Option<Seq<char>>) -> JsonFieldView {
    match text {
        Some(t) => JsonFieldView::Text(t),
        None => JsonFieldView::Null,
    }
}

/// The environment that a request asks for: its entries, or none.
pub open spec fn requested_env(env: Option<Seq<(Seq<char>, Seq<char>)>>) -> Seq<
    (Seq<char>, Seq<char>),
> {
    match env {
        Some(e) => e,
        None => Seq::empty(),
    }
}

/// The metadata record of a run.
pub open spec fn run_meta(request: JobRequestView, run_id: Seq<char>, started_ms: u64) -> Seq<
    (Seq<char>, JsonFieldView),
> {
    seq![
        ("run_id"@, JsonFieldView::Text(run_id)),
        ("project_root"@, JsonFieldView::Text(request.project_root)),
        ("command"@, JsonFieldView::Text(request.command)),
        ("label"@, optional_text(request.label)),
        ("started_ms"@, JsonFieldView::Number(started_ms)),
        ("env"@, JsonFieldView::Dict(requested_env(request.env))),
    ]
}

/// The environment of a job's process: the two variables that identify the
/// run are set first, then what the request asks for, which may override
/// them.
pub open spec fn job_env(
    run_id: Seq<char>,
    run_dir: Seq<char>,
    env: Option<Seq<(Seq<char>, Seq<char>)>>,
) -> Seq<(Seq<char>, Seq<char>)> {
    with_vars(
        with_var(
            with_var(Seq::empty(), "GLIA_FAB_RUN_ID"@, run_id),
            "GLIA_FAB_RUN_DIR"@,
            run_dir,
        ),
        requested_env(env),
    )
}

/// The plan of the job that `request` asks for, started at `started_ms`
/// under the identifier `job_id`.
pub open spec fn job_plan(request: JobRequestView, started_ms: u64, job_id: u128) -> JobPlanView {
    let run_id = run_id_text(started_ms, run_slug(request.label, request.command), job_id);
    let run_dir = run_dir_path(request.project_root, run_id);
    JobPlanView {
        job_id: id_text(job_id),
        run_id,
        run_dir,
        started_ms,
        runs_dir: join_path(request.project_root, runs_subdir()),
        meta_path: join_path(run_dir, meta_file()),
        log_path: join_path(run_dir, log_file()),
        result_path: join_path(run_dir, result_file()),
        meta: run_meta(request, run_id, started_ms),
        meta_json: pretty_json(run_meta(request, run_id, started_ms)),
        size: cell_size(DEFAULT_COLS, DEFAULT_ROWS),
        spawn: command_shell(
            request.command,
            request.project_root,
            job_env(run_id, run_dir, request.env),
        ),
    }
}

fn optional_text_json(text: &Option<String>) -> (field: JsonField)
    ensures
        field@ == optional_text(opt_view(*text)),
{
    match text {
        Some(t) => JsonField::Text(t.clone()),
        None => JsonField::Null,
    }
}

fn requested_env_pairs(env: &Option<Environment>) -> (pairs: Vec<(String, String)>)
    ensures
        pairs_view(pairs@) == requested_env(
            match *env {
                Some(e) => Some(e@),
                None => None,
            },
        ),
{
    match env {
        Some(e) => e.to_pairs(),
        None => {
            let pairs: Vec<(String, String)> = Vec::new();
            assert(pairs_view(pairs@) =~= Seq::<(Seq<char>, Seq<char>)>::empty());
            pairs
        },
    }
}

/// The identifier of a run.
pub fn make_run_id(started_ms: u64, slug: &str, job_id_text: &str) -> (run_id: String)
    requires
        job_id_text@.len() >= ID_FRAGMENT_LEN,
    ensures
        run_id@ == "run_"@ + decimal(started_ms as nat) + seq!['_'] + slug@ + seq!['_']
            + job_id_text@.take(ID_FRAGMENT_LEN as int),
{
    let mut out: Vec<char> = Vec::new();
    append_str(&mut out, "run_");
    assert(out@ == "run_"@);
    push_decimal(&mut out, started_ms);
    out.push('_');
    append_str(&mut out, slug);
    out.push('_');
    let id_chars = chars_of(job_id_text);
    let fragment = slice_chars(&id_chars, 0, ID_FRAGMENT_LEN);
    append_chars(&mut out, &fragment);
    string_of(&out)
}

/// Works out the plan of a job from the request, the start time and the
/// job's identifier.
pub fn plan_job(request: &JobRequest, started_ms: u64, job_id: u128) -> (plan: JobPlan)
    requires
        request.wf(),
    ensures
        plan.spawn.env.wf(),
        plan@ == job_plan(request@, started_ms, job_id),
{
    let job_id_text = format_id(job_id);
    let slug = match &request.label {
        Some(label) => sanitize_slug(label.as_str()),
        None => sanitize_slug(request.command.as_str()),
    };
    let run_id = make_run_id(started_ms, slug.as_str(), job_id_text.as_str());
    let runs_dir = runs_dir_for_project(request.project_root.as_str());
    let run_dir = join(runs_dir.as_str(), run_id.as_str());
    let meta_path = join(run_dir.as_str(), "run_meta.json");
    let log_path = join(run_dir.as_str(), "terminal.log");
    let result_path = join(run_dir.as_str(), "job_result.json");

    let env = requested_env_pairs(&request.env);
    let mut meta = JsonRecord::new();
    meta.push("run_id", JsonField::Text(run_id.clone()));
    meta.push("project_root", JsonField::Text(request.project_root.clone()));
    meta.push("command", JsonField::Text(request.command.clone()));
    meta.push("label", optional_text_json(&request.label));
    meta.push("started_ms", JsonField::Number(started_ms));
    let env_copy = clone_pairs(&env);
    assert(env_copy.deep_view() =~= pairs_view(env@));
    meta.push("env", JsonField::Dict(env_copy));
    assert(meta@ =~= run_meta(request@, run_id@, started_ms));
    let meta_json = meta.to_pretty_bytes();

    let mut job_env = Environment::new();
    job_env.set("GLIA_FAB_RUN_ID", run_id.as_str());
    job_env.set("GLIA_FAB_RUN_DIR", run_dir.as_str());
    job_env.set_all(&env);
    let spawn = SpawnSpec::command_shell(
        request.command.as_str(),
        request.project_root.as_str(),
        job_env,
    );
    JobPlan {
        info: JobInfo { job_id: job_id_text, run_id, run_dir },
        started_ms,
        runs_dir,
        meta_path,
        log_path,
        result_path,
        meta,
        meta_json,
        size: TerminalSize::cells(DEFAULT_COLS, DEFAULT_ROWS),
        spawn,
    }
}

/// Starts a job: takes a fresh identifier and the current time and works
/// out the plan. Nothing is awaited: the plan is ready at once, and the
/// job's end is seen later through its events or its result record.
pub fn start_job(request: &JobRequest) -> (plan: JobPlan)
    requires
        request.wf(),
    ensures
        plan.spawn.env.wf(),
        exists|started_ms: u64, job_id: u128|
            is_random_id(job_id) && plan@ == #[trigger] job_plan(request@, started_ms, job_id),
{
    let job_id = random_id();
    let started_ms = epoch_ms_now();
    plan_job(request, started_ms, job_id)
}

/// The step of starting a job at which something failed.
#[derive(Clone, Copy, Debug, PartialEq, Eq, Structural)]
pub enum JobStage {
    CreateRunsDir,
    CreateRunDir,
    WriteMeta,
    OpenTerminal,
    Spawn,
    CloneReader,
}

/// The step fails before any process is started, on the file system.
pub open spec fn is_fs_stage(stage: JobStage) -> bool {
    stage is CreateRunsDir || stage is CreateRunDir || stage is WriteMeta
}

/// The failure to report when starting a job failed at `stage` with the
/// explanation `detail`: a failure on the file system where the run
/// directory or the metadata record could not be written, and a failure to
/// spawn from then on.
pub fn job_failure(stage: JobStage, detail: String) -> (e: CommandError)
    ensures
        e == (if is_fs_stage(stage) {
            CommandError::Fs(detail)
        } else {
            CommandError::SpawnFailed(detail)
        }),
{
    match stage {
        JobStage::CreateRunsDir | JobStage::CreateRunDir | JobStage::WriteMeta => CommandError::Fs(
            detail,
        ),
        _ => CommandError::SpawnFailed(detail),
    }
}

/// The result record of a job.
pub open spec fn job_result(
    job_id: Seq<char>,
    run_id: Seq<char>,
    exit_code: Option<u32>,
    ended_ms: u64,
) -> Seq<(Seq<char>, JsonFieldView)> {
    seq![
        ("job_id"@, JsonFieldView::Text(job_id)),
        ("run_id"@, JsonFieldView::Text(run_id)),
        ("exit_code"@, exit_code_field(exit_code)),
        ("ended_ms"@, JsonFieldView::Number(ended_ms)),
    ]
}

/// One thing to do when a job has ended.
pub enum EndAction {
    /// Write these bytes, the result record, to the file at `path`. A
    /// failure to write is reported to nobody.
    WriteResult { path: String, bytes: Vec<u8> },
    /// Publish this event.
    Publish(Event),
}

/// What an `EndAction` holds.
pub enum EndActionView {
    WriteResult { path: Seq<char>, bytes: Seq<u8> },
    Publish(EventView),
}

impl View for EndAction {
    type V = EndActionView;

    open spec fn view(&self) -> EndActionView {
        match self {
            EndAction::WriteResult { path, bytes } => EndActionView::WriteResult {
                path: path@,
                bytes: bytes@,
            },
            EndAction::Publish(event) => EndActionView::Publish(event@),
        }
    }
}

/// What a list of end actions holds.
pub open spec fn end_actions_view(actions: Seq<EndAction>) -> Seq<EndActionView> {
    Seq::new(actions.len(), |i: int| actions[i]@)
}

/// What is done, in order, when the job ends with `exit_code` at
/// `ended_ms`: first the result record is written into the run directory,
/// then the termination is published.
pub open spec fn job_end(
    job_id: Seq<char>,
    run_id: Seq<char>,
    run_dir: Seq<char>,
    exit_code: Option<u32>,
    ended_ms: u64,
) -> Seq<EndActionView> {
    seq![
        EndActionView::WriteResult {
            path: join_path(run_dir, result_file()),
            bytes: pretty_json(job_result(job_id, run_id, exit_code, ended_ms)),
        },
        EndActionView::Publish(job_exit(job_id, run_id, exit_code)),
    ]
}

/// Works out what is to be done, in order, once the exit of a job has
/// been detected.
pub fn finish_job(info: &JobInfo, exit_code: Option<u32>, ended_ms: u64) -> (actions: Vec<
    EndAction,
>)
    ensures
        end_actions_view(actions@) == job_end(
            info.job_id@,
            info.run_id@,
            info.run_dir@,
            exit_code,
            ended_ms,
        ),
{
    let mut result = JsonRecord::new();
    result.push("job_id", JsonField::Text(info.job_id.clone()));
    result.push("run_id", JsonField::Text(info.run_id.clone()));
    result.push("exit_code", exit_code_json(exit_code));
    result.push("ended_ms", JsonField::Number(ended_ms));
    assert(result@ =~= job_result(info.job_id@, info.run_id@, exit_code, ended_ms));
    let mut actions: Vec<EndAction> = Vec::new();
    actions.push(
        EndAction::WriteResult {
            path: join(info.run_dir.as_str(), "job_result.json"),
            bytes: result.to_pretty_bytes(),
        },
    );
    actions.push(
        EndAction::Publish(
            Event::job_exit(info.job_id.as_str(), info.run_id.as_str(), exit_code),
        ),
    );
    assert(end_actions_view(actions@) =~= job_end(
        info.job_id@,
        info.run_id@,
        info.run_dir@,
        exit_code,
        ended_ms,
    ));
    actions
}

/// The identifier of a run is safe as the name of a directory: it starts
/// with `run_` and is made only of lower-case ASCII letters, digits, `-`
/// and `_`, so it is a plain name.
pub proof fn lemma_run_id_is_plain_name(started_ms: u64, text: Seq<char>, job_id: u128)
    ensures
        "run_"@.is_prefix_of(run_id_text(started_ms, slug_of(text), job_id)),
        forall|i: int|
            0 <= i < run_id_text(started_ms, slug_of(text), job_id).len() ==> is_slug_char(
                #[trigger] run_id_text(started_ms, slug_of(text), job_id)[i],
            ),
        is_plain_name(run_id_text(started_ms, slug_of(text), job_id)),
{
    let head = "run_"@;
    let time = decimal(started_ms as nat);
    let slug = slug_of(text);
    let fragment = id_text(job_id).take(ID_FRAGMENT_LEN as int);
    let run_id = run_id_text(started_ms, slug, job_id);
    reveal_strlit("run_");
    lemma_decimal_digits(started_ms as nat);
    lemma_slug_is_safe(text);
    assert(run_id =~= head + time + seq!['_'] + slug + seq!['_'] + fragment);
    assert forall|i: int| 0 <= i < fragment.len() implies is_slug_char(
        #[trigger] fragment[i],
    ) by {
        let d = hex_digit_at(job_id, digits_before(i));
        assert(0 <= d < 16) by {
            lemma_hex_digit_in_range(job_id, digits_before(i));
        }
        assert(fragment[i] == hex_char(d));
    }
    assert forall|i: int| 0 <= i < run_id.len() implies is_slug_char(#[trigger] run_id[i]) by {
        let a = head.len() as int;
        let b = a + time.len();
        let c = b + 1;
        let d = c + slug.len();
        let e = d + 1;
        if i < a {
            assert(run_id[i] == head[i]);
        } else if i < b {
            assert(run_id[i] == time[i - a]);
        } else if i < c {
            assert(run_id[i] == '_');
        } else if i < d {
            assert(run_id[i] == slug[i - c]);
        } else if i < e {
            assert(run_id[i] == '_');
        } else {
            assert(run_id[i] == fragment[i - e]);
        }
    }
    assert(run_id[0] == 'r');
    assert(head.is_prefix_of(run_id)) by {
        assert(run_id.subrange(0, head.len() as int) =~= head);
    }
    assert forall|j: int| 0 <= j < run_id.len() implies run_id[j] != '/' by {
        assert(is_slug_char(run_id[j]));
    }
}

/// The directory of a run lies directly below the directory that holds
/// the runs of its project.
pub proof fn lemma_run_dir_stays_below(request: JobRequestView, started_ms: u64, job_id: u128)
    ensures
        stays_below(
            job_plan(request, started_ms, job_id).runs_dir,
            job_plan(request, started_ms, job_id).run_dir,
        ),
{
    let plan = job_plan(request, started_ms, job_id);
    let text = match request.label {
        Some(l) => l,
        None => request.command,
    };
    lemma_run_id_is_plain_name(started_ms, text, job_id);
    let names = seq![plan.run_id];
    assert(names.drop_last() =~= Seq::<Seq<char>>::empty());
    assert(push_all(plan.runs_dir, names) == join_path(
        push_all(plan.runs_dir, names.drop_last()),
        names.last(),
    ));
    assert(push_all(plan.runs_dir, names) == plan.run_dir);
}

} // verus!
