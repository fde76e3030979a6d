//! The notifications published to observers: chunks of output and the
//! termination of a session or a job.

use vstd::prelude::*;
use crate::json::{JsonField, JsonFieldView, JsonRecord};

verus! {

/// A notification: the topic it is published under and its payload.
pub struct Event {
    pub topic: String,
    pub payload: JsonRecord,
}

/// What an `Event` holds.
pub struct EventView {
    pub topic: Seq<char>,
    pub payload: Seq<(Seq<char>, JsonFieldView)>,
}

impl View for Event {
    type V = EventView;

    open spec fn view(&self) -> EventView {
        EventView { topic: self.topic@, payload: self.payload@ }
    }
}

/// The payload member for an exit code: the code as a number, or null where
/// the code could not be had.
pub open spec fn exit_code_field(exit_code: Option<u32>) -> JsonFieldView {
    match exit_code {
        Some(code) => JsonFieldView::Number(code as u64),
        None => JsonFieldView::Null,
    }
}

/// A chunk of output of a session.
pub open spec fn session_output(session_id: Seq<char>, data: Seq<char>) -> EventView {
    EventView {
        topic: "pty_output"@,
        payload: seq![
            ("session_id"@, JsonFieldView::Text(session_id)),
            ("data"@, JsonFieldView::Text(data)),
        ],
    }
}

/// The termination of a session.
pub open spec fn session_exit(session_id: Seq<char>, exit_code: Option<u32>) -> EventView {
    EventView {
        topic: "pty_exit"@,
        payload: seq![
            ("session_id"@, JsonFieldView::Text(session_id)),
            ("exit_code"@, exit_code_field(exit_code)),
        ],
    }
}

/// A chunk of output of a job.
pub open spec fn job_output(job_id: Seq<char>, run_id: Seq<char>, data: Seq<char>) -> EventView {
    EventView {
        topic: "job_output"@,
        payload: seq![
            ("job_id"@, JsonFieldView::Text(job_id)),
            ("run_id"@, JsonFieldView::Text(run_id)),
            ("data"@, JsonFieldView::Text(data)),
        ],
    }
}

/// The termination of a job.
pub open spec fn job_exit(job_id: Seq<char>, run_id: Seq<char>, exit_code: Option<u32>) -> EventView {
    EventView {
        topic: "job_exit"@,
        payload: seq![
            ("job_id"@, JsonFieldView::Text(job_id)),
            ("run_id"@, JsonFieldView::Text(run_id)),
            ("exit_code"@, exit_code_field(exit_code)),
        ],
    }
}

/// The payload member for an exit code.
pub fn exit_code_json(exit_code: Option<u32>) -> (field: JsonField)
    ensures
        field@ == exit_code_field(exit_code),
{
    match exit_code {
        Some(code) => JsonField::Number(code as u64),
        None => JsonField::Null,
    }
}

impl Event {
    /// A chunk of output of a session.
    pub fn session_output(session_id: &str, data: &str) -> (event: Event)
        ensures
            event@ == session_output(session_id@, data@),
    {
        let mut payload = JsonRecord::new();
        payload.push("session_id", JsonField::Text(session_id.to_owned()));
        payload.push("data", JsonField::Text(data.to_owned()));
        assert(payload@ == session_output(session_id@, data@).payload);
        Event { topic: "pty_output".to_owned(), payload }
    }

    /// The termination of a session.
    pub fn session_exit(session_id: &str, exit_code: Option<u32>) -> (event: Event)
        ensures
            event@ == session_exit(session_id@, exit_code),
    {
        let mut payload = JsonRecord::new();
        payload.push("session_id", JsonField::Text(session_id.to_owned()));
        payload.push("exit_code", exit_code_json(exit_code));
        assert(payload@ == session_exit(session_id@, exit_code).payload);
        Event { topic: "pty_exit".to_owned(), payload }
    }

    /// A chunk of output of a job.
    pub fn job_output(job_id: &str, run_id: &str, data: &str) -> (event: Event)
        ensures
            event@ == job_output(job_id@, run_id@, data@),
    {
        let mut payload = JsonRecord::new();
        payload.push("job_id", JsonField::Text(job_id.to_owned()));
        payload.push("run_id", JsonField::Text(run_id.to_owned()));
        payload.push("data", JsonField::Text(data.to_owned()));
        assert(payload@ == job_output(job_id@, run_id@, data@).payload);
        Event { topic: "job_output".to_owned(), payload }
    }

    /// The termination of a job.
    pub fn job_exit(job_id: &str, run_id: &str, exit_code: Option<u32>) -> (event: Event)
        ensures
            event@ == job_exit(job_id@, run_id@, exit_code),
    {
        let mut payload = JsonRecord::new();
        payload.push("job_id", JsonField::Text(job_id.to_owned()));
        payload.push("run_id", JsonField::Text(run_id.to_owned()));
        payload.push("exit_code", exit_code_json(exit_code));
        assert(payload@ == job_exit(job_id@, run_id@, exit_code).payload);
        Event { topic: "job_exit".to_owned(), payload }
    }
}

} // verus!
