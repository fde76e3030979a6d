//! The output pump: what to do with each read from the terminal of a
//! session or a job.
//!
//! The caller reads from the terminal and hands each outcome to
//! `pump_step`, which answers with the actions to carry out, in order. The
//! pump goes on until an answer ends in `Stop`.

use vstd::prelude::*;
use vstd::utf8::{decode_utf8, valid_utf8};
use crate::events::{job_output, session_output, Event, EventView};
use crate::text::joined;

verus! {

/// The number of bytes that the caller asks for with each read.
pub const READ_BUFFER_LEN: usize = 8192;

/// The text that a chunk of bytes is published as: the bytes decoded as
/// UTF-8, with each invalid sequence replaced by U+FFFD.
pub uninterp spec fn lossy_text(bytes: Seq<u8>) -> Seq<char>;

/// Decodes bytes permissively.
///
/// Trusted: stands for `String::from_utf8_lossy`, which never fails, keeps
/// valid UTF-8 as it is and replaces invalid sequences by U+FFFD. The
/// contract names the result and states it for valid input.
#[verifier::external_body]
fn decode_lossy(bytes: &Vec<u8>) -> (text: String)
    ensures
        text@ == lossy_text(bytes@),
        valid_utf8(bytes@) ==> text@ == decode_utf8(bytes@),
{
    String::from_utf8_lossy(bytes).into_owned()
}

/// Whose output a pump drains.
pub enum PumpTarget {
    /// An interactive session: output is published only.
    Session { session_id: String },
    /// A job: output is appended to the transcript as it was read, then
    /// published.
    Job { job_id: String, run_id: String },
}

/// What a `PumpTarget` holds.
pub enum PumpTargetView {
    Session { session_id: Seq<char> },
    Job { job_id: Seq<char>, run_id: Seq<char> },
}

impl View for PumpTarget {
    type V = PumpTargetView;

    open spec fn view(&self) -> PumpTargetView {
        match self {
            PumpTarget::Session { session_id } => PumpTargetView::Session {
                session_id: session_id@,
            },
            PumpTarget::Job { job_id, run_id } => PumpTargetView::Job {
                job_id: job_id@,
                run_id: run_id@,
            },
        }
    }
}

/// The outcome of one read from a terminal.
pub enum ReadOutcome {
    /// The read succeeded and gave these bytes; none at all means that the
    /// stream is closed.
    Data(Vec<u8>),
    /// The read failed.
    Failed,
}

/// One thing for the caller of the pump to do.
pub enum PumpAction {
    /// Append these bytes to the transcript and flush it.
    AppendTranscript(Vec<u8>),
    /// Publish this event.
    Publish(Event),
    /// Stop pumping.
    Stop,
}

/// What a `PumpAction` holds.
pub enum PumpActionView {
    AppendTranscript(Seq<u8>),
    Publish(EventView),
    Stop,
}

impl View for PumpAction {
    type V = PumpActionView;

    open spec fn view(&self) -> PumpActionView {
        match self {
            PumpAction::AppendTranscript(bytes) => PumpActionView::AppendTranscript(bytes@),
            PumpAction::Publish(event) => PumpActionView::Publish(event@),
            PumpAction::Stop => PumpActionView::Stop,
        }
    }
}

/// What a list of actions holds.
pub open spec fn actions_view(actions: Seq<PumpAction>) -> Seq<PumpActionView> {
    Seq::new(actions.len(), |i: int| actions[i]@)
}

/// The actions for a chunk of output, given the bytes that were read and
/// the text they are published as: a session's chunk is published; a
/// job's chunk is first appended to the transcript, as the bytes that were
/// read, and then published.
pub open spec fn chunk_actions(
    target: PumpTargetView,
    bytes: Seq<u8>,
    text: Seq<char>,
) -> Seq<PumpActionView> {
    match target {
        PumpTargetView::Session { session_id } => seq![
            PumpActionView::Publish(session_output(session_id, text)),
        ],
        PumpTargetView::Job { job_id, run_id } => seq![
            PumpActionView::AppendTranscript(bytes),
            PumpActionView::Publish(job_output(job_id, run_id, text)),
        ],
    }
}

/// The actions for the outcome of a read: a failed read and a read of no
/// bytes stop the pump; any other read is handled as a chunk, published
/// as its permissive decoding.
pub open spec fn step_actions(target: PumpTargetView, read: Option<Seq<u8>>) -> Seq<
    PumpActionView,
> {
    match read {
        Some(bytes) => if bytes.len() == 0 {
            seq![PumpActionView::Stop]
        } else {
            chunk_actions(target, bytes, lossy_text(bytes))
        },
        None => seq![PumpActionView::Stop],
    }
}

/// What the outcome of a read holds: the bytes read, or `None` for a failed
/// read.
pub open spec fn read_view(read: ReadOutcome) -> Option<Seq<u8>> {
    match read {
        ReadOutcome::Data(bytes) => Some(bytes@),
        ReadOutcome::Failed => None,
    }
}

/// A copy of the given bytes.
pub fn copy_bytes(bytes: &Vec<u8>) -> (copy: Vec<u8>)
    ensures
        copy@ == bytes@,
{
    let mut copy: Vec<u8> = Vec::new();
    let mut i: usize = 0;
    while i < bytes.len()
        invariant
            i <= bytes.len(),
            copy@ == bytes@.take(i as int),
        decreases bytes.len() - i,
    {
        copy.push(bytes[i]);
        i += 1;
    }
    assert(bytes@.take(bytes.len() as int) == bytes@);
    copy
}

/// The actions for one chunk of output: `bytes` as they were read, and
/// `text` as they are published.
pub fn handle_chunk(target: &PumpTarget, bytes: &Vec<u8>, text: &str) -> (actions: Vec<
    PumpAction,
>)
    ensures
        actions_view(actions@) == chunk_actions(target@, bytes@, text@),
{
    let mut actions: Vec<PumpAction> = Vec::new();
    match target {
        PumpTarget::Session { session_id } => {
            actions.push(PumpAction::Publish(Event::session_output(session_id.as_str(), text)));
        },
        PumpTarget::Job { job_id, run_id } => {
            actions.push(PumpAction::AppendTranscript(copy_bytes(bytes)));
            actions.push(
                PumpAction::Publish(Event::job_output(job_id.as_str(), run_id.as_str(), text)),
            );
        },
    }
    assert(actions_view(actions@) =~= chunk_actions(target@, bytes@, text@));
    actions
}

/// The actions for the outcome of one read. Bytes that are valid UTF-8
/// are published as the text they encode.
pub fn pump_step(target: &PumpTarget, read: &ReadOutcome) -> (actions: Vec<PumpAction>)
    ensures
        actions_view(actions@) == step_actions(target@, read_view(*read)),
        read_view(*read) matches Some(bytes) ==> (bytes.len() > 0 && valid_utf8(bytes)
            ==> lossy_text(bytes) == decode_utf8(bytes)),
{
    match read {
        ReadOutcome::Data(bytes) => {
            if bytes.len() == 0 {
                let mut actions: Vec<PumpAction> = Vec::new();
                actions.push(PumpAction::Stop);
                assert(actions_view(actions@) =~= seq![PumpActionView::Stop]);
                actions
            } else {
                let text = decode_lossy(bytes);
                handle_chunk(target, bytes, text.as_str())
            }
        },
        ReadOutcome::Failed => {
            let mut actions: Vec<PumpAction> = Vec::new();
            actions.push(PumpAction::Stop);
            assert(actions_view(actions@) =~= seq![PumpActionView::Stop]);
            actions
        },
    }
}

/// The actions of a job's pump for a series of reads that gave bytes, in
/// order.
pub open spec fn job_trace(
    job_id: Seq<char>,
    run_id: Seq<char>,
    reads: Seq<Seq<u8>>,
) -> Seq<PumpActionView>
    decreases reads.len(),
{
    if reads.len() == 0 {
        Seq::empty()
    } else {
        job_trace(job_id, run_id, reads.drop_last()) + chunk_actions(
            PumpTargetView::Job { job_id, run_id },
            reads.last(),
            lossy_text(reads.last()),
        )
    }
}

/// What the transcript holds once the given actions have been carried
/// out.
pub open spec fn transcript_after(actions: Seq<PumpActionView>) -> Seq<u8>
    decreases actions.len(),
{
    if actions.len() == 0 {
        Seq::empty()
    } else {
        match actions.last() {
            PumpActionView::AppendTranscript(bytes) => transcript_after(actions.drop_last())
                + bytes,
            _ => transcript_after(actions.drop_last()),
        }
    }
}

/// The events that have been published once the given actions have been
/// carried out.
pub open spec fn published_after(actions: Seq<PumpActionView>) -> Seq<EventView>
    decreases actions.len(),
{
    if actions.len() == 0 {
        Seq::empty()
    } else {
        match actions.last() {
            PumpActionView::Publish(event) => published_after(actions.drop_last()).push(event),
            _ => published_after(actions.drop_last()),
        }
    }
}

/// The output events of a job for a series of reads: each read published
/// as its permissive decoding.
pub open spec fn job_outputs(
    job_id: Seq<char>,
    run_id: Seq<char>,
    reads: Seq<Seq<u8>>,
) -> Seq<EventView> {
    Seq::new(reads.len(), |i: int| job_output(job_id, run_id, lossy_text(reads[i])))
}

/// The trace of a job's pump alternates: the action at an even position
/// appends the bytes of a read to the transcript, and the one after it
/// publishes the same read.
pub proof fn lemma_job_trace_shape(job_id: Seq<char>, run_id: Seq<char>, reads: Seq<Seq<u8>>)
    ensures
        job_trace(job_id, run_id, reads).len() == 2 * reads.len(),
        forall|i: int|
            0 <= i < reads.len() ==> {
                &&& job_trace(job_id, run_id, reads)[2 * i] == PumpActionView::AppendTranscript(
                    #[trigger] reads[i],
                )
                &&& job_trace(job_id, run_id, reads)[2 * i + 1] == PumpActionView::Publish(
                    job_output(job_id, run_id, lossy_text(reads[i])),
                )
            },
    decreases reads.len(),
{
    if reads.len() > 0 {
        let init = reads.drop_last();
        lemma_job_trace_shape(job_id, run_id, init);
        let whole = job_trace(job_id, run_id, reads);
        let before = job_trace(job_id, run_id, init);
        assert forall|i: int| 0 <= i < reads.len() implies {
            &&& whole[2 * i] == PumpActionView::AppendTranscript(#[trigger] reads[i])
            &&& whole[2 * i + 1] == PumpActionView::Publish(
                job_output(job_id, run_id, lossy_text(reads[i])),
            )
        } by {
            if i < init.len() {
                assert(reads[i] == init[i]);
                assert(whole[2 * i] == before[2 * i]);
                assert(whole[2 * i + 1] == before[2 * i + 1]);
            }
        }
    }
}

/// The transcript is the raw record of what was read, and it always holds
/// everything that has been published: after `n` actions of a job's pump
/// the transcript is the bytes of the first `(n + 1) / 2` reads joined end
/// to end, exactly as they were read, and the first `n / 2` reads have
/// been published.
pub proof fn lemma_transcript_holds_what_was_read(
    job_id: Seq<char>,
    run_id: Seq<char>,
    reads: Seq<Seq<u8>>,
    n: int,
)
    requires
        0 <= n <= 2 * reads.len(),
    ensures
        transcript_after(job_trace(job_id, run_id, reads).take(n)) == joined(
            reads.take((n + 1) / 2),
        ),
        published_after(job_trace(job_id, run_id, reads).take(n)) == job_outputs(
            job_id,
            run_id,
            reads.take(n / 2),
        ),
    decreases n,
{
    let trace = job_trace(job_id, run_id, reads);
    lemma_job_trace_shape(job_id, run_id, reads);
    if n == 0 {
        assert(reads.take(0) =~= Seq::<Seq<u8>>::empty());
        assert(joined(reads.take(0)) =~= Seq::<u8>::empty());
        assert(published_after(trace.take(0)) =~= job_outputs(job_id, run_id, reads.take(0)));
    } else {
        lemma_transcript_holds_what_was_read(job_id, run_id, reads, n - 1);
        let now = trace.take(n);
        assert(now.drop_last() == trace.take(n - 1));
        assert(now.last() == trace[n - 1]);
        if (n - 1) % 2 == 0 {
            let i = (n - 1) / 2;
            assert(n - 1 == 2 * i);
            assert(now.last() == PumpActionView::AppendTranscript(reads[i]));
            let logged = reads.take((n + 1) / 2);
            assert(logged.drop_last() == reads.take(n / 2));
            assert(logged.last() == reads[i]);
        } else {
            let i = (n - 1) / 2;
            assert(n - 1 == 2 * i + 1);
            assert(now.last() == PumpActionView::Publish(
                job_output(job_id, run_id, lossy_text(reads[i])),
            ));
            assert(published_after(now) =~= job_outputs(job_id, run_id, reads.take(n / 2)));
        }
    }
}

} // verus!
