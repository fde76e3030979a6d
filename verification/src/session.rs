//! The registry of live interactive sessions and the commands that act on
//! it.
//!
//! The registry maps the identifier of each live session to what is known of
//! it and to the handle through which its terminal and process are reached.
//! The handle is opaque here: commands look a session up and say what is to
//! be done with its handle, and the caller does it. The registry also keeps
//! every identifier it ever issued, so that no identifier is used twice.

use std::collections::{HashMap, HashSet};
use vstd::prelude::*;
use vstd::set_lib::lemma_len_subset;
use vstd::std_specs::hash::{group_hash_axioms, spec_keys_iter};
use vstd::std_specs::iter::IteratorSpec;
use vstd::utf8::encode_utf8;
use crate::errors::{CommandError, SpawnStage};
use crate::events::{session_exit, Event, EventView};
use crate::ids::{format_id, id_text, is_random_id, parse_id, parsed_id, random_id};
use crate::terminal::{
    cell_size, requested_size, session_shell, shell_program, SpawnSpec, TerminalSize,
};
use crate::text::{clone_opt, joined, lemma_encode_utf8_concat, opt_view};

verus! {

broadcast use group_hash_axioms;

/// What is known of a session.
pub struct SessionInfo {
    /// The text of the session's identifier.
    pub id: String,
    /// The working directory the session was started in, if one was given.
    pub cwd: Option<String>,
    /// A label for what the session runs.
    pub command: Option<String>,
}

/// What a `SessionInfo` holds.
pub struct SessionInfoView {
    pub id: Seq<char>,
    pub cwd: Option<Seq<char>>,
    pub command: Option<Seq<char>>,
}

impl View for SessionInfo {
    type V = SessionInfoView;

    open spec fn view(&self) -> SessionInfoView {
        SessionInfoView { id: self.id@, cwd: opt_view(self.cwd), command: opt_view(self.command) }
    }
}

impl SessionInfo {
    /// A copy of this record.
    pub fn duplicate(&self) -> (copy: SessionInfo)
        ensures
            copy@ == self@,
    {
        SessionInfo {
            id: self.id.clone(),
            cwd: clone_opt(&self.cwd),
            command: clone_opt(&self.command),
        }
    }
}

/// What creating a session takes before it can be registered: the
/// terminal to open and the process to start in it.
pub struct SessionPlan {
    pub size: TerminalSize,
    pub spawn: SpawnSpec,
}

/// Plans a session: a terminal of the size asked for, each dimension
/// falling back to its default, and an interactive login shell started in
/// `cwd` where one is given.
///
/// The caller opens the terminal and starts the process; only when both
/// have succeeded is the session registered with `SessionRegistry::create`,
/// so a failure leaves the registry as it was.
pub fn plan_session(cwd: &Option<String>, cols: Option<u16>, rows: Option<u16>) -> (plan:
    SessionPlan)
    ensures
        plan.size == requested_size(cols, rows),
        plan.spawn@ == session_shell(opt_view(*cwd)),
{
    SessionPlan { size: TerminalSize::requested(cols, rows), spawn: SpawnSpec::session_shell(cwd) }
}

/// A registered session: what is known of it, and its handle.
pub struct Session<H> {
    pub info: SessionInfo,
    pub handle: H,
}

/// What is known of a session that was just created with identifier `id`.
pub open spec fn new_session_info(id: u128, cwd: Option<Seq<char>>) -> SessionInfoView {
    SessionInfoView { id: id_text(id), cwd, command: Some(shell_program()) }
}

/// `infos` lists the sessions of `entries` in the order of `ids`, which names
/// every live session once.
pub open spec fn listed_as<H>(
    entries: Map<u128, Session<H>>,
    infos: Seq<SessionInfo>,
    ids: Seq<u128>,
) -> bool {
    &&& ids.no_duplicates()
    &&& ids.to_set() == entries.dom()
    &&& ids.len() == infos.len()
    &&& forall|i: int| 0 <= i < infos.len() ==> (#[trigger] infos[i])@ == entries[ids[i]].info@
}

/// `infos` is a snapshot of `entries`: it lists every live session exactly
/// once, in some order, and nothing else.
pub open spec fn is_listing<H>(entries: Map<u128, Session<H>>, infos: Seq<SessionInfo>) -> bool {
    exists|ids: Seq<u128>| #[trigger] listed_as(entries, infos, ids)
}

/// The session that the text `session_id` names in `entries`, if there is
/// one.
pub open spec fn lookup_in<H>(entries: Map<u128, Session<H>>, session_id: Seq<char>) -> Option<
    Session<H>,
> {
    match parsed_id(session_id) {
        Some(id) => if entries.contains_key(id) {
            Some(entries[id])
        } else {
            None
        },
        None => None,
    }
}

/// The sessions that are left when the session that `session_id` names is
/// retired.
pub open spec fn after_retire<H>(entries: Map<u128, Session<H>>, session_id: Seq<char>) -> Map<
    u128,
    Session<H>,
> {
    match parsed_id(session_id) {
        Some(id) => entries.remove(id),
        None => entries,
    }
}

/// The termination event that retiring the session that `session_id` names
/// publishes: one event if the session is live, none if it is not.
pub open spec fn retire_event<H>(
    entries: Map<u128, Session<H>>,
    session_id: Seq<char>,
    exit_code: Option<u32>,
) -> Option<EventView> {
    match parsed_id(session_id) {
        Some(id) => removal_event(entries, id, exit_code),
        None => None,
    }
}

/// The bytes that a write of `data` to the session that `session_id` names
/// hands to its input: the UTF-8 encoding of `data`, or nothing where no
/// such session is live.
pub open spec fn write_payload<H>(
    entries: Map<u128, Session<H>>,
    session_id: Seq<char>,
    data: Seq<char>,
) -> Option<Seq<u8>> {
    match lookup_in(entries, session_id) {
        Some(_) => Some(encode_utf8(data)),
        None => None,
    }
}

/// The bytes that a series of writes to the session that `session_id`
/// names hands to its input, in the order of the calls.
pub open spec fn delivered<H>(
    entries: Map<u128, Session<H>>,
    session_id: Seq<char>,
    writes: Seq<Seq<char>>,
) -> Seq<u8>
    decreases writes.len(),
{
    if writes.len() == 0 {
        Seq::empty()
    } else {
        let before = delivered(entries, session_id, writes.drop_last());
        match write_payload(entries, session_id, writes.last()) {
            Some(bytes) => before + bytes,
            None => before,
        }
    }
}

/// `infos` holds exactly one record whose identifier is `text`.
pub open spec fn listed_once(infos: Seq<SessionInfo>, text: Seq<char>) -> bool {
    exists|i: int|
        {
            &&& 0 <= i < infos.len()
            &&& (#[trigger] infos[i]).id@ == text
            &&& forall|j: int| 0 <= j < infos.len() && (#[trigger] infos[j]).id@ == text ==> j == i
        }
}

/// `infos` holds no record whose identifier is `text`.
pub open spec fn not_listed(infos: Seq<SessionInfo>, text: Seq<char>) -> bool {
    forall|j: int| 0 <= j < infos.len() ==> (#[trigger] infos[j]).id@ != text
}

/// `after` is `before` with the session `id` put in: it holds `handle` and
/// is known by the text of `id`, the working directory `cwd` and the shell
/// as its command. Every other session is as it was.
pub open spec fn inserted<H>(
    before: Map<u128, Session<H>>,
    after: Map<u128, Session<H>>,
    id: u128,
    cwd: Option<Seq<char>>,
    handle: H,
) -> bool {
    &&& after.contains_key(id)
    &&& after[id].info@ == new_session_info(id, cwd)
    &&& after[id].handle == handle
    &&& after == before.insert(id, after[id])
}

/// The identifier that stands `k` places after `start`, counting on from
/// zero after the greatest identifier.
pub open spec fn id_after(start: u128, k: nat) -> u128 {
    if start + k <= u128::MAX {
        (start + k) as u128
    } else {
        (start + k - 0x1_0000_0000_0000_0000_0000_0000_0000_0000) as u128
    }
}

/// `id` is the first identifier at or after `start` that was never issued.
pub open spec fn is_next_unissued(issued: Set<u128>, start: u128, id: u128) -> bool {
    exists|k: nat|
        {
            &&& k <= u128::MAX
            &&& id == #[trigger] id_after(start, k)
            &&& !issued.contains(id)
            &&& forall|j: nat| j < k ==> issued.contains(#[trigger] id_after(start, j))
        }
}

/// `after` is `before` with one more session, registered under the first
/// identifier at or after `draw` that was never issued before. The text of
/// that identifier is `session_id`, and the identifier counts as issued
/// from now on.
pub open spec fn registered_from<H>(
    before: SessionRegistry<H>,
    after: SessionRegistry<H>,
    draw: u128,
    session_id: Seq<char>,
    cwd: Option<Seq<char>>,
    handle: H,
) -> bool {
    parsed_id(session_id) matches Some(id) && {
        &&& session_id == id_text(id)
        &&& is_next_unissued(before.issued(), draw, id)
        &&& !before.issued().contains(id)
        &&& !before@.contains_key(id)
        &&& after.issued() == before.issued().insert(id)
        &&& inserted(before@, after@, id, cwd, handle)
    }
}

/// `after` is `before` with one more session, registered under an
/// identifier that is new: it was never issued before, and it is the first
/// such identifier at or after a random draw.
pub open spec fn registered<H>(
    before: SessionRegistry<H>,
    after: SessionRegistry<H>,
    session_id: Seq<char>,
    cwd: Option<Seq<char>>,
    handle: H,
) -> bool {
    exists|draw: u128|
        is_random_id(draw) && #[trigger] registered_from(
            before,
            after,
            draw,
            session_id,
            cwd,
            handle,
        )
}

/// The termination event that removing the session `id` publishes: one
/// event if the session is live, none if it is not.
pub open spec fn removal_event<H>(
    entries: Map<u128, Session<H>>,
    id: u128,
    exit_code: Option<u32>,
) -> Option<EventView> {
    if entries.contains_key(id) {
        Some(session_exit(id_text(id), exit_code))
    } else {
        None
    }
}

/// The table of live sessions, keyed by identifier, together with every
/// identifier that was ever issued, so that none is issued twice.
pub struct SessionRegistry<H> {
    sessions: HashMap<u128, Session<H>>,
    issued: HashSet<u128>,
}

impl<H> SessionRegistry<H> {
    /// The live sessions by identifier.
    pub closed spec fn view(&self) -> Map<u128, Session<H>> {
        self.sessions@
    }

    /// The identifiers that were ever issued, whether their sessions are
    /// still live or not.
    pub closed spec fn issued(&self) -> Set<u128> {
        self.issued@
    }

    /// The registry is well formed: every session is recorded under the
    /// identifier that its own record names, every live identifier was
    /// issued, and the text of every issued identifier reads back as the
    /// identifier.
    pub open spec fn wf(&self) -> bool {
        &&& self@.dom().finite()
        &&& self.issued().finite()
        &&& forall|id: u128| #[trigger]
            self@.contains_key(id) ==> self@[id].info.id@ == id_text(id) && self.issued().contains(
                id,
            )
        &&& forall|id: u128| #[trigger]
            self.issued().contains(id) ==> parsed_id(id_text(id)) == Some(id)
    }

    /// The session that the text `session_id` names, if it is live.
    pub open spec fn lookup(&self, session_id: Seq<char>) -> Option<Session<H>> {
        lookup_in(self@, session_id)
    }

    /// A registry without sessions.
    pub fn new() -> (registry: Self)
        ensures
            registry.wf(),
            registry@ == Map::<u128, Session<H>>::empty(),
            registry.issued() == Set::<u128>::empty(),
    {
        SessionRegistry { sessions: HashMap::new(), issued: HashSet::new() }
    }

    /// The number of live sessions.
    pub fn len(&self) -> (n: usize)
        requires
            self.wf(),
        ensures
            n == self@.dom().len(),
    {
        self.sessions.len()
    }

    /// Whether the identifier `id` was ever issued.
    pub fn was_issued(&self, id: u128) -> (r: bool)
        requires
            self.wf(),
        ensures
            r == self.issued().contains(id),
    {
        self.issued.contains(&id)
    }

    /// The first identifier at or after `draw` that was never issued.
    pub fn next_unissued(&self, draw: u128) -> (id: u128)
        requires
            self.wf(),
        ensures
            is_next_unissued(self.issued(), draw, id),
            !self.issued().contains(id),
    {
        let bound: usize = self.issued.len();
        let mut candidate: u128 = draw;
        let ghost mut k: nat = 0;
        while self.issued.contains(&candidate)
            invariant
                self.wf(),
                self.issued().len() == bound,
                k <= bound,
                candidate == id_after(draw, k),
                forall|j: nat| j < k ==> self.issued().contains(#[trigger] id_after(draw, j)),
            decreases bound - k,
        {
            proof {
                lemma_issued_in_a_row(self.issued(), draw, k + 1);
                k = k + 1;
            }
            candidate =
            if candidate == u128::MAX {
                0
            } else {
                candidate + 1
            };
        }
        candidate
    }

    fn put(&mut self, id: u128, cwd: Option<String>, handle: H) -> (session_id: String)
        requires
            old(self).wf(),
        ensures
            final(self).wf(),
            session_id@ == id_text(id),
            parsed_id(session_id@) == Some(id),
            final(self).issued() == old(self).issued().insert(id),
            inserted(old(self)@, final(self)@, id, opt_view(cwd), handle),
    {
        let text = format_id(id);
        let info = SessionInfo { id: text.clone(), cwd, command: Some("zsh".to_owned()) };
        self.sessions.insert(id, Session { info, handle });
        self.issued.insert(id);
        text
    }

    /// Registers a session that was just spawned under the first identifier
    /// at or after `draw` that was never issued, and returns the text of
    /// that identifier.
    pub fn register_from(&mut self, draw: u128, cwd: Option<String>, handle: H) -> (session_id:
        String)
        requires
            old(self).wf(),
        ensures
            final(self).wf(),
            registered_from(*old(self), *final(self), draw, session_id@, opt_view(cwd), handle),
    {
        let id = self.next_unissued(draw);
        self.put(id, cwd, handle)
    }

    /// Registers a session that was just spawned, under an identifier that
    /// was never issued before, and returns the text of that identifier.
    pub fn register(&mut self, cwd: Option<String>, handle: H) -> (session_id: String)
        requires
            old(self).wf(),
        ensures
            final(self).wf(),
            registered(*old(self), *final(self), session_id@, opt_view(cwd), handle),
    {
        let draw = random_id();
        self.register_from(draw, cwd, handle)
    }

    /// Completes the creation of a session once the attempt to open its
    /// terminal and start its process has ended.
    ///
    /// Where the attempt succeeded, the session is registered under an
    /// identifier that was never issued before, whose text is returned.
    /// Where it failed, the failure is reported and the registry is left as
    /// it was.
    pub fn create(&mut self, cwd: Option<String>, spawned: Result<H, SpawnStage>) -> (r: Result<
        String,
        CommandError,
    >)
        requires
            old(self).wf(),
        ensures
            final(self).wf(),
            match r {
                Ok(session_id) => spawned matches Ok(handle) && registered(
                    *old(self),
                    *final(self),
                    session_id@,
                    opt_view(cwd),
                    handle,
                ),
                Err(e) => spawned matches Err(stage) && e == CommandError::Spawn(stage)
                    && final(self)@ == old(self)@ && final(self).issued() == old(self).issued(),
            },
    {
        match spawned {
            Ok(handle) => Ok(self.register(cwd, handle)),
            Err(stage) => Err(CommandError::Spawn(stage)),
        }
    }

    /// The live session with the identifier `id`.
    pub fn get(&self, id: u128) -> (found: Option<&Session<H>>)
        requires
            self.wf(),
        ensures
            match found {
                Some(session) => self@.contains_key(id) && *session == self@[id],
                None => !self@.contains_key(id),
            },
    {
        self.sessions.get(&id)
    }

    /// The live session that `session_id` names.
    pub fn find(&self, session_id: &str) -> (found: Option<&Session<H>>)
        requires
            self.wf(),
        ensures
            match found {
                Some(session) => self.lookup(session_id@) == Some(*session),
                None => self.lookup(session_id@) is None,
            },
    {
        match parse_id(session_id) {
            Some(id) => self.get(id),
            None => None,
        }
    }

    /// A snapshot of what is known of every live session, in no particular
    /// order: each live session is listed exactly once, and nothing else is
    /// listed.
    pub fn list(&self) -> (infos: Vec<SessionInfo>)
        requires
            self.wf(),
        ensures
            is_listing(self@, infos@),
    {
        let mut infos: Vec<SessionInfo> = Vec::new();
        let ghost all = spec_keys_iter(&self.sessions).remaining();
        for id in iter: self.sessions.keys()
            invariant
                iter.seq() == all,
                all.unref().to_set() == self@.dom(),
                all.unref().no_duplicates(),
                infos.len() == iter.index(),
                forall|i: int|
                    0 <= i < infos.len() ==> (#[trigger] infos[i])@ == self@[*all[i]].info@,
        {
            assert(all.unref()[iter.index()] == *id);
            assert(all.unref().to_set().contains(*id));
            match self.sessions.get(id) {
                Some(session) => {
                    infos.push(session.info.duplicate());
                },
                None => {
                    assert(false);
                },
            }
        }
        proof {
            let ids = all.unref();
            assert(ids.len() == infos.len());
            assert forall|i: int| 0 <= i < infos.len() implies (#[trigger] infos[i])@
                == self@[ids[i]].info@ by {
                assert(ids[i] == *all[i]);
            }
            assert(listed_as(self@, infos@, ids));
        }
        infos
    }

    /// What is to be written to which session for a write command.
    ///
    /// Fails with `NotFound` where no live session has the identifier;
    /// otherwise the session's handle is to be given the bytes of `data`,
    /// all of them and in order.
    pub fn write<'a>(&'a self, session_id: &str, data: &str) -> (r: Result<
        WriteRequest<'a, H>,
        CommandError,
    >)
        requires
            self.wf(),
        ensures
            match r {
                Ok(request) => self.lookup(session_id@) matches Some(session) && *request.handle
                    == session.handle && write_payload(self@, session_id@, data@) == Some(
                    request.bytes@,
                ),
                Err(e) => self.lookup(session_id@) is None && e is NotFound,
            },
    {
        match self.find(session_id) {
            Some(session) => Ok(
                WriteRequest { handle: &session.handle, bytes: data.as_bytes_vec() },
            ),
            None => Err(CommandError::NotFound),
        }
    }

    /// What is to be resized for a resize command, or `None` where no live
    /// session has the identifier: resizing a session that is gone is no
    /// error.
    pub fn resize<'a>(&'a self, session_id: &str, cols: u16, rows: u16) -> (r: Option<
        ResizeRequest<'a, H>,
    >)
        requires
            self.wf(),
        ensures
            match r {
                Some(request) => self.lookup(session_id@) matches Some(session) && *request.handle
                    == session.handle && request.size == cell_size(cols, rows),
                None => self.lookup(session_id@) is None,
            },
    {
        match self.find(session_id) {
            Some(session) => Some(
                ResizeRequest { handle: &session.handle, size: TerminalSize::cells(cols, rows) },
            ),
            None => None,
        }
    }

    /// The handle of the session whose process is to be signalled for a
    /// kill command, or `None` where no live session has the identifier.
    /// The session stays registered: only `retire` removes it.
    pub fn kill<'a>(&'a self, session_id: &str) -> (r: Option<&'a H>)
        requires
            self.wf(),
        ensures
            match r {
                Some(handle) => self.lookup(session_id@) matches Some(session) && *handle
                    == session.handle,
                None => self.lookup(session_id@) is None,
            },
    {
        match self.find(session_id) {
            Some(session) => Some(&session.handle),
            None => None,
        }
    }

    /// Removes the session that `session_id` names after its process has
    /// exited, and returns the termination event to publish.
    ///
    /// The event is returned only by the call that removed the session: a
    /// second call for the same session changes nothing and returns
    /// `None`.
    pub fn retire(&mut self, session_id: &str, exit_code: Option<u32>) -> (r: Option<Event>)
        requires
            old(self).wf(),
        ensures
            final(self).wf(),
            final(self)@ == after_retire(old(self)@, session_id@),
            final(self).issued() == old(self).issued(),
            match r {
                Some(event) => retire_event(old(self)@, session_id@, exit_code) == Some(event@),
                None => retire_event(old(self)@, session_id@, exit_code) is None,
            },
    {
        match parse_id(session_id) {
            Some(id) => self.remove(id, exit_code),
            None => None,
        }
    }

    /// Removes the session with the identifier `id` and returns the
    /// termination event to publish, if the session was live.
    pub fn remove(&mut self, id: u128, exit_code: Option<u32>) -> (r: Option<Event>)
        requires
            old(self).wf(),
        ensures
            final(self).wf(),
            final(self)@ == old(self)@.remove(id),
            final(self).issued() == old(self).issued(),
            match r {
                Some(event) => removal_event(old(self)@, id, exit_code) == Some(event@),
                None => removal_event(old(self)@, id, exit_code) is None,
            },
    {
        match self.sessions.remove(&id) {
            Some(session) => Some(Event::session_exit(session.info.id.as_str(), exit_code)),
            None => {
                assert(self@ == old(self)@.remove(id));
                None
            },
        }
    }
}

/// A write to carry out: the bytes to hand, in order, to the input of the
/// session behind `handle`.
pub struct WriteRequest<'a, H> {
    pub handle: &'a H,
    pub bytes: Vec<u8>,
}

/// A resize to carry out: the new geometry of the terminal behind
/// `handle`.
pub struct ResizeRequest<'a, H> {
    pub handle: &'a H,
    pub size: TerminalSize,
}

/// While a session is live, a snapshot of the registry holds exactly one
/// record with its identifier. A session is live from the `create` that
/// registered it until the `retire` that removes it; no other command
/// changes the registry.
pub proof fn lemma_live_session_listed_once<H>(
    registry: SessionRegistry<H>,
    infos: Seq<SessionInfo>,
    id: u128,
)
    requires
        registry.wf(),
        registry@.contains_key(id),
        is_listing(registry@, infos),
    ensures
        listed_once(infos, id_text(id)),
{
    let ids = choose|ids: Seq<u128>| #[trigger] listed_as(registry@, infos, ids);
    assert(ids.to_set().contains(id));
    let i = choose|i: int| 0 <= i < ids.len() && ids[i] == id;
    assert(infos[i]@ == registry@[ids[i]].info@);
    assert forall|j: int| 0 <= j < infos.len() && (#[trigger] infos[j]).id@ == id_text(id) implies j
        == i by {
        assert(ids.to_set().contains(ids[j]));
        assert(registry@.contains_key(ids[j]));
        assert(infos[j]@ == registry@[ids[j]].info@);
        assert(parsed_id(id_text(ids[j])) == Some(ids[j]));
    }
}

/// Once a session has been retired it is gone for good: it is found by no
/// command, no snapshot of the registry lists it, and retiring it again
/// changes nothing and publishes no second termination event.
pub proof fn lemma_retired_session_is_gone<H>(
    before: SessionRegistry<H>,
    after: SessionRegistry<H>,
    infos: Seq<SessionInfo>,
    id: u128,
    exit_code: Option<u32>,
)
    requires
        before.wf(),
        before@.contains_key(id),
        after@ == after_retire(before@, id_text(id)),
        after.issued() == before.issued(),
        is_listing(after@, infos),
    ensures
        retire_event(before@, id_text(id), exit_code) == Some(session_exit(id_text(id), exit_code)),
        after.wf(),
        after.lookup(id_text(id)) is None,
        not_listed(infos, id_text(id)),
        retire_event(after@, id_text(id), exit_code) is None,
        after_retire(after@, id_text(id)) == after@,
        after.issued().contains(id),
{
    assert(parsed_id(id_text(id)) == Some(id));
    assert(after@ == before@.remove(id));
    assert(after@.remove(id) == after@);
    let ids = choose|ids: Seq<u128>| #[trigger] listed_as(after@, infos, ids);
    assert forall|j: int| 0 <= j < infos.len() implies (#[trigger] infos[j]).id@ != id_text(id) by {
        assert(ids.to_set().contains(ids[j]));
        assert(after@.contains_key(ids[j]));
        assert(before@.contains_key(ids[j]));
        assert(infos[j]@ == after@[ids[j]].info@);
        assert(parsed_id(id_text(ids[j])) == Some(ids[j]));
    }
}

/// Identifiers that were issued in a row, starting anywhere, are all
/// different, so there are no more of them than were issued.
pub proof fn lemma_issued_in_a_row(issued: Set<u128>, start: u128, n: nat)
    requires
        issued.finite(),
        n <= u128::MAX,
        forall|j: nat| j < n ==> issued.contains(#[trigger] id_after(start, j)),
    ensures
        n <= issued.len(),
{
    let row = Seq::new(n, |j: int| id_after(start, j as nat));
    assert forall|i: int, j: int| 0 <= i < row.len() && 0 <= j < row.len() && i != j implies row[i]
        != row[j] by {
        assert(row[i] == id_after(start, i as nat));
        assert(row[j] == id_after(start, j as nat));
    }
    row.unique_seq_to_set();
    assert forall|id: u128| row.to_set().contains(id) implies issued.contains(id) by {
        let j = choose|j: int| 0 <= j < row.len() && row[j] == id;
        assert(issued.contains(id_after(start, j as nat)));
    }
    lemma_len_subset(row.to_set(), issued);
}

/// A session that has just been registered is live under an identifier
/// that is new: no session was registered under it before, commands find
/// the session under the text that was returned, with the handle it was
/// registered with, and every other session is as it was.
pub proof fn lemma_registered_session_is_new_and_live<H>(
    before: SessionRegistry<H>,
    after: SessionRegistry<H>,
    session_id: Seq<char>,
    cwd: Option<Seq<char>>,
    handle: H,
)
    requires
        registered(before, after, session_id, cwd, handle),
    ensures
        before.lookup(session_id) is None,
        after.lookup(session_id) matches Some(session) && session.handle == handle
            && session.info@.id == session_id,
        parsed_id(session_id) matches Some(id) && after@.dom() == before@.dom().insert(id)
            && !before@.dom().contains(id),
        forall|other: u128|
            Some(other) != parsed_id(session_id) && before@.contains_key(other) ==> after@[other]
                == before@[other],
{
}

/// An identifier is never used twice: the identifier of a session that is
/// registered differs from every identifier issued before, whether that
/// session is still live or not, and so does its text. What was issued
/// stays issued.
pub proof fn lemma_identifier_never_reused<H>(
    before: SessionRegistry<H>,
    after: SessionRegistry<H>,
    earlier: u128,
    session_id: Seq<char>,
    cwd: Option<Seq<char>>,
    handle: H,
)
    requires
        before.wf(),
        before.issued().contains(earlier),
        registered(before, after, session_id, cwd, handle),
    ensures
        parsed_id(session_id) != Some(earlier),
        session_id != id_text(earlier),
        after.issued().contains(earlier),
        parsed_id(session_id) matches Some(id) && after.issued().contains(id),
{
}

/// A command that names no live session finds nothing to do: a write
/// hands over no bytes, and retiring removes nothing and publishes
/// nothing.
pub proof fn lemma_absent_session<H>(
    registry: SessionRegistry<H>,
    session_id: Seq<char>,
    data: Seq<char>,
    exit_code: Option<u32>,
)
    requires
        registry.wf(),
        registry.lookup(session_id) is None,
    ensures
        write_payload(registry@, session_id, data) is None,
        retire_event(registry@, session_id, exit_code) is None,
        after_retire(registry@, session_id) == registry@,
{
    match parsed_id(session_id) {
        Some(id) => {
            assert(registry@.remove(id) == registry@);
        },
        None => {},
    }
}

/// Writes reach a live session in call order, without loss and without
/// interleaving: what a series of writes hands to its input is the
/// encoding of their data joined end to end.
pub proof fn lemma_writes_keep_order<H>(
    registry: SessionRegistry<H>,
    session_id: Seq<char>,
    writes: Seq<Seq<char>>,
)
    requires
        registry.lookup(session_id) is Some,
    ensures
        delivered(registry@, session_id, writes) == encode_utf8(joined(writes)),
    decreases writes.len(),
{
    if writes.len() > 0 {
        lemma_writes_keep_order(registry, session_id, writes.drop_last());
        lemma_encode_utf8_concat(joined(writes.drop_last()), writes.last());
    }
}

} // verus!
