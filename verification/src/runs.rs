//! The runs of a project, newest first.

use std::time::SystemTime;
use vstd::prelude::*;
use crate::clock::{elapsed_millis, millis_to_epoch_ms, to_epoch_ms};
use crate::order::{
    arranged, is_stable_order, is_stably_sorted, lemma_text_before_total,
    lemma_text_not_before_chain, stable_order, text_before, text_precedes, views_of, Ranked,
};
use crate::text::chars_of;

verus! {

/// One run directory of a project.
pub struct RunInfo {
    /// The name of the run directory, which is the run's identifier.
    pub id: String,
    /// The path of the run directory.
    pub dir: String,
    /// When the directory was last modified, in milliseconds since the
    /// epoch, where that is known.
    pub modified_ms: Option<u64>,
}

/// What a `RunInfo` holds.
pub struct RunInfoView {
    pub id: Seq<char>,
    pub dir: Seq<char>,
    pub modified_ms: Option<u64>,
}

impl View for RunInfo {
    type V = RunInfoView;

    open spec fn view(&self) -> RunInfoView {
        RunInfoView { id: self.id@, dir: self.dir@, modified_ms: self.modified_ms }
    }
}

/// `a` is less than `b`, an unknown time being less than every known
/// one.
pub open spec fn time_less(a: Option<u64>, b: Option<u64>) -> bool {
    match (a, b) {
        (None, Some(_)) => true,
        (Some(x), Some(y)) => x < y,
        _ => false,
    }
}

/// `a` is listed before `b`: it was modified later, or at the same time
/// and its identifier stands later in dictionary order.
pub open spec fn run_before(a: RunInfoView, b: RunInfoView) -> bool {
    time_less(b.modified_ms, a.modified_ms) || (a.modified_ms == b.modified_ms && text_before(
        b.id,
        a.id,
    ))
}

fn time_is_less(a: &Option<u64>, b: &Option<u64>) -> (r: bool)
    ensures
        r == time_less(*a, *b),
{
    match (a, b) {
        (None, Some(_)) => true,
        (Some(x), Some(y)) => *x < *y,
        _ => false,
    }
}

fn same_time(a: &Option<u64>, b: &Option<u64>) -> (r: bool)
    ensures
        r == (*a == *b),
{
    match (a, b) {
        (None, None) => true,
        (Some(x), Some(y)) => *x == *y,
        _ => false,
    }
}

impl Ranked for RunInfo {
    open spec fn before(a: RunInfoView, b: RunInfoView) -> bool {
        run_before(a, b)
    }

    fn precedes(&self, other: &Self) -> (r: bool) {
        if time_is_less(&other.modified_ms, &self.modified_ms) {
            true
        } else if same_time(&self.modified_ms, &other.modified_ms) {
            let mine = chars_of(self.id.as_str());
            let theirs = chars_of(other.id.as_str());
            text_precedes(&theirs, &mine)
        } else {
            false
        }
    }

    proof fn lemma_asymmetric(a: RunInfoView, b: RunInfoView) {
        lemma_text_before_total(a.id, b.id);
    }

    proof fn lemma_not_before_chain(a: RunInfoView, b: RunInfoView, c: RunInfoView) {
        if a.modified_ms == b.modified_ms && b.modified_ms == c.modified_ms {
            lemma_text_not_before_chain(c.id, b.id, a.id);
        }
    }
}

impl RunInfo {
    /// The record of the run directory named `id` at `dir`, last modified
    /// at `modified` where that is known.
    pub fn new(id: &str, dir: &str, modified: Option<SystemTime>) -> (run: RunInfo)
        ensures
            run@ == (RunInfoView {
                id: id@,
                dir: dir@,
                modified_ms: match modified {
                    Some(ts) => millis_to_epoch_ms(elapsed_millis(ts)),
                    None => None,
                },
            }),
    {
        RunInfo {
            id: id.to_owned(),
            dir: dir.to_owned(),
            modified_ms: match modified {
                Some(ts) => to_epoch_ms(ts),
                None => None,
            },
        }
    }

    /// A copy of this record.
    pub fn duplicate(&self) -> (copy: RunInfo)
        ensures
            copy@ == self@,
    {
        RunInfo { id: self.id.clone(), dir: self.dir.clone(), modified_ms: self.modified_ms }
    }
}

/// The runs in the order in which they are listed: most recently modified
/// first, runs whose time is unknown last, and runs of the same time by
/// identifier in descending dictionary order.
pub fn runs_list(runs: &Vec<RunInfo>) -> (listed: Vec<RunInfo>)
    ensures
        is_stably_sorted::<RunInfo>(views_of(runs@), views_of(listed@)),
{
    let order = stable_order(runs);
    let mut listed: Vec<RunInfo> = Vec::new();
    let mut k: usize = 0;
    while k < order.len()
        invariant
            k <= order.len(),
            listed.len() == k,
            is_stable_order::<RunInfo>(views_of(runs@), order@),
            forall|i: int| 0 <= i < k ==> (#[trigger] listed[i])@ == runs[order[i] as int]@,
        decreases order.len() - k,
    {
        listed.push(runs[order[k]].duplicate());
        k += 1;
    }
    assert(views_of(listed@) =~= arranged(views_of(runs@), order@));
    listed
}

} // verus!
