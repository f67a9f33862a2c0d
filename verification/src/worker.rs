use vstd::prelude::*;

use crate::store::bytes_eq;
use crate::user_models::{CastId, CastIdV, Signer, SignerV};

verus! {

/// One unit of index work; a task is the debouncing key, so equality is
/// structural.  The force flag is part of the identity: `IndexFid(42,
/// true)` and `IndexFid(42, false)` debounce independently.
#[derive(Debug, Clone, PartialEq, Eq, Hash)]
pub enum Task {
    /// Refresh the profile row; the flag bypasses the debounce gap.
    IndexFid(u64, bool),
    /// Refresh both follow directions.
    IndexLinks(u64),
    /// Reserved; admitted as a no-op.
    IndexFidCasts(u64, bool),
    /// Reserved; admitted as a no-op.
    IndexCast(CastId),
    /// Upsert a signer row unconditionally.
    UpdateSigner(Signer),
}

/// Mathematical image of a [`Task`].
pub enum TaskV {
    IndexFid(u64, bool),
    IndexLinks(u64),
    IndexFidCasts(u64, bool),
    IndexCast(CastIdV),
    UpdateSigner(SignerV),
}

impl View for Task {
    type V = TaskV;

    open spec fn view(&self) -> TaskV {
        match self {
            Task::IndexFid(fid, force) => TaskV::IndexFid(*fid, *force),
            Task::IndexLinks(fid) => TaskV::IndexLinks(*fid),
            Task::IndexFidCasts(fid, force) => TaskV::IndexFidCasts(*fid, *force),
            Task::IndexCast(c) => TaskV::IndexCast(c@),
            Task::UpdateSigner(s) => TaskV::UpdateSigner(s@),
        }
    }
}

/// Structural task equality, the relation the last-run map is keyed by.
pub fn task_eq(a: &Task, b: &Task) -> (r: bool)
    ensures
        r == (a@ == b@),
{
    match (a, b) {
        (Task::IndexFid(f1, x1), Task::IndexFid(f2, x2)) => f1 == f2 && x1 == x2,
        (Task::IndexLinks(f1), Task::IndexLinks(f2)) => f1 == f2,
        (Task::IndexFidCasts(f1, x1), Task::IndexFidCasts(f2, x2)) => f1 == f2 && x1 == x2,
        (Task::IndexCast(c1), Task::IndexCast(c2)) => {
            let same = c1.fid == c2.fid && bytes_eq(&c1.hash, &c2.hash);
            proof {
                if same {
                    assert(c1@ =~= c2@);
                }
            }
            same
        },
        (Task::UpdateSigner(s1), Task::UpdateSigner(s2)) => {
            let same = s1.fid == s2.fid && s1.active == s2.active && bytes_eq(&s1.pk, &s2.pk);
            proof {
                if same {
                    assert(s1@ =~= s2@);
                }
            }
            same
        },
        _ => false,
    }
}

// ---------------------------------------------------------------------------
// The last-run map.
// ---------------------------------------------------------------------------

/// Meaning of the last-run entries: `task -> unix seconds`.
pub open spec fn last_run_map_of(s: Seq<(Task, u64)>) -> Map<TaskV, u64>
    decreases s.len(),
{
    if s.len() == 0 {
        Map::empty()
    } else {
        last_run_map_of(s.drop_last()).insert(s.last().0@, s.last().1)
    }
}

/// At most one entry per task.
pub open spec fn last_run_unique(s: Seq<(Task, u64)>) -> bool {
    forall|i: int, j: int| 0 <= i < j < s.len() ==> s[i].0@ != s[j].0@
}

/// A row's key is in the map.
proof fn lemma_last_run_contains_at(s: Seq<(Task, u64)>, i: int)
    requires
        0 <= i < s.len(),
    ensures
        last_run_map_of(s).contains_key(s[i].0@),
    decreases s.len(),
{
    if i < s.len() - 1 {
        lemma_last_run_contains_at(s.drop_last(), i);
    }
}

/// With unique keys, the map reads back exactly the entry.
proof fn lemma_last_run_index(s: Seq<(Task, u64)>, i: int)
    requires
        last_run_unique(s),
        0 <= i < s.len(),
    ensures
        last_run_map_of(s).contains_key(s[i].0@),
        last_run_map_of(s)[s[i].0@] == s[i].1,
    decreases s.len(),
{
    lemma_last_run_contains_at(s, i);
    if i < s.len() - 1 {
        lemma_last_run_index(s.drop_last(), i);
    }
}

/// A key on no entry is not in the map.
proof fn lemma_last_run_absent(s: Seq<(Task, u64)>, t: TaskV)
    requires
        forall|i: int| 0 <= i < s.len() ==> s[i].0@ != t,
    ensures
        !last_run_map_of(s).contains_key(t),
    decreases s.len(),
{
    if s.len() > 0 {
        lemma_last_run_absent(s.drop_last(), t);
    }
}

/// Appending an entry inserts its key.
proof fn lemma_last_run_push(s: Seq<(Task, u64)>, e: (Task, u64))
    ensures
        last_run_map_of(s.push(e)) == last_run_map_of(s).insert(e.0@, e.1),
{
    assert(s.push(e).drop_last() =~= s);
}

/// Replacing an entry in place, key kept, overwrites its map entry.
proof fn lemma_last_run_update(s: Seq<(Task, u64)>, i: int, e: (Task, u64))
    requires
        last_run_unique(s),
        0 <= i < s.len(),
        s[i].0@ == e.0@,
    ensures
        last_run_map_of(s.update(i, e)) == last_run_map_of(s).insert(e.0@, e.1),
    decreases s.len(),
{
    let t = s.update(i, e);
    if i == s.len() - 1 {
        assert(t.drop_last() =~= s.drop_last());
        assert(last_run_map_of(t) =~= last_run_map_of(s).insert(e.0@, e.1));
    } else {
        assert(t.drop_last() =~= s.drop_last().update(i, e));
        lemma_last_run_update(s.drop_last(), i, e);
        assert(s[s.len() - 1].0@ != e.0@);
        assert(last_run_map_of(t) =~= last_run_map_of(s).insert(e.0@, e.1));
    }
}

/// In-process record of the most recent scheduling time per task; lives
/// only as long as the process.
pub struct LastRunMap {
    pub entries: Vec<(Task, u64)>,
}

impl View for LastRunMap {
    type V = Map<TaskV, u64>;

    open spec fn view(&self) -> Map<TaskV, u64> {
        last_run_map_of(self.entries@)
    }
}

impl LastRunMap {
    /// At most one entry per task.
    pub open spec fn wf(self) -> bool {
        last_run_unique(self.entries@)
    }

    /// Fresh, empty map.
    pub fn new() -> (r: LastRunMap)
        ensures
            r.wf(),
            r@ == Map::<TaskV, u64>::empty(),
    {
        LastRunMap { entries: Vec::new() }
    }

    fn find(&self, t: &Task) -> (r: Option<usize>)
        ensures
            match r {
                Some(i) => i < self.entries@.len() && self.entries@[i as int].0@ == t@,
                None => forall|i: int| 0 <= i < self.entries@.len() ==> self.entries@[i].0@ != t@,
            },
    {
        let n = self.entries.len();
        let mut i: usize = 0;
        while i < n
            invariant
                i <= n,
                n == self.entries@.len(),
                forall|j: int| 0 <= j < i ==> self.entries@[j].0@ != t@,
            decreases n - i,
        {
            if task_eq(&self.entries[i].0, t) {
                return Some(i);
            }
            i = i + 1;
        }
        None
    }

    /// The recorded last-run time of `t`, if any.
    pub fn get(&self, t: &Task) -> (r: Option<u64>)
        requires
            self.wf(),
        ensures
            r is Some <==> self@.contains_key(t@),
            (r matches Some(v) ==> v == self@[t@]),
    {
        match self.find(t) {
            Some(i) => {
                proof {
                    lemma_last_run_index(self.entries@, i as int);
                }
                Some(self.entries[i].1)
            },
            None => {
                proof {
                    lemma_last_run_absent(self.entries@, t@);
                }
                None
            },
        }
    }

    /// Record `v` as the last-run time of `t`.
    pub fn insert(&mut self, t: Task, v: u64)
        requires
            old(self).wf(),
        ensures
            final(self).wf(),
            final(self)@ == old(self)@.insert(t@, v),
    {
        let ghost pre = self.entries@;
        match self.find(&t) {
            Some(i) => {
                self.entries.set(i, (t, v));
                proof {
                    lemma_last_run_update(pre, i as int, self.entries@[i as int]);
                    assert(forall|j: int|
                        0 <= j < self.entries@.len() ==> self.entries@[j].0@ == pre[j].0@);
                }
            },
            None => {
                self.entries.push((t, v));
                proof {
                    lemma_last_run_push(pre, self.entries@.last());
                }
            },
        }
    }
}

// ---------------------------------------------------------------------------
// Scheduling policy.
// ---------------------------------------------------------------------------

pub const ONE_MINUTE: usize = 60;

/// The admission predicate: a task last run at `last` may run again at
/// `now_s` once the debounce gap has strictly passed.
pub open spec fn spec_admits(now_s: u64, last: u64, gap: u64) -> bool {
    now_s > last + gap
}

/// The last-run time a freshly seen task is debounced against.
pub open spec fn spec_last_call(last: Option<u64>) -> u64 {
    match last {
        Some(l) => l,
        None => 0,
    }
}

fn admit_at(now_s: u64, last: u64, gap: u64) -> (r: bool)
    ensures
        r == spec_admits(now_s, last, gap),
{
    if last <= u64::MAX - gap {
        now_s > last + gap
    } else {
        false
    }
}

/// Unix seconds from the system clock.
///
/// Relies on `std::time::SystemTime::now` read against `UNIX_EPOCH`: of a
/// clock reading nothing can be promised; a clock before the epoch reads
/// as zero.
#[verifier::external_body]
pub fn now() -> u64 {
    std::time::SystemTime::now()
        .duration_since(std::time::UNIX_EPOCH)
        .map(|d| d.as_secs())
        .unwrap_or(0)
}

/// The time now, paired with whether a task last run at `last` clears a
/// debounce gap of `gap` seconds at that time.
pub fn should_schedule(last: u64, gap: usize) -> (r: (u64, bool))
    ensures
        r.1 == spec_admits(r.0, last, gap as u64),
{
    let n = now();
    (n, admit_at(n, last, gap as u64))
}

/// The job the scheduler dispatches for one admitted task.
#[derive(Debug, PartialEq, Eq)]
pub enum Dispatch {
    /// Store the signer row.
    UpdateSigner(Signer),
    /// Fetch and store the profile of the fid.
    IndexFid(u64),
    /// Fetch and store both follow directions of the fid.
    IndexLinks(u64),
    /// Dropped by debounce, or a reserved variant.
    Skip,
}

/// Per-variant scheduling policy, at time `now_s`, for a task whose
/// recorded last-run time is `last`:
///
/// | variant         | gap    | force bypass | on admit                     |
/// |-----------------|--------|--------------|------------------------------|
/// | `UpdateSigner`  | none   | n/a          | dispatch the signer store    |
/// | `IndexFid`      | 300 s  | yes          | record `now_s`, dispatch     |
/// | `IndexLinks`    | 1800 s | n/a          | record `now_s`, dispatch     |
/// | `IndexFidCasts` | n/a    | n/a          | nothing (reserved)           |
/// | `IndexCast`     | n/a    | n/a          | nothing (reserved)           |
///
/// A rejected task is dropped silently; the map is updated only on an
/// admitted refresh.
pub fn schedule_task(task: Task, index_map: &mut LastRunMap, last: Option<u64>, now_s: u64) -> (r:
    Dispatch)
    requires
        old(index_map).wf(),
    ensures
        final(index_map).wf(),
        (task@ matches TaskV::UpdateSigner(sv) ==> (r matches Dispatch::UpdateSigner(s) && s@ == sv
            && final(index_map)@ == old(index_map)@)),
        (task@ matches TaskV::IndexFid(fid, force) ==> (if spec_admits(
            now_s,
            spec_last_call(last),
            300,
        ) || force {
            r matches Dispatch::IndexFid(f) && f == fid && final(index_map)@ == old(
                index_map,
            )@.insert(task@, now_s)
        } else {
            r is Skip && final(index_map)@ == old(index_map)@
        })),
        (task@ matches TaskV::IndexLinks(fid) ==> (if spec_admits(
            now_s,
            spec_last_call(last),
            1800,
        ) {
            r matches Dispatch::IndexLinks(f) && f == fid && final(index_map)@ == old(
                index_map,
            )@.insert(task@, now_s)
        } else {
            r is Skip && final(index_map)@ == old(index_map)@
        })),
        (task@ is IndexFidCasts ==> r is Skip && final(index_map)@ == old(index_map)@),
        (task@ is IndexCast ==> r is Skip && final(index_map)@ == old(index_map)@),
{
    let last_call = match last {
        Some(l) => l,
        None => 0,
    };
    match task {
        Task::UpdateSigner(signer_event) => Dispatch::UpdateSigner(signer_event),
        Task::IndexFid(fid, force) => {
            if admit_at(now_s, last_call, (ONE_MINUTE * 5) as u64) || force {
                index_map.insert(Task::IndexFid(fid, force), now_s);
                Dispatch::IndexFid(fid)
            } else {
                Dispatch::Skip
            }
        },
        Task::IndexLinks(fid) => {
            if admit_at(now_s, last_call, (ONE_MINUTE * 30) as u64) {
                index_map.insert(Task::IndexLinks(fid), now_s);
                Dispatch::IndexLinks(fid)
            } else {
                Dispatch::Skip
            }
        },
        Task::IndexFidCasts(_, _) => Dispatch::Skip,
        Task::IndexCast(_) => Dispatch::Skip,
    }
}

/// One turn of the worker loop at time `now_s`: look the task up in the
/// last-run map and apply the scheduling policy.
pub fn consume_step(index_map: &mut LastRunMap, task: Task, now_s: u64) -> (r: Dispatch)
    requires
        old(index_map).wf(),
    ensures
        final(index_map).wf(),
        (task@ matches TaskV::UpdateSigner(sv) ==> (r matches Dispatch::UpdateSigner(s) && s@ == sv
            && final(index_map)@ == old(index_map)@)),
        (task@ matches TaskV::IndexFid(fid, force) ==> (if spec_admits(
            now_s,
            spec_stored_last(old(index_map)@, task@),
            300,
        ) || force {
            r matches Dispatch::IndexFid(f) && f == fid && final(index_map)@ == old(
                index_map,
            )@.insert(task@, now_s)
        } else {
            r is Skip && final(index_map)@ == old(index_map)@
        })),
        (task@ matches TaskV::IndexLinks(fid) ==> (if spec_admits(
            now_s,
            spec_stored_last(old(index_map)@, task@),
            1800,
        ) {
            r matches Dispatch::IndexLinks(f) && f == fid && final(index_map)@ == old(
                index_map,
            )@.insert(task@, now_s)
        } else {
            r is Skip && final(index_map)@ == old(index_map)@
        })),
        (task@ is IndexFidCasts ==> r is Skip && final(index_map)@ == old(index_map)@),
        (task@ is IndexCast ==> r is Skip && final(index_map)@ == old(index_map)@),
{
    let last = index_map.get(&task);
    schedule_task(task, index_map, last, now_s)
}

/// The last-run time the worker loop debounces a task against: the stored
/// entry, or zero for a task never admitted.
pub open spec fn spec_stored_last(m: Map<TaskV, u64>, t: TaskV) -> u64 {
    if m.contains_key(t) {
        m[t]
    } else {
        0
    }
}

/// Law: the debounce window for a profile refresh — once an admitted
/// `IndexFid` is recorded at time `t`, an identical task is rejected at
/// any `t2` within the 300 s gap and admitted at any `t2` past it.
pub proof fn lemma_debounce_window(t: u64, t2: u64)
    ensures
        t2 <= t + 300 ==> !spec_admits(t2, t, 300),
        t2 > t + 300 ==> spec_admits(t2, t, 300),
{
}

/// Law: the last-run map is monotone under debounced admissions — when a
/// task is admitted because its gap passed (not by force), the recorded
/// time never decreases.
pub proof fn lemma_last_run_monotone(m: Map<TaskV, u64>, t: TaskV, now_s: u64, gap: u64)
    requires
        spec_admits(now_s, spec_stored_last(m, t), gap),
    ensures
        m.insert(t, now_s)[t] >= spec_stored_last(m, t),
{
}

} // verus!
