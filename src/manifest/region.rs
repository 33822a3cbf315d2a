//! The manifest log of one region, its checkpointer and its recovery.

use crate::manifest::action::{
    apply_action, apply_list, has_remove, RegionManifestDataBuilder, RegionEdit, RegionChange,
    initial_state, replay_range, version_view, ActionView, ManifestVersion, ProtocolAction,
    RegionManifestData, RegionMetaAction, RegionMetaActionList, RegionState, RegionVersion,
    MAX_VERSION, MIN_VERSION,
};
use vstd::prelude::*;
use vstd::string::*;

verus! {

/// Why a manifest operation failed.
#[derive(Clone, Copy, Debug, PartialEq, Eq, Structural)]
pub enum ManifestError {
    /// Every version has been handed out.
    VersionExhausted,
    /// A checkpoint met an action that it cannot fold (a region removal).
    ManifestCheckpoint,
    /// Recovery met a region removal, whose replay is not defined.
    RemoveNotSupported,
}

/// A folded prefix `[.., last_version]` of a region's log.
#[derive(Debug, PartialEq)]
pub struct RegionCheckpoint {
    pub protocol: ProtocolAction,
    pub last_version: ManifestVersion,
    pub compacted_actions: usize,
    pub checkpoint: Option<RegionManifestData>,
}

impl RegionCheckpoint {
    /// The region state that the checkpoint holds.
    pub open spec fn state(&self) -> RegionState {
        match self.checkpoint {
            Some(d) => data_state(self.protocol, d),
            None => RegionState { protocol: self.protocol, ..initial_state() },
        }
    }

    pub fn duplicate(&self) -> (r: RegionCheckpoint)
        ensures
            r.state() == self.state(),
            r.last_version == self.last_version,
            r.compacted_actions == self.compacted_actions,
            r.checkpoint is Some <==> self.checkpoint is Some,
    {
        let checkpoint = match &self.checkpoint {
            Some(d) => Some(duplicate_data(d)),
            None => None,
        };
        RegionCheckpoint {
            protocol: self.protocol,
            last_version: self.last_version,
            compacted_actions: self.compacted_actions,
            checkpoint,
        }
    }
}

fn duplicate_data(d: &RegionManifestData) -> (r: RegionManifestData)
    ensures
        r.committed_sequence == d.committed_sequence,
        r.metadata@ == d.metadata@,
        version_view(r.version) == version_view(d.version),
{
    let version = match &d.version {
        Some(v) => Some(
            RegionVersion {
                manifest_version: v.manifest_version,
                flushed_sequence: v.flushed_sequence,
                files: v.files.clone(),
            },
        ),
        None => None,
    };
    RegionManifestData {
        committed_sequence: d.committed_sequence,
        metadata: d.metadata.duplicate(),
        version,
    }
}

/// The region state that `protocol` and folded data `d` hold.
pub open spec fn data_state(protocol: ProtocolAction, d: RegionManifestData) -> RegionState {
    RegionState {
        protocol,
        committed_sequence: d.committed_sequence,
        metadata: d.metadata@,
        version: version_view(d.version),
    }
}

/// Holds the version up to which a checkpoint may fold the log.
#[derive(Debug)]
pub struct RegionManifestCheckpointer {
    flushed_manifest_version: ManifestVersion,
}

impl RegionManifestCheckpointer {
    pub fn new() -> (r: RegionManifestCheckpointer)
        ensures
            r.flushed() == 0,
    {
        RegionManifestCheckpointer { flushed_manifest_version: 0 }
    }

    pub closed spec fn flushed(&self) -> u64 {
        self.flushed_manifest_version
    }

    pub fn flushed_manifest_version(&self) -> (r: ManifestVersion)
        ensures
            r == self.flushed(),
    {
        self.flushed_manifest_version
    }

    /// Records that versions up to `manifest_version` may be folded. The
    /// recorded version never goes back: a smaller one is ignored.
    pub fn set_flushed_manifest_version(&mut self, manifest_version: ManifestVersion)
        ensures
            final(self).flushed() == if manifest_version > old(self).flushed() {
                manifest_version
            } else {
                old(self).flushed()
            },
    {
        if manifest_version > self.flushed_manifest_version {
            self.flushed_manifest_version = manifest_version;
        }
    }

    /// The end (exclusive) of what a checkpoint may fold in a log whose next
    /// version is `next_version`: `min(next_version - 1, flushed) + 1`.
    pub open spec fn spec_fold_end(&self, next_version: u64) -> u64 {
        if (self.flushed() as int) < (next_version as int) {
            (self.flushed() + 1) as u64
        } else {
            next_version
        }
    }

    pub fn fold_end(&self, next_version: u64) -> (r: u64)
        ensures
            r == self.spec_fold_end(next_version),
    {
        if self.flushed_manifest_version < next_version {
            self.flushed_manifest_version + 1
        } else {
            next_version
        }
    }
}

/// One stored log object.
#[derive(Debug, PartialEq)]
pub struct LogEntry {
    pub version: ManifestVersion,
    pub actions: RegionMetaActionList,
}

/// The manifest of one region: the stored log objects, the stored
/// checkpoints, the version cursor and the checkpointer. Storage I/O is
/// left to the caller, which persists what these operations decide.
pub struct RegionManifest {
    manifest_dir: String,
    checkpoint_actions_margin: Option<u16>,
    gc_duration_ms: Option<u64>,
    logs: Vec<LogEntry>,
    checkpoints: Vec<RegionCheckpoint>,
    next_version: u64,
    checkpointer: RegionManifestCheckpointer,
    /// Every action list ever appended; the one at index `v` is version `v`.
    history: Ghost<Seq<Seq<ActionView>>>,
}

/// The state after replaying the lists `[0, n)` of a history.
pub open spec fn replay(h: Seq<Seq<ActionView>>, n: nat) -> RegionState {
    replay_range(initial_state(), h, 0, n)
}

/// Replaying a range reads only the lists inside it.
pub proof fn lemma_replay_reads_range(
    s: RegionState,
    h1: Seq<Seq<ActionView>>,
    h2: Seq<Seq<ActionView>>,
    from: nat,
    to: nat,
)
    requires
        forall|v: int| from <= v < to ==> h1[v] == h2[v],
    ensures
        replay_range(s, h1, from, to) == replay_range(s, h2, from, to),
    decreases to - from,
{
    if to > from {
        lemma_replay_reads_range(s, h1, h2, from, (to - 1) as nat);
    }
}

/// Whether a list in `[from, to)` of a history holds a region removal.
pub open spec fn removes_in(h: Seq<Seq<ActionView>>, from: nat, to: nat) -> bool {
    exists|v: int| from <= v < to && #[trigger] has_remove(h[v])
}

/// Replaying a history from a checkpoint that folds its first `k` lists
/// gives the state that replaying it from the first version gives.
pub proof fn lemma_replay_from_checkpoint(h: Seq<Seq<ActionView>>, k: nat, n: nat)
    requires
        k <= n,
    ensures
        replay_range(replay(h, k), h, k, n) == replay(h, n),
    decreases n - k,
{
    if k < n {
        lemma_replay_from_checkpoint(h, k, (n - 1) as nat);
    }
}

/// The list stored for an appended list at `version`: the first list of a
/// log carries the protocol at its head.
pub open spec fn stored_list(version: u64, actions: Seq<ActionView>) -> Seq<ActionView> {
    if version == MIN_VERSION {
        seq![ActionView::Protocol(ProtocolAction::spec_new())] + actions
    } else {
        actions
    }
}

impl RegionManifest {
    /// Every appended action list, by version.
    pub closed spec fn history(&self) -> Seq<Seq<ActionView>> {
        self.history@
    }

    pub closed spec fn spec_manifest_dir(&self) -> Seq<char> {
        self.manifest_dir@
    }

    /// The version that the next append receives.
    pub closed spec fn spec_next_version(&self) -> u64 {
        self.next_version
    }

    pub closed spec fn spec_flushed(&self) -> u64 {
        self.checkpointer.flushed()
    }

    /// The end (exclusive) of what the next checkpoint may fold:
    /// `min(last_version, flushed_manifest_version) + 1`.
    pub open spec fn fold_end(&self) -> u64 {
        if (self.spec_flushed() as int) < (self.spec_next_version() as int) {
            (self.spec_flushed() + 1) as u64
        } else {
            self.spec_next_version()
        }
    }

    /// The newest published checkpoint, if any.
    pub closed spec fn spec_last_checkpoint(&self) -> Option<RegionCheckpoint> {
        if self.checkpoints@.len() == 0 {
            None
        } else {
            Some(self.checkpoints@.last())
        }
    }

    /// The `last_version` of each stored checkpoint object, oldest first.
    pub closed spec fn stored_checkpoints(&self) -> Seq<u64> {
        self.checkpoints@.map_values(|c: RegionCheckpoint| c.last_version)
    }

    /// The first version that is not folded into the newest checkpoint.
    pub open spec fn low(&self) -> u64 {
        match self.spec_last_checkpoint() {
            Some(c) => (c.last_version + 1) as u64,
            None => MIN_VERSION,
        }
    }

    /// The versions of the stored log objects, in order.
    pub closed spec fn stored_versions(&self) -> Seq<u64> {
        self.logs@.map_values(|e: LogEntry| e.version)
    }

    pub closed spec fn wf(&self) -> bool {
        &&& self.history@.len() == self.next_version
        &&& self.low() <= self.next_version
        &&& self.logs@.len() == self.next_version - self.low()
        &&& forall|i: int|
            0 <= i < self.logs@.len() ==> {
                &&& (#[trigger] self.logs@[i]).version == self.low() + i
                &&& self.logs@[i].actions@ == self.history@[self.low() + i]
            }
        &&& forall|i: int, j: int|
            0 <= i < j < self.checkpoints@.len() ==> (#[trigger] self.checkpoints@[i]).last_version
                < (#[trigger] self.checkpoints@[j]).last_version
        &&& match self.spec_last_checkpoint() {
            Some(c) => {
                &&& c.last_version < self.next_version
                &&& c.checkpoint is Some
                &&& c.compacted_actions > 0
                &&& c.state() == replay(self.history@, (c.last_version + 1) as nat)
            },
            None => true,
        }
    }

    /// An empty manifest under `manifest_dir`.
    pub fn with_checkpointer(
        manifest_dir: &str,
        checkpoint_actions_margin: Option<u16>,
        gc_duration_ms: Option<u64>,
    ) -> (r: RegionManifest)
        ensures
            r.wf(),
            r.spec_manifest_dir() == manifest_dir@,
            r.history() == Seq::<Seq<ActionView>>::empty(),
            r.spec_next_version() == MIN_VERSION,
            r.spec_flushed() == 0,
            r.spec_last_checkpoint() is None,
            r.spec_gc_duration_ms() == gc_duration_ms,
            r.spec_checkpoint_actions_margin() == checkpoint_actions_margin,
    {
        RegionManifest {
            manifest_dir: String::from_str(manifest_dir),
            checkpoint_actions_margin,
            gc_duration_ms,
            logs: Vec::new(),
            checkpoints: Vec::new(),
            next_version: MIN_VERSION,
            checkpointer: RegionManifestCheckpointer::new(),
            history: Ghost(Seq::empty()),
        }
    }

    pub fn manifest_dir(&self) -> (r: &str)
        ensures
            r@ == self.spec_manifest_dir(),
    {
        self.manifest_dir.as_str()
    }

    pub closed spec fn spec_gc_duration_ms(&self) -> Option<u64> {
        self.gc_duration_ms
    }

    pub closed spec fn spec_checkpoint_actions_margin(&self) -> Option<u16> {
        self.checkpoint_actions_margin
    }

    /// How often old log and checkpoint objects are collected, if at all.
    pub fn gc_duration_ms(&self) -> (r: Option<u64>)
        ensures
            r == self.spec_gc_duration_ms(),
    {
        self.gc_duration_ms
    }

    /// How many actions may accumulate before a checkpoint, if set.
    pub fn checkpoint_actions_margin(&self) -> (r: Option<u16>)
        ensures
            r == self.spec_checkpoint_actions_margin(),
    {
        self.checkpoint_actions_margin
    }

    /// The highest version appended, or `None` on an empty log.
    pub fn last_version(&self) -> (r: Option<ManifestVersion>)
        ensures
            r == if self.spec_next_version() == 0 {
                None::<u64>
            } else {
                Some((self.spec_next_version() - 1) as u64)
            },
    {
        if self.next_version == 0 {
            None
        } else {
            Some(self.next_version - 1)
        }
    }

    /// The version that the next append receives.
    pub fn next_version(&self) -> (r: ManifestVersion)
        ensures
            r == self.spec_next_version(),
    {
        self.next_version
    }

    pub fn flushed_manifest_version(&self) -> (r: ManifestVersion)
        ensures
            r == self.spec_flushed(),
    {
        self.checkpointer.flushed_manifest_version()
    }

    /// Records that versions up to `manifest_version` may be folded into a
    /// checkpoint. The recorded version never decreases.
    pub fn set_flushed_manifest_version(&mut self, manifest_version: ManifestVersion)
        requires
            old(self).wf(),
        ensures
            final(self).wf(),
            final(self).spec_flushed() == if manifest_version > old(self).spec_flushed() {
                manifest_version
            } else {
                old(self).spec_flushed()
            },
            final(self).spec_flushed() >= old(self).spec_flushed(),
            final(self).history() == old(self).history(),
            final(self).spec_next_version() == old(self).spec_next_version(),
            final(self).spec_last_checkpoint() == old(self).spec_last_checkpoint(),
    {
        self.checkpointer.set_flushed_manifest_version(manifest_version);
    }

    /// Appends an action list and returns its version. The first list of a
    /// log gets the protocol at its head.
    pub fn update(&mut self, action_list: RegionMetaActionList) -> (r: Result<
        ManifestVersion,
        ManifestError,
    >)
        requires
            old(self).wf(),
        ensures
            final(self).wf(),
            final(self).spec_flushed() == old(self).spec_flushed(),
            final(self).spec_last_checkpoint() == old(self).spec_last_checkpoint(),
            r is Ok <==> old(self).spec_next_version() < MAX_VERSION,
            match r {
                Ok(v) => {
                    &&& v == old(self).spec_next_version()
                    &&& final(self).spec_next_version() == v + 1
                    &&& final(self).history() == old(self).history().push(
                        stored_list(v, action_list@),
                    )
                },
                Err(e) => {
                    &&& e == ManifestError::VersionExhausted
                    &&& final(self).history() == old(self).history()
                    &&& final(self).spec_next_version() == old(self).spec_next_version()
                },
            },
    {
        if self.next_version == MAX_VERSION {
            return Err(ManifestError::VersionExhausted);
        }
        let version = self.next_version;
        let ghost given = action_list@;
        let mut list = action_list;
        if version == MIN_VERSION {
            list.actions.insert(0, RegionMetaAction::Protocol(ProtocolAction::new()));
            assert(list@ =~= stored_list(version, given));
        }
        list.prev_version = if version == 0 {
            0
        } else {
            version - 1
        };
        let ghost stored = list@;
        self.logs.push(LogEntry { version, actions: list });
        self.next_version = version + 1;
        self.history = Ghost(self.history@.push(stored));
        assert(self.spec_last_checkpoint() == old(self).spec_last_checkpoint());
        proof {
            if let Some(c) = self.spec_last_checkpoint() {
                lemma_replay_reads_range(
                    initial_state(),
                    self.history@,
                    old(self).history@,
                    0,
                    (c.last_version + 1) as nat,
                );
            }
            assert forall|i: int| 0 <= i < self.logs@.len() implies {
                &&& (#[trigger] self.logs@[i]).version == self.low() + i
                &&& self.logs@[i].actions@ == self.history@[self.low() + i]
            } by {
                if i < old(self).logs@.len() {
                    assert(self.logs@[i] == old(self).logs@[i]);
                }
            }
        }
        Ok(version)
    }

    /// The stored lists with versions in `[from, to)`, ascending. Versions
    /// folded into the newest checkpoint are no longer stored.
    pub fn scan(&self, from: ManifestVersion, to: ManifestVersion) -> (r: Vec<
        (ManifestVersion, RegionMetaActionList),
    >)
        requires
            self.wf(),
        ensures
            ({
                let lo = if from > self.low() {
                    from
                } else {
                    self.low()
                };
                let hi = if to < self.spec_next_version() {
                    to
                } else {
                    self.spec_next_version()
                };
                &&& r@.len() == if lo < hi {
                    hi - lo
                } else {
                    0
                }
                &&& forall|i: int|
                    0 <= i < r@.len() ==> {
                        &&& (#[trigger] r@[i]).0 == lo + i
                        &&& r@[i].1@ == self.history()[lo + i]
                    }
            }),
    {
        let low = self.logs_low();
        let lo = if from > low {
            from
        } else {
            low
        };
        let hi = if to < self.next_version {
            to
        } else {
            self.next_version
        };
        let mut out: Vec<(ManifestVersion, RegionMetaActionList)> = Vec::new();
        if lo < hi {
            let mut v = lo;
            while v < hi
                invariant
                    self.wf(),
                    low == self.low(),
                    lo <= v <= hi <= self.spec_next_version(),
                    low <= lo,
                    out@.len() == v - lo,
                    forall|i: int|
                        0 <= i < out@.len() ==> {
                            &&& (#[trigger] out@[i]).0 == lo + i
                            &&& out@[i].1@ == self.history()[lo + i]
                        },
                decreases hi - v,
            {
                let n = self.logs.len();
                assert(v - low < n);
                let idx = (v - low) as usize;
                let entry = &self.logs[idx];
                assert(self.logs@[idx as int].version == self.low() + idx);
                assert(entry.actions@ == self.history()[v as int]);
                let copy = entry.actions.duplicate();
                let ghost prev = out@;
                out.push((entry.version, copy));
                assert(out@[prev.len() as int].1@ == self.history()[lo + prev.len()]);
                v = v + 1;
            }
        }
        out
    }

    fn logs_low(&self) -> (r: u64)
        requires
            self.wf(),
        ensures
            r == self.low(),
    {
        let n = self.checkpoints.len();
        if n == 0 {
            MIN_VERSION
        } else {
            self.checkpoints[n - 1].last_version + 1
        }
    }

    /// A copy of the newest published checkpoint.
    pub fn last_checkpoint(&self) -> (r: Option<RegionCheckpoint>)
        requires
            self.wf(),
        ensures
            match (r, self.spec_last_checkpoint()) {
                (Some(a), Some(b)) => a.state() == b.state() && a.last_version == b.last_version
                    && a.compacted_actions == b.compacted_actions,
                (None, None) => true,
                _ => false,
            },
    {
        let n = self.checkpoints.len();
        if n == 0 {
            None
        } else {
            Some(self.checkpoints[n - 1].duplicate())
        }
    }

    /// The number of checkpoint objects still stored.
    pub fn stored_checkpoint_count(&self) -> (r: usize)
        ensures
            r == self.stored_checkpoints().len(),
    {
        self.checkpoints.len()
    }

    /// Whether a checkpoint object with `last_version` is still stored.
    pub fn has_stored_checkpoint(&self, last_version: ManifestVersion) -> (r: bool)
        ensures
            r == self.stored_checkpoints().contains(last_version),
    {
        let mut i: usize = 0;
        while i < self.checkpoints.len()
            invariant
                i <= self.checkpoints@.len(),
                forall|k: int| 0 <= k < i ==> #[trigger] self.checkpoints@[k].last_version != last_version,
            decreases self.checkpoints@.len() - i,
        {
            if self.checkpoints[i].last_version == last_version {
                assert(self.stored_checkpoints()[i as int] == last_version);
                return true;
            }
            i = i + 1;
        }
        assert(!self.stored_checkpoints().contains(last_version)) by {
            if self.stored_checkpoints().contains(last_version) {
                let k = choose|k: int| 0 <= k < self.stored_checkpoints().len() && self.stored_checkpoints()[k] == last_version;
                assert(self.checkpoints@[k].last_version == last_version);
            }
        }
        false
    }

    /// Every stored log object has a version in `[low, next_version)`, and
    /// each of those versions is stored.
    pub proof fn lemma_stored_versions(&self)
        requires
            self.wf(),
        ensures
            self.stored_versions().len() == self.spec_next_version() - self.low(),
            forall|i: int|
                0 <= i < self.stored_versions().len() ==> #[trigger] self.stored_versions()[i]
                    == self.low() + i,
    {
        assert forall|i: int| 0 <= i < self.stored_versions().len() implies #[trigger] self.stored_versions()[i]
            == self.low() + i by {
            assert(self.logs@[i].version == self.low() + i);
        }
    }

    /// Folds the stored lists of versions `[low, end)` onto the newest
    /// checkpoint.
    fn fold_until(&self, end: u64) -> (r: Result<
        (ProtocolAction, RegionManifestDataBuilder),
        (),
    >)
        requires
            self.wf(),
            self.low() <= end <= self.spec_next_version(),
        ensures
            match r {
                Ok((p, b)) => b.state(p) == replay(self.history(), end as nat),
                Err(_) => removes_in(self.history(), self.low() as nat, end as nat),
            },
            r is Err <==> removes_in(self.history(), self.low() as nat, end as nat),
    {
        let low = self.logs_low();
        let n = self.checkpoints.len();
        let (mut protocol, mut builder) = if n == 0 {
            (ProtocolAction::new(), RegionManifestDataBuilder::with_checkpoint(None))
        } else {
            let c = &self.checkpoints[n - 1];
            let data = match &c.checkpoint {
                Some(d) => Some(duplicate_data(d)),
                None => None,
            };
            (c.protocol, RegionManifestDataBuilder::with_checkpoint(data))
        };
        let mut v = low;
        while v < end
            invariant
                self.wf(),
                low == self.low(),
                low <= v <= end <= self.spec_next_version(),
                builder.state(protocol) == replay(self.history(), v as nat),
                !removes_in(self.history(), low as nat, v as nat),
            decreases end - v,
        {
            let len = self.logs.len();
            assert(v - low < len);
            let idx = (v - low) as usize;
            let list = &self.logs[idx].actions;
            assert(list@ == self.history()[v as int]);
            let ghost s0 = builder.state(protocol);
            let mut j: usize = 0;
            while j < list.actions.len()
                invariant
                    self.wf(),
                    low == self.low(),
                    low <= v < end <= self.spec_next_version(),
                    list@ == self.history()[v as int],
                    !removes_in(self.history(), low as nat, v as nat),
                    j <= list@.len(),
                    list@.len() == list.actions@.len(),
                    builder.state(protocol) == apply_list(s0, v, list@.subrange(0, j as int)),
                    forall|k: int| 0 <= k < j ==> !(#[trigger] list@[k] is Remove),
                decreases list.actions@.len() - j,
            {
                assert(list@.subrange(0, j + 1).drop_last() =~= list@.subrange(0, j as int));
                assert(list@[j as int] == list.actions@[j as int]@);
                match &list.actions[j] {
                    RegionMetaAction::Change(c) => builder.apply_change(c),
                    RegionMetaAction::Edit(e) => builder.apply_edit(v, e),
                    RegionMetaAction::Protocol(p) => {
                        protocol = *p;
                    },
                    RegionMetaAction::Remove(_) => {
                        assert(list@[j as int] is Remove);
                        assert(has_remove(self.history()[v as int]));
                        assert(removes_in(self.history(), low as nat, end as nat));
                        return Err(());
                    },
                }
                j = j + 1;
            }
            assert(list@.subrange(0, j as int) =~= list@);
            assert(!has_remove(self.history()[v as int]));
            assert(!removes_in(self.history(), low as nat, (v + 1) as nat)) by {
                if removes_in(self.history(), low as nat, (v + 1) as nat) {
                    let w = choose|w: int| low <= w < v + 1 && #[trigger] has_remove(self.history()[w]);
                    if w < v {
                        assert(removes_in(self.history(), low as nat, v as nat));
                    }
                }
            }
            v = v + 1;
        }
        Ok((protocol, builder))
    }

    /// Folds the stored lists that the checkpointer allows into a new
    /// checkpoint, publishes it and deletes the folded log objects.
    /// Returns `None` where there is nothing to fold.
    pub fn do_checkpoint(&mut self) -> (r: Result<Option<RegionCheckpoint>, ManifestError>)
        requires
            old(self).wf(),
        ensures
            final(self).wf(),
            final(self).history() == old(self).history(),
            final(self).spec_next_version() == old(self).spec_next_version(),
            final(self).spec_flushed() == old(self).spec_flushed(),
            ({
                let start = old(self).low();
                let end = old(self).fold_end();
                &&& r is Err <==> start < end && removes_in(old(self).history(), start as nat, end as nat)
                &&& (r matches Ok(None)) <==> start >= end
                &&& match r {
                    Ok(Some(c)) => {
                        &&& c.last_version == end - 1
                        &&& c.compacted_actions == end - start
                        &&& c.last_version + 1 == start + c.compacted_actions
                        &&& c.checkpoint is Some
                        &&& c.state() == replay(old(self).history(), end as nat)
                        &&& final(self).spec_last_checkpoint() matches Some(l) && l.last_version
                            == c.last_version && l.compacted_actions == c.compacted_actions
                            && l.state() == c.state()
                        &&& final(self).low() == end
                    },
                    Ok(None) => final(self).spec_last_checkpoint() == old(self).spec_last_checkpoint(),
                    Err(e) => {
                        &&& e == ManifestError::ManifestCheckpoint
                        &&& final(self).spec_last_checkpoint() == old(self).spec_last_checkpoint()
                    },
                }
            }),
    {
        let start = self.logs_low();
        let end = self.checkpointer.fold_end(self.next_version);
        if start >= end {
            return Ok(None);
        }
        let (protocol, builder) = match self.fold_until(end) {
            Ok(x) => x,
            Err(_) => {
                return Err(ManifestError::ManifestCheckpoint);
            },
        };
        let len = self.logs.len();
        assert(end - start <= len);
        let compacted_actions = (end - start) as usize;
        let checkpoint = RegionCheckpoint {
            protocol,
            last_version: end - 1,
            compacted_actions,
            checkpoint: Some(builder.build()),
        };
        let published = checkpoint.duplicate();
        let ghost old_ckpts = self.checkpoints@;
        self.checkpoints.push(published);
        let rest = self.logs.split_off(compacted_actions);
        self.logs = rest;
        proof {
            assert(self.spec_last_checkpoint() == Some(self.checkpoints@.last()));
            assert forall|i: int, j: int|
                0 <= i < j < self.checkpoints@.len() implies (#[trigger] self.checkpoints@[i]).last_version
                < (#[trigger] self.checkpoints@[j]).last_version by {
                if j < old_ckpts.len() {
                    assert(self.checkpoints@[i] == old_ckpts[i]);
                    assert(self.checkpoints@[j] == old_ckpts[j]);
                } else if i < old_ckpts.len() - 1 {
                    assert(old_ckpts[i].last_version < old_ckpts[old_ckpts.len() - 1].last_version);
                }
            }
            assert forall|i: int| 0 <= i < self.logs@.len() implies {
                &&& (#[trigger] self.logs@[i]).version == self.low() + i
                &&& self.logs@[i].actions@ == self.history@[self.low() + i]
            } by {
                assert(self.logs@[i] == old(self).logs@[i + compacted_actions]);
            }
        }
        Ok(Some(checkpoint))
    }

    /// Rebuilds the region's state: the newest checkpoint, then every stored
    /// list after it. A region removal in the log is refused.
    pub fn recover(&self) -> (r: Result<(ProtocolAction, RegionManifestData), ManifestError>)
        requires
            self.wf(),
        ensures
            r is Err <==> removes_in(
                self.history(),
                self.low() as nat,
                self.spec_next_version() as nat,
            ),
            match r {
                Ok((p, d)) => data_state(p, d) == replay(
                    self.history(),
                    self.history().len(),
                ),
                Err(e) => e == ManifestError::RemoveNotSupported,
            },
    {
        match self.fold_until(self.next_version) {
            Ok((protocol, builder)) => Ok((protocol, builder.build())),
            Err(_) => Err(ManifestError::RemoveNotSupported),
        }
    }

    /// Replaying the stored lists after the newest checkpoint, starting
    /// from the checkpoint's state, gives the state that replaying every
    /// appended list from the first version gives.
    pub proof fn lemma_checkpoint_replay(&self)
        requires
            self.wf(),
        ensures
            match self.spec_last_checkpoint() {
                Some(c) => replay_range(
                    c.state(),
                    self.history(),
                    (c.last_version + 1) as nat,
                    self.history().len(),
                ) == replay(self.history(), self.history().len()),
                None => self.low() == MIN_VERSION,
            },
    {
        if let Some(c) = self.spec_last_checkpoint() {
            lemma_replay_from_checkpoint(
                self.history(),
                (c.last_version + 1) as nat,
                self.history().len(),
            );
        }
    }

    /// Removes the checkpoint objects older than the newest one.
    pub fn gc(&mut self)
        requires
            old(self).wf(),
        ensures
            final(self).wf(),
            final(self).history() == old(self).history(),
            final(self).spec_next_version() == old(self).spec_next_version(),
            final(self).spec_flushed() == old(self).spec_flushed(),
            final(self).spec_last_checkpoint() == old(self).spec_last_checkpoint(),
            final(self).stored_checkpoints().len() <= 1,
    {
        let n = self.checkpoints.len();
        if n > 1 {
            let kept = self.checkpoints.split_off(n - 1);
            self.checkpoints = kept;
            assert(self.checkpoints@.last() == old(self).checkpoints@.last());
        }
    }
}

} // verus!
