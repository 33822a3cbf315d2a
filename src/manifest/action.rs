//! Actions recorded in a region's manifest log, the folded region state they
//! produce, and the builder that folds them.

use std::collections::HashMap;
use vstd::prelude::*;
use vstd::string::*;

verus! {

broadcast use vstd::std_specs::hash::group_hash_axioms;

/// Version of one action list in a manifest log.
pub type ManifestVersion = u64;

/// Sequence number of the write path.
pub type SequenceNumber = u64;

/// The first version a manifest log hands out.
pub const MIN_VERSION: u64 = 0;

/// The largest version; `scan(from, MAX_VERSION)` reads to the end of a log.
pub const MAX_VERSION: u64 = 0xffff_ffff_ffff_ffff;

/// Reader version this library understands.
pub const READER_VERSION: u32 = 0;

/// Writer version this library writes.
pub const WRITER_VERSION: u32 = 0;

/// The minimum reader and writer protocol versions of a log.
#[derive(Clone, Copy, Debug, PartialEq, Eq, Structural)]
pub struct ProtocolAction {
    pub min_reader_version: u32,
    pub min_writer_version: u32,
}

impl ProtocolAction {
    pub open spec fn spec_new() -> ProtocolAction {
        ProtocolAction { min_reader_version: READER_VERSION, min_writer_version: WRITER_VERSION }
    }

    /// The protocol this library reads and writes.
    pub fn new() -> (r: ProtocolAction)
        ensures
            r == ProtocolAction::spec_new(),
    {
        ProtocolAction { min_reader_version: READER_VERSION, min_writer_version: WRITER_VERSION }
    }
}

/// What a region's metadata holds, as values.
pub struct MetadataView {
    pub id: u64,
    pub name: Seq<char>,
    pub version: u32,
}

/// The persisted form of a region's metadata.
#[derive(Debug, PartialEq)]
pub struct RawRegionMetadata {
    pub id: u64,
    pub name: String,
    pub version: u32,
}

impl View for RawRegionMetadata {
    type V = MetadataView;

    open spec fn view(&self) -> MetadataView {
        MetadataView { id: self.id, name: self.name@, version: self.version }
    }
}

pub open spec fn empty_metadata() -> MetadataView {
    MetadataView { id: 0, name: Seq::empty(), version: 0 }
}

impl RawRegionMetadata {
    /// Metadata of a region that has none yet.
    pub fn empty() -> (r: RawRegionMetadata)
        ensures
            r@ == empty_metadata(),
    {
        RawRegionMetadata { id: 0, name: String::new(), version: 0 }
    }

    pub fn duplicate(&self) -> (r: RawRegionMetadata)
        ensures
            r@ == self@,
    {
        RawRegionMetadata { id: self.id, name: self.name.clone(), version: self.version }
    }
}

/// One data file of a region.
#[derive(Clone, Copy, Debug, PartialEq, Eq, Structural)]
pub struct FileMeta {
    pub region_id: u64,
    pub file_id: u128,
    pub level: u8,
    pub file_size: u64,
}

/// Replace the region's metadata.
#[derive(Debug, PartialEq)]
pub struct RegionChange {
    pub metadata: RawRegionMetadata,
    pub committed_sequence: SequenceNumber,
}

/// Change the region's file set.
#[derive(Debug, PartialEq)]
pub struct RegionEdit {
    pub region_version: u32,
    pub flushed_sequence: Option<SequenceNumber>,
    pub files_to_add: Vec<FileMeta>,
    pub files_to_remove: Vec<FileMeta>,
}

/// Drop the region.
#[derive(Clone, Copy, Debug, PartialEq, Eq, Structural)]
pub struct RegionRemove {
    pub region_id: u64,
}

/// One entry of an action list.
#[derive(Debug, PartialEq)]
pub enum RegionMetaAction {
    Protocol(ProtocolAction),
    Change(RegionChange),
    Remove(RegionRemove),
    Edit(RegionEdit),
}

/// What an action says, as values.
pub enum ActionView {
    Protocol(ProtocolAction),
    Change { metadata: MetadataView, committed_sequence: u64 },
    Remove(RegionRemove),
    Edit {
        flushed_sequence: Option<u64>,
        files_to_add: Seq<FileMeta>,
        files_to_remove: Seq<FileMeta>,
    },
}

impl View for RegionMetaAction {
    type V = ActionView;

    open spec fn view(&self) -> ActionView {
        match self {
            RegionMetaAction::Protocol(p) => ActionView::Protocol(*p),
            RegionMetaAction::Change(c) => ActionView::Change {
                metadata: c.metadata@,
                committed_sequence: c.committed_sequence,
            },
            RegionMetaAction::Remove(r) => ActionView::Remove(*r),
            RegionMetaAction::Edit(e) => ActionView::Edit {
                flushed_sequence: e.flushed_sequence,
                files_to_add: e.files_to_add@,
                files_to_remove: e.files_to_remove@,
            },
        }
    }
}

fn copy_files(files: &Vec<FileMeta>) -> (r: Vec<FileMeta>)
    ensures
        r@ == files@,
{
    let mut out: Vec<FileMeta> = Vec::new();
    let mut i: usize = 0;
    while i < files.len()
        invariant
            i <= files@.len(),
            out@ == files@.subrange(0, i as int),
        decreases files@.len() - i,
    {
        out.push(files[i]);
        i = i + 1;
    }
    out
}

impl RegionMetaAction {
    pub fn duplicate(&self) -> (r: RegionMetaAction)
        ensures
            r@ == self@,
    {
        match self {
            RegionMetaAction::Protocol(p) => RegionMetaAction::Protocol(*p),
            RegionMetaAction::Change(c) => RegionMetaAction::Change(
                RegionChange {
                    metadata: c.metadata.duplicate(),
                    committed_sequence: c.committed_sequence,
                },
            ),
            RegionMetaAction::Remove(r) => RegionMetaAction::Remove(*r),
            RegionMetaAction::Edit(e) => RegionMetaAction::Edit(
                RegionEdit {
                    region_version: e.region_version,
                    flushed_sequence: e.flushed_sequence,
                    files_to_add: copy_files(&e.files_to_add),
                    files_to_remove: copy_files(&e.files_to_remove),
                },
            ),
        }
    }
}

/// The unit appended to a region's manifest log.
#[derive(Debug, PartialEq)]
pub struct RegionMetaActionList {
    pub actions: Vec<RegionMetaAction>,
    pub prev_version: ManifestVersion,
}

impl View for RegionMetaActionList {
    type V = Seq<ActionView>;

    open spec fn view(&self) -> Seq<ActionView> {
        self.actions@.map_values(|a: RegionMetaAction| a@)
    }
}

impl RegionMetaActionList {
    /// A list of one action.
    pub fn with_action(action: RegionMetaAction) -> (r: RegionMetaActionList)
        ensures
            r@ == seq![action@],
    {
        let ghost a = action@;
        let mut actions: Vec<RegionMetaAction> = Vec::new();
        actions.push(action);
        let r = RegionMetaActionList { actions, prev_version: 0 };
        assert(r@ =~= seq![a]);
        r
    }

    /// A list of the given actions, in order.
    pub fn new(actions: Vec<RegionMetaAction>) -> (r: RegionMetaActionList)
        ensures
            r.actions@ == actions@,
            r@ == actions@.map_values(|a: RegionMetaAction| a@),
    {
        RegionMetaActionList { actions, prev_version: 0 }
    }

    pub fn len(&self) -> (r: usize)
        ensures
            r == self@.len(),
    {
        self.actions.len()
    }

    pub fn duplicate(&self) -> (r: RegionMetaActionList)
        ensures
            r@ == self@,
            r.prev_version == self.prev_version,
    {
        let mut actions: Vec<RegionMetaAction> = Vec::new();
        let mut i: usize = 0;
        while i < self.actions.len()
            invariant
                i <= self.actions@.len(),
                actions@.len() == i,
                forall|k: int| 0 <= k < i ==> (#[trigger] actions@[k])@ == self.actions@[k]@,
            decreases self.actions@.len() - i,
        {
            let a = self.actions[i].duplicate();
            actions.push(a);
            i = i + 1;
        }
        let r = RegionMetaActionList { actions, prev_version: self.prev_version };
        assert(r@ =~= self@);
        r
    }
}

/// What a region's file set holds, as values.
pub struct VersionView {
    pub manifest_version: u64,
    pub flushed_sequence: Option<u64>,
    pub files: Map<u128, FileMeta>,
}

/// The file set of a region at some manifest version.
#[derive(Debug, PartialEq)]
pub struct RegionVersion {
    pub manifest_version: ManifestVersion,
    pub flushed_sequence: Option<SequenceNumber>,
    pub files: HashMap<u128, FileMeta>,
}

impl View for RegionVersion {
    type V = VersionView;

    open spec fn view(&self) -> VersionView {
        VersionView {
            manifest_version: self.manifest_version,
            flushed_sequence: self.flushed_sequence,
            files: self.files@,
        }
    }
}

impl RegionVersion {
    pub fn file_count(&self) -> (r: usize)
        ensures
            r == self.files@.len(),
    {
        self.files.len()
    }

    pub fn contains_file(&self, file_id: u128) -> (r: bool)
        ensures
            r == self.files@.contains_key(file_id),
    {
        self.files.contains_key(&file_id)
    }
}

/// The state of a region that a prefix of its log folds to.
pub struct RegionState {
    pub protocol: ProtocolAction,
    pub committed_sequence: u64,
    pub metadata: MetadataView,
    pub version: Option<VersionView>,
}

/// The folded metadata of a region.
#[derive(Debug, PartialEq)]
pub struct RegionManifestData {
    pub committed_sequence: SequenceNumber,
    pub metadata: RawRegionMetadata,
    pub version: Option<RegionVersion>,
}

pub open spec fn version_view(v: Option<RegionVersion>) -> Option<VersionView> {
    match v {
        Some(x) => Some(x@),
        None => None,
    }
}

/// The state before any action.
pub open spec fn initial_state() -> RegionState {
    RegionState {
        protocol: ProtocolAction::spec_new(),
        committed_sequence: 0,
        metadata: empty_metadata(),
        version: None,
    }
}

/// The file map after inserting `files` in order (a later entry for an id wins).
pub open spec fn add_files(m: Map<u128, FileMeta>, files: Seq<FileMeta>) -> Map<u128, FileMeta>
    decreases files.len(),
{
    if files.len() == 0 {
        m
    } else {
        add_files(m, files.drop_last()).insert(files.last().file_id, files.last())
    }
}

/// The file map after removing the ids of `files`.
pub open spec fn remove_files(m: Map<u128, FileMeta>, files: Seq<FileMeta>) -> Map<
    u128,
    FileMeta,
>
    decreases files.len(),
{
    if files.len() == 0 {
        m
    } else {
        remove_files(m, files.drop_last()).remove(files.last().file_id)
    }
}

/// An edit applied at `version`. The first edit of a region starts its file
/// set from the added files alone.
pub open spec fn edit_version(
    old: Option<VersionView>,
    version: u64,
    flushed_sequence: Option<u64>,
    added: Seq<FileMeta>,
    removed: Seq<FileMeta>,
) -> VersionView {
    match old {
        Some(v) => VersionView {
            manifest_version: version,
            flushed_sequence,
            files: remove_files(add_files(v.files, added), removed),
        },
        None => VersionView {
            manifest_version: version,
            flushed_sequence,
            files: add_files(Map::empty(), added),
        },
    }
}

/// The state after one action of the list at `version`. A removal leaves the
/// state as it is; replaying a log refuses it.
pub open spec fn apply_action(s: RegionState, version: u64, a: ActionView) -> RegionState {
    match a {
        ActionView::Protocol(p) => RegionState { protocol: p, ..s },
        ActionView::Change { metadata, committed_sequence } => RegionState {
            metadata,
            committed_sequence,
            ..s
        },
        ActionView::Remove(_) => s,
        ActionView::Edit { flushed_sequence, files_to_add, files_to_remove } => RegionState {
            version: Some(
                edit_version(s.version, version, flushed_sequence, files_to_add, files_to_remove),
            ),
            ..s
        },
    }
}

/// The state after all actions of one list, in order.
pub open spec fn apply_list(s: RegionState, version: u64, actions: Seq<ActionView>) -> RegionState
    decreases actions.len(),
{
    if actions.len() == 0 {
        s
    } else {
        apply_action(apply_list(s, version, actions.drop_last()), version, actions.last())
    }
}

/// The state after the lists `lists[from..to]`, the list at index `i` being
/// version `i`.
pub open spec fn replay_range(
    s: RegionState,
    lists: Seq<Seq<ActionView>>,
    from: nat,
    to: nat,
) -> RegionState
    decreases to - from,
{
    if to <= from {
        s
    } else {
        apply_list(replay_range(s, lists, from, (to - 1) as nat), (to - 1) as u64, lists[to - 1])
    }
}

/// Whether a list holds a removal.
pub open spec fn has_remove(actions: Seq<ActionView>) -> bool {
    exists|i: int| 0 <= i < actions.len() && actions[i] is Remove
}

/// Folds actions into the state of a region.
pub struct RegionManifestDataBuilder {
    pub metadata: RawRegionMetadata,
    pub version: Option<RegionVersion>,
    pub committed_sequence: SequenceNumber,
}

impl RegionManifestDataBuilder {
    pub open spec fn state(&self, protocol: ProtocolAction) -> RegionState {
        RegionState {
            protocol,
            committed_sequence: self.committed_sequence,
            metadata: self.metadata@,
            version: version_view(self.version),
        }
    }

    /// A builder that starts from `checkpoint`, or from nothing.
    pub fn with_checkpoint(checkpoint: Option<RegionManifestData>) -> (r: RegionManifestDataBuilder)
        ensures
            match checkpoint {
                Some(c) => r.committed_sequence == c.committed_sequence && r.metadata@
                    == c.metadata@ && version_view(r.version) == version_view(c.version),
                None => r.committed_sequence == 0 && r.metadata@ == empty_metadata()
                    && r.version is None,
            },
    {
        match checkpoint {
            Some(c) => RegionManifestDataBuilder {
                metadata: c.metadata,
                version: c.version,
                committed_sequence: c.committed_sequence,
            },
            None => RegionManifestDataBuilder {
                metadata: RawRegionMetadata::empty(),
                version: None,
                committed_sequence: 0,
            },
        }
    }

    pub fn apply_change(&mut self, change: &RegionChange)
        ensures
            final(self).metadata@ == change.metadata@,
            final(self).committed_sequence == change.committed_sequence,
            version_view(final(self).version) == version_view(old(self).version),
    {
        self.metadata = change.metadata.duplicate();
        self.committed_sequence = change.committed_sequence;
    }

    pub fn apply_edit(&mut self, manifest_version: ManifestVersion, edit: &RegionEdit)
        ensures
            final(self).metadata@ == old(self).metadata@,
            final(self).committed_sequence == old(self).committed_sequence,
            version_view(final(self).version) == Some(
                edit_version(
                    version_view(old(self).version),
                    manifest_version,
                    edit.flushed_sequence,
                    edit.files_to_add@,
                    edit.files_to_remove@,
                ),
            ),
    {
        let (removing, mut files) = match self.version.take() {
            Some(v) => (true, v.files),
            None => (false, HashMap::new()),
        };
        let ghost start = files@;
        let mut i: usize = 0;
        while i < edit.files_to_add.len()
            invariant
                i <= edit.files_to_add@.len(),
                files@ == add_files(start, edit.files_to_add@.subrange(0, i as int)),
            decreases edit.files_to_add@.len() - i,
        {
            let f = edit.files_to_add[i];
            files.insert(f.file_id, f);
            assert(edit.files_to_add@.subrange(0, i + 1).drop_last() =~= edit.files_to_add@.subrange(0, i as int));
            i = i + 1;
        }
        assert(edit.files_to_add@.subrange(0, i as int) =~= edit.files_to_add@);
        let ghost added = files@;
        let mut j: usize = 0;
        if removing {
            while j < edit.files_to_remove.len()
                invariant
                    j <= edit.files_to_remove@.len(),
                    files@ == remove_files(added, edit.files_to_remove@.subrange(0, j as int)),
                decreases edit.files_to_remove@.len() - j,
            {
                let f = edit.files_to_remove[j];
                files.remove(&f.file_id);
                assert(edit.files_to_remove@.subrange(0, j + 1).drop_last() =~= edit.files_to_remove@.subrange(0, j as int));
                j = j + 1;
            }
            assert(edit.files_to_remove@.subrange(0, j as int) =~= edit.files_to_remove@);
        }
        self.version = Some(
            RegionVersion { manifest_version, flushed_sequence: edit.flushed_sequence, files },
        );
    }

    pub fn build(self) -> (r: RegionManifestData)
        ensures
            r.committed_sequence == self.committed_sequence,
            r.metadata@ == self.metadata@,
            version_view(r.version) == version_view(self.version),
    {
        RegionManifestData {
            committed_sequence: self.committed_sequence,
            metadata: self.metadata,
            version: self.version,
        }
    }
}

} // verus!
