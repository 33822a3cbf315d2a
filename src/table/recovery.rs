//! Decisions of a table over its manifest and its regions: which table
//! info its log leaves, which regions an alteration still has to reach,
//! and whether its regions can be scanned together.

use crate::manifest::action::ProtocolAction;
use vstd::prelude::*;

verus! {

/// The persisted form of a table's info.
#[derive(Debug, PartialEq)]
pub struct RawTableInfo {
    pub table_id: u32,
    pub version: u64,
    pub name: String,
}

pub struct TableInfoView {
    pub table_id: u32,
    pub version: u64,
    pub name: Seq<char>,
}

impl View for RawTableInfo {
    type V = TableInfoView;

    open spec fn view(&self) -> TableInfoView {
        TableInfoView { table_id: self.table_id, version: self.version, name: self.name@ }
    }
}

/// One entry of a table's action list.
#[derive(Debug, PartialEq)]
pub enum TableMetaAction {
    Protocol(ProtocolAction),
    Change(RawTableInfo),
    Remove,
}

/// The unit appended to a table's manifest log.
#[derive(Debug, PartialEq)]
pub struct TableMetaActionList {
    pub actions: Vec<TableMetaAction>,
}

/// Why a table's log could not be replayed.
#[derive(Clone, Copy, Debug, PartialEq, Eq, Structural)]
pub enum TableRecoveryError {
    /// The log drops the table, whose replay is not defined.
    RemoveNotSupported,
}

/// The info of the last change among `actions`, else `init`.
pub open spec fn last_change(actions: Seq<TableMetaAction>, init: Option<TableInfoView>) -> Option<
    TableInfoView,
>
    decreases actions.len(),
{
    if actions.len() == 0 {
        init
    } else {
        match actions.last() {
            TableMetaAction::Change(info) => Some(info@),
            _ => last_change(actions.drop_last(), init),
        }
    }
}

/// The protocol of the last protocol action among `actions`, else `init`.
pub open spec fn last_protocol_in(actions: Seq<TableMetaAction>, init: Option<ProtocolAction>) -> Option<
    ProtocolAction,
>
    decreases actions.len(),
{
    if actions.len() == 0 {
        init
    } else {
        match actions.last() {
            TableMetaAction::Protocol(p) => Some(p),
            _ => last_protocol_in(actions.drop_last(), init),
        }
    }
}

/// The protocol that the lists `[0, n)` leave.
pub open spec fn replay_protocol(lists: Seq<(u64, TableMetaActionList)>, n: nat) -> Option<ProtocolAction>
    decreases n,
{
    if n == 0 {
        None
    } else {
        last_protocol_in(lists[n - 1].1.actions@, replay_protocol(lists, (n - 1) as nat))
    }
}

/// The info that the lists `[0, n)` leave.
pub open spec fn replay_table(lists: Seq<(u64, TableMetaActionList)>, n: nat) -> Option<TableInfoView>
    decreases n,
{
    if n == 0 {
        None
    } else {
        last_change(lists[n - 1].1.actions@, replay_table(lists, (n - 1) as nat))
    }
}

pub open spec fn info_view(info: Option<RawTableInfo>) -> Option<TableInfoView> {
    match info {
        Some(i) => Some(i@),
        None => None,
    }
}

pub open spec fn list_removes(l: TableMetaActionList) -> bool {
    exists|i: int| 0 <= i < l.actions@.len() && #[trigger] l.actions@[i] is Remove
}

fn copy_info(info: &RawTableInfo) -> (r: RawTableInfo)
    ensures
        r@ == info@,
{
    RawTableInfo { table_id: info.table_id, version: info.version, name: info.name.clone() }
}

/// Replays a table's scanned log: the info of its last change, the
/// version of its last list, and its last protocol action. A table removal
/// is refused.
pub fn recover_table_info(lists: &Vec<(u64, TableMetaActionList)>) -> (r: Result<
    (Option<RawTableInfo>, u64, Option<ProtocolAction>),
    TableRecoveryError,
>)
    ensures
        r is Err <==> exists|k: int| 0 <= k < lists@.len() && #[trigger] list_removes(lists@[k].1),
        match r {
            Ok((info, last, protocol)) => {
                &&& protocol == replay_protocol(lists@, lists@.len())
                &&& info_view(info) == replay_table(lists@, lists@.len())
                &&& last == if lists@.len() == 0 {
                    0
                } else {
                    lists@.last().0
                }
            },
            Err(e) => e == TableRecoveryError::RemoveNotSupported,
        },
{
    let mut info: Option<RawTableInfo> = None;
    let mut protocol: Option<ProtocolAction> = None;
    let mut last: u64 = 0;
    let mut k: usize = 0;
    while k < lists.len()
        invariant
            k <= lists@.len(),
            info_view(info) == replay_table(lists@, k as nat),
            protocol == replay_protocol(lists@, k as nat),
            last == if k == 0 {
                0
            } else {
                lists@[k - 1].0
            },
            forall|j: int| 0 <= j < k ==> !#[trigger] list_removes(lists@[j].1),
        decreases lists@.len() - k,
    {
        let (version, list) = &lists[k];
        let ghost before = info_view(info);
        let ghost pbefore = protocol;
        let mut j: usize = 0;
        while j < list.actions.len()
            invariant
                j <= list.actions@.len(),
                k < lists@.len(),
                *list == lists@[k as int].1,
                info_view(info) == last_change(list.actions@.subrange(0, j as int), before),
                protocol == last_protocol_in(list.actions@.subrange(0, j as int), pbefore),
                forall|m: int| 0 <= m < j ==> !(#[trigger] list.actions@[m] is Remove),
            decreases list.actions@.len() - j,
        {
            assert(list.actions@.subrange(0, j + 1).drop_last() =~= list.actions@.subrange(0, j as int));
            match &list.actions[j] {
                TableMetaAction::Change(c) => {
                    info = Some(copy_info(c));
                },
                TableMetaAction::Protocol(p) => {
                    protocol = Some(*p);
                },
                TableMetaAction::Remove => {
                    assert(list_removes(lists@[k as int].1));
                    return Err(TableRecoveryError::RemoveNotSupported);
                },
            }
            j = j + 1;
        }
        assert(list.actions@.subrange(0, j as int) =~= list.actions@);
        assert(!list_removes(lists@[k as int].1));
        last = *version;
        k = k + 1;
    }
    proof {
        assert(!(exists|m: int| 0 <= m < lists@.len() && #[trigger] list_removes(lists@[m].1)));
    }
    Ok((info, last, protocol))
}

/// Why the regions of a table cannot be scanned together.
#[derive(Clone, Copy, Debug, PartialEq, Eq, Structural)]
pub enum ScanError {
    /// The table has no region.
    InvalidTable,
    /// The region at this position has another schema version than the
    /// first one.
    RegionSchemaMismatch { region: usize },
}

/// The schema version that the regions of a scan share: the first
/// region's, where every region has it. A table without regions is
/// refused, and so is the first region whose version differs.
pub fn check_region_schemas(schema_versions: &Vec<u32>) -> (r: Result<u32, ScanError>)
    ensures
        schema_versions@.len() == 0 ==> r == Err::<u32, ScanError>(ScanError::InvalidTable),
        schema_versions@.len() > 0 ==> match r {
            Ok(v) => v == schema_versions@[0] && forall|i: int|
                0 <= i < schema_versions@.len() ==> #[trigger] schema_versions@[i] == v,
            Err(ScanError::RegionSchemaMismatch { region }) => 0 < region < schema_versions@.len()
                && schema_versions@[region as int] != schema_versions@[0] && forall|i: int|
                0 <= i < region ==> #[trigger] schema_versions@[i] == schema_versions@[0],
            Err(ScanError::InvalidTable) => false,
        },
{
    if schema_versions.len() == 0 {
        return Err(ScanError::InvalidTable);
    }
    let first = schema_versions[0];
    let mut i: usize = 1;
    while i < schema_versions.len()
        invariant
            1 <= i <= schema_versions@.len(),
            first == schema_versions@[0],
            forall|k: int| 0 <= k < i ==> #[trigger] schema_versions@[k] == first,
        decreases schema_versions@.len() - i,
    {
        if schema_versions[i] != first {
            return Err(ScanError::RegionSchemaMismatch { region: i });
        }
        i = i + 1;
    }
    Ok(first)
}

/// The regions an alteration to a table at `table_version` still has to
/// reach: those whose metadata version is not above it, in order.
pub fn regions_to_alter(region_versions: &Vec<u32>, table_version: u64) -> (r: Vec<usize>)
    ensures
        forall|i: int| 0 <= i < r@.len() ==> #[trigger] r@[i] < region_versions@.len()
            && region_versions@[r@[i] as int] as u64 <= table_version,
        forall|k: int|
            0 <= k < region_versions@.len() && region_versions@[k] as u64 <= table_version ==> r@.contains(
                k as usize,
            ),
        forall|i: int, j: int| 0 <= i < j < r@.len() ==> r@[i] < r@[j],
{
    let mut out: Vec<usize> = Vec::new();
    let mut k: usize = 0;
    while k < region_versions.len()
        invariant
            k <= region_versions@.len(),
            forall|i: int| 0 <= i < out@.len() ==> #[trigger] out@[i] < k
                && region_versions@[out@[i] as int] as u64 <= table_version,
            forall|m: int|
                0 <= m < k && region_versions@[m] as u64 <= table_version ==> out@.contains(
                    m as usize,
                ),
            forall|i: int, j: int| 0 <= i < j < out@.len() ==> out@[i] < out@[j],
        decreases region_versions@.len() - k,
    {
        if region_versions[k] as u64 <= table_version {
            let ghost before = out@;
            out.push(k);
            assert forall|m: int|
                0 <= m < k + 1 && region_versions@[m] as u64 <= table_version implies out@.contains(
                m as usize,
            ) by {
                if m < k {
                    let i = choose|i: int| 0 <= i < before.len() && before[i] == m as usize;
                    assert(out@[i] == m as usize);
                } else {
                    assert(out@[before.len() as int] == k);
                }
            }
        }
        k = k + 1;
    }
    out
}

} // verus!
