//! The sync cycle: authenticate, drop both tables, recreate the empty
//! schema, and repopulate it from a snapshot fetched from the remote store.
//!
//! Fetching is network work and happens outside this crate; the cycle here
//! takes the fetch's outcome as a value and is verified for every outcome.
//! The caller must hold the store exclusively for the whole cycle (readers
//! take the same lock shared), so reads only ever observe the store as it
//! stands before a cycle or as a completed cycle leaves it.

use vstd::prelude::*;

use crate::store::LocalStore;
use crate::store::ModInfo;
use crate::store::ModInfoV;
use crate::store::StoreV;
use crate::store::VersionRow;
use crate::store::VersionRowV;
use crate::store::drop_tables_v;
use crate::store::ensure_schema_v;
use crate::text::str_eq;

verus! {

/// A full copy of the remote store's two tables, read at fetch time.
pub struct Snapshot {
    pub infos: Vec<ModInfo>,
    pub versions: Vec<VersionRow>,
}

/// Mathematical image of a `Snapshot`.
#[verifier::ext_equal]
pub ghost struct SnapshotV {
    pub infos: Seq<ModInfoV>,
    pub versions: Seq<VersionRowV>,
}

impl View for Snapshot {
    type V = SnapshotV;

    open spec fn view(&self) -> SnapshotV {
        SnapshotV {
            infos: self.infos@.map_values(|m: ModInfo| m@),
            versions: self.versions@.map_values(|v: VersionRow| v@),
        }
    }
}

/// What came back from the remote store: a snapshot, or the step of the
/// fetch that failed.
pub enum FetchOutcome {
    Fetched(Snapshot),
    ConnectionFailed,
    QueryFailed,
}

/// Mathematical image of a `FetchOutcome`.
pub ghost enum FetchV {
    Fetched(SnapshotV),
    ConnectionFailed,
    QueryFailed,
}

impl View for FetchOutcome {
    type V = FetchV;

    open spec fn view(&self) -> FetchV {
        match self {
            FetchOutcome::Fetched(snap) => FetchV::Fetched(snap@),
            FetchOutcome::ConnectionFailed => FetchV::ConnectionFailed,
            FetchOutcome::QueryFailed => FetchV::QueryFailed,
        }
    }
}

/// How a sync cycle ended. A rejected cycle touched nothing; a failed one
/// left the schema present but empty; a completed one left exactly the
/// snapshot's rows.
#[derive(Clone, Copy, Debug, PartialEq, Eq, Structural)]
pub enum SyncOutcome {
    Completed,
    Rejected,
    Failed,
}

/// The whole sync cycle as one transition of the store model.
pub open spec fn sync_v(
    s: StoreV,
    presented: Seq<char>,
    secret: Seq<char>,
    fetch: FetchV,
) -> (StoreV, SyncOutcome) {
    if presented != secret {
        (s, SyncOutcome::Rejected)
    } else {
        match fetch {
            FetchV::Fetched(snap) => (
                StoreV { info: Some(snap.infos), versions: Some(snap.versions) },
                SyncOutcome::Completed,
            ),
            _ => (ensure_schema_v(drop_tables_v(s)), SyncOutcome::Failed),
        }
    }
}

/// A sync request is authorized exactly when the presented token equals
/// the configured secret, character for character.
pub fn authorize_sync(presented: &str, secret: &str) -> (r: bool)
    ensures
        r == (presented@ == secret@),
{
    str_eq(presented, secret)
}

/// Inserts every snapshot row into the store, records first and then
/// releases, preserving the snapshot's order.
fn repopulate(store: &mut LocalStore, snap: Snapshot)
    requires
        old(store)@.schema_ok(),
    ensures
        final(store)@.info == Some(old(store)@.info->Some_0 + snap@.infos),
        final(store)@.versions == Some(old(store)@.versions->Some_0 + snap@.versions),
{
    let Snapshot { mut infos, mut versions } = snap;
    let ghost all_infos = infos@.map_values(|m: ModInfo| m@);
    let ghost all_versions = versions@.map_values(|v: VersionRow| v@);
    while infos.len() > 0
        invariant
            store@.info is Some,
            store@.versions == old(store)@.versions,
            store@.info->Some_0 + infos@.map_values(|m: ModInfo| m@) == old(
                store,
            )@.info->Some_0 + all_infos,
        decreases infos.len(),
    {
        let ghost before = infos@;
        let row = infos.remove(0);
        store.insert_info(row);
        proof {
            assert(before.map_values(|m: ModInfo| m@).drop_first() =~= infos@.map_values(
                |m: ModInfo| m@,
            ));
            assert(store@.info->Some_0 + infos@.map_values(|m: ModInfo| m@) =~= old(
                store,
            )@.info->Some_0 + all_infos);
        }
    }
    while versions.len() > 0
        invariant
            store@.versions is Some,
            store@.info == Some(old(store)@.info->Some_0 + all_infos),
            store@.versions->Some_0 + versions@.map_values(|v: VersionRow| v@) == old(
                store,
            )@.versions->Some_0 + all_versions,
        decreases versions.len(),
    {
        let ghost before = versions@;
        let row = versions.remove(0);
        store.insert_version(row);
        proof {
            assert(before.map_values(|v: VersionRow| v@).drop_first() =~= versions@.map_values(
                |v: VersionRow| v@,
            ));
            assert(store@.versions->Some_0 + versions@.map_values(|v: VersionRow| v@) =~= old(
                store,
            )@.versions->Some_0 + all_versions);
        }
    }
    proof {
        assert(infos@.map_values(|m: ModInfo| m@).len() == 0);
        assert(store@.info->Some_0 =~= old(store)@.info->Some_0 + all_infos);
        assert(store@.versions->Some_0 =~= old(store)@.versions->Some_0 + all_versions);
    }
}

/// One full sync cycle against the store, with the remote fetch's outcome
/// handed in as a value.
///
/// A mismatched token rejects the request before anything is touched. An
/// authorized cycle drops both tables, recreates the empty schema, and, if
/// the fetch produced a snapshot, repopulates both tables with exactly its
/// rows; if the fetch failed, the store is left with its schema present
/// and zero rows, and the failure is reported rather than escalated.
pub fn run_sync(
    store: &mut LocalStore,
    presented: &str,
    secret: &str,
    fetch: FetchOutcome,
) -> (r: SyncOutcome)
    ensures
        (final(store)@, r) == sync_v(old(store)@, presented@, secret@, fetch@),
{
    if !authorize_sync(presented, secret) {
        return SyncOutcome::Rejected;
    }
    store.drop_tables();
    store.ensure_schema();
    match fetch {
        FetchOutcome::Fetched(snap) => {
            let ghost emptied = store@;
            repopulate(store, snap);
            proof {
                assert(emptied.info->Some_0 + snap@.infos =~= snap@.infos);
                assert(emptied.versions->Some_0 + snap@.versions =~= snap@.versions);
                assert(final(store)@ =~= sync_v(old(store)@, presented@, secret@, fetch@).0);
            }
            SyncOutcome::Completed
        },
        FetchOutcome::ConnectionFailed => SyncOutcome::Failed,
        FetchOutcome::QueryFailed => SyncOutcome::Failed,
    }
}

/// Full replace: an authorized sync whose fetch produced a snapshot leaves
/// the local tables holding exactly the snapshot's rows — no pre-sync row
/// survives and no fetched row is dropped — and reports completion.
pub proof fn sync_replaces_fully(
    s: StoreV,
    presented: Seq<char>,
    secret: Seq<char>,
    snap: SnapshotV,
)
    requires
        presented == secret,
    ensures
        sync_v(s, presented, secret, FetchV::Fetched(snap)).0.info == Some(snap.infos),
        sync_v(s, presented, secret, FetchV::Fetched(snap)).0.versions == Some(snap.versions),
        sync_v(s, presented, secret, FetchV::Fetched(snap)).1 == SyncOutcome::Completed,
{
}

/// Rejection is non-destructive: presenting a wrong token leaves the store
/// exactly as it was, whatever the fetch would have produced.
pub proof fn sync_rejection_nondestructive(
    s: StoreV,
    presented: Seq<char>,
    secret: Seq<char>,
    fetch: FetchV,
)
    requires
        presented != secret,
    ensures
        sync_v(s, presented, secret, fetch).0 == s,
        sync_v(s, presented, secret, fetch).1 == SyncOutcome::Rejected,
{
}

/// An authorized sync whose fetch failed leaves the store empty but
/// serviceable: the schema is present with zero rows, the prior content is
/// gone (full replace admits no rollback), and the failure is reported.
pub proof fn sync_failure_leaves_empty_schema(
    s: StoreV,
    presented: Seq<char>,
    secret: Seq<char>,
    fetch: FetchV,
)
    requires
        presented == secret,
        !(fetch is Fetched),
    ensures
        sync_v(s, presented, secret, fetch).0.is_empty_schema(),
        sync_v(s, presented, secret, fetch).1 == SyncOutcome::Failed,
{
}

/// Reads serialized against sync never see a half-dropped schema: the
/// cycle is one atomic transition of the store (the caller holds the
/// writer side of the lock throughout, readers the shared side), and every
/// outcome of a cycle started with both tables present ends with both
/// tables present. So a read observes either both tables or — only before
/// the very first schema setup — neither, never exactly one.
pub proof fn sync_preserves_schema(
    s: StoreV,
    presented: Seq<char>,
    secret: Seq<char>,
    fetch: FetchV,
)
    requires
        s.schema_ok(),
    ensures
        sync_v(s, presented, secret, fetch).0.schema_ok(),
{
}

} // verus!
