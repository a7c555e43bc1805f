//! Storage backends, and what to do about their changes.
//!
//! The file system core says what to synchronize; a backend decides how.
use vstd::prelude::*;

use crate::dirty_index::{path_bytes, PathProtection};
use crate::duration::Duration;
use crate::event::Code;
use crate::paths::FsPath;

verus! {

/// The part of a storage backend that answers at once.
pub trait Backend {
    /// Whether the file is synchronized with the remote side.
    fn should_track(&self, path: &FsPath) -> bool;

    /// The time between two polls of the remote side.
    fn poll_interval(&self) -> Duration;

    /// The name for logs and user interfaces.
    fn name(&self) -> &'static str;

    /// The kind of an error that the backend reported.
    fn classify_error(&self, _error: &str) -> (r: Code)
        default_ensures
            r == Code::Internal,
    {
        Code::Internal
    }
}

/// A request to refresh from the remote side.
pub struct RemoteRefresh<'a, P> {
    /// Paths that must not be overwritten by remote changes.
    pub protected_paths: &'a P,
    /// Refresh mode.
    pub mode: RemoteApplyMode,
}

/// Refresh mode.
#[derive(Debug, Clone, Copy, PartialEq, Eq, Structural)]
pub enum RemoteApplyMode {
    /// Apply changes when protected paths are not affected.
    ApplySafe,
    /// Detect changes without applying them.
    DetectOnly,
}

/// Why a refresh was deferred.
#[derive(Debug, Clone, Copy, PartialEq, Eq, Structural)]
pub enum RemoteDeferReason {
    /// Remote changes affect paths with local changes.
    ProtectedLocalChange,
    /// The refresh was to detect changes only.
    DetectOnly,
}

/// Result of a refresh.
#[derive(Debug, Clone, PartialEq)]
pub enum RemoteRefreshResult {
    /// There were no remote changes.
    Unchanged,
    /// Remote changes were applied locally.
    Applied {
        /// Modified paths.
        changed: Vec<FsPath>,
        /// Deleted paths.
        deleted: Vec<FsPath>,
    },
    /// Remote changes were not applied.
    Deferred {
        /// Paths that caused this.
        affected: Vec<FsPath>,
        /// The reason.
        reason: RemoteDeferReason,
    },
    /// The remote side cannot be reached.
    Offline,
}

/// Result of the preparation of the local directory.
#[derive(Debug, Clone)]
pub enum InitResult {
    /// Fetched for the first time.
    Fresh,
    /// The local directory is up to date.
    UpToDate,
    /// Updated from the remote side.
    Updated,
    /// There are conflicts.
    Conflicts {
        /// Files with conflicts.
        files: Vec<FsPath>,
    },
    /// The remote side cannot be reached; the local state is used.
    Offline,
}

/// Result of a synchronization.
#[derive(Debug, Clone)]
pub enum SyncResult {
    /// All files were synchronized.
    Success {
        /// Number of synchronized files.
        synced_files: usize,
    },
    /// Some files have conflicts.
    Conflict {
        /// Number of synchronized files.
        synced_files: usize,
        /// Files with conflicts.
        conflict_files: Vec<FsPath>,
    },
    /// The remote side cannot be reached.
    Offline,
}

/// A change on the remote side.
#[derive(Debug, Clone)]
pub enum RemoteChange {
    /// The file was modified.
    Modified {
        /// Path of the file.
        path: FsPath,
        /// New content.
        content: Vec<u8>,
    },
    /// The file was deleted.
    Deleted {
        /// Path of the file.
        path: FsPath,
    },
}

impl RemoteChange {
    /// The bytes of the path.
    pub open spec fn path_view(self) -> Seq<u8> {
        match self {
            RemoteChange::Modified { path, .. } => path@,
            RemoteChange::Deleted { path } => path@,
        }
    }

    /// The path of the file.
    pub fn path(&self) -> (r: &FsPath)
        ensures
            r@ == self.path_view(),
    {
        match self {
            RemoteChange::Modified { path, .. } => path,
            RemoteChange::Deleted { path } => path,
        }
    }
}

/// The paths that changes affect, in order.
pub open spec fn affected_paths(changes: Seq<RemoteChange>) -> Seq<Seq<u8>> {
    changes.map_values(|c: RemoteChange| c.path_view())
}

/// The paths among them that are protected, in order.
pub open spec fn protected_among<P: PathProtection>(
    paths: Seq<Seq<u8>>,
    protection: P,
) -> Seq<Seq<u8>>
    decreases paths.len(),
{
    if paths.len() == 0 {
        Seq::empty()
    } else {
        let before = protected_among(paths.drop_last(), protection);
        if protection.protects(paths.last()) {
            before.push(paths.last())
        } else {
            before
        }
    }
}

/// The paths of the modified files, in order.
pub open spec fn modified_paths(changes: Seq<RemoteChange>) -> Seq<Seq<u8>>
    decreases changes.len(),
{
    if changes.len() == 0 {
        Seq::empty()
    } else {
        let before = modified_paths(changes.drop_last());
        if changes.last() is Modified {
            before.push(changes.last().path_view())
        } else {
            before
        }
    }
}

/// The paths of the deleted files, in order.
pub open spec fn deleted_paths(changes: Seq<RemoteChange>) -> Seq<Seq<u8>>
    decreases changes.len(),
{
    if changes.len() == 0 {
        Seq::empty()
    } else {
        let before = deleted_paths(changes.drop_last());
        if changes.last() is Deleted {
            before.push(changes.last().path_view())
        } else {
            before
        }
    }
}

/// What a refresh does with the changes that a poll found. Where the changes
/// are applied, the result is the one to report once they are.
#[derive(Debug, Clone)]
pub enum RefreshPlan {
    /// Report this result; apply nothing.
    Report(RemoteRefreshResult),
    /// Apply the changes, then report this result.
    Apply(RemoteRefreshResult),
}

/// Whether a plan is the right one for the changes.
pub open spec fn refresh_planned<P: PathProtection>(
    plan: RefreshPlan,
    changes: Seq<RemoteChange>,
    protection: P,
    mode: RemoteApplyMode,
) -> bool {
    let affected = affected_paths(changes);
    let protected = protected_among(affected, protection);
    if changes.len() == 0 {
        plan == RefreshPlan::Report(RemoteRefreshResult::Unchanged)
    } else if protected.len() > 0 {
        plan matches RefreshPlan::Report(RemoteRefreshResult::Deferred { affected: a, reason })
            && path_bytes(a@) == protected && reason == RemoteDeferReason::ProtectedLocalChange
    } else if mode == RemoteApplyMode::DetectOnly {
        plan matches RefreshPlan::Report(RemoteRefreshResult::Deferred { affected: a, reason })
            && path_bytes(a@) == affected && reason == RemoteDeferReason::DetectOnly
    } else {
        plan matches RefreshPlan::Apply(RemoteRefreshResult::Applied { changed, deleted })
            && path_bytes(changed@) == modified_paths(changes) && path_bytes(deleted@)
            == deleted_paths(changes)
    }
}

fn push_path(list: &mut Vec<FsPath>, path: &FsPath)
    ensures
        path_bytes(final(list)@) == path_bytes(old(list)@).push(path@),
{
    list.push(path.copy());
    assert(path_bytes(list@) =~= path_bytes(old(list)@).push(path@));
}

/// Decides what a refresh does with the changes that a poll found: nothing is
/// applied where one of them affects a protected path.
pub fn plan_refresh<P: PathProtection>(
    changes: &Vec<RemoteChange>,
    request: &RemoteRefresh<'_, P>,
) -> (r: RefreshPlan)
    ensures
        refresh_planned(r, changes@, *request.protected_paths, request.mode),
{
    if changes.len() == 0 {
        return RefreshPlan::Report(RemoteRefreshResult::Unchanged);
    }
    let mut affected: Vec<FsPath> = Vec::new();
    let mut protected: Vec<FsPath> = Vec::new();
    let mut changed: Vec<FsPath> = Vec::new();
    let mut deleted: Vec<FsPath> = Vec::new();
    let mut i: usize = 0;
    proof {
        assert(path_bytes(affected@) =~= Seq::<Seq<u8>>::empty());
        assert(changes@.take(0) =~= Seq::<RemoteChange>::empty());
        assert(affected_paths(changes@.take(0)) =~= Seq::<Seq<u8>>::empty());
    }
    while i < changes.len()
        invariant
            i <= changes@.len(),
            path_bytes(affected@) == affected_paths(changes@.take(i as int)),
            path_bytes(protected@) == protected_among(
                affected_paths(changes@.take(i as int)),
                *request.protected_paths,
            ),
            path_bytes(changed@) == modified_paths(changes@.take(i as int)),
            path_bytes(deleted@) == deleted_paths(changes@.take(i as int)),
        decreases changes@.len() - i,
    {
        let change = &changes[i];
        proof {
            let now = changes@.take(i + 1);
            assert(now.drop_last() =~= changes@.take(i as int));
            assert(affected_paths(now) =~= affected_paths(changes@.take(i as int)).push(
                change.path_view(),
            ));
            assert(affected_paths(now).drop_last() =~= affected_paths(changes@.take(i as int)));
        }
        push_path(&mut affected, change.path());
        if request.protected_paths.is_protected(change.path()) {
            push_path(&mut protected, change.path());
        }
        match change {
            RemoteChange::Modified { path, .. } => {
                push_path(&mut changed, path);
            },
            RemoteChange::Deleted { path } => {
                push_path(&mut deleted, path);
            },
        }
        i += 1;
    }
    assert(changes@.take(i as int) =~= changes@);
    assert(path_bytes(protected@).len() == protected@.len());
    if protected.len() > 0 {
        return RefreshPlan::Report(
            RemoteRefreshResult::Deferred {
                affected: protected,
                reason: RemoteDeferReason::ProtectedLocalChange,
            },
        );
    }
    match request.mode {
        RemoteApplyMode::DetectOnly => RefreshPlan::Report(
            RemoteRefreshResult::Deferred { affected, reason: RemoteDeferReason::DetectOnly },
        ),
        RemoteApplyMode::ApplySafe => RefreshPlan::Apply(
            RemoteRefreshResult::Applied { changed, deleted },
        ),
    }
}

/// Where one of the paths is protected, the protected ones are not none.
pub proof fn lemma_protected_among<P: PathProtection>(paths: Seq<Seq<u8>>, protection: P, i: int)
    requires
        0 <= i < paths.len(),
        protection.protects(paths[i]),
    ensures
        protected_among(paths, protection).len() > 0,
    decreases paths.len(),
{
    if i < paths.len() - 1 {
        assert(paths.drop_last()[i] == paths[i]);
        lemma_protected_among(paths.drop_last(), protection, i);
    }
}

/// A remote change never overwrites a protected path: where one of the changes
/// affects such a path, none is applied.
pub proof fn law_protected_paths_stay<P: PathProtection>(
    plan: RefreshPlan,
    changes: Seq<RemoteChange>,
    protection: P,
    mode: RemoteApplyMode,
    i: int,
)
    requires
        refresh_planned(plan, changes, protection, mode),
        0 <= i < changes.len(),
        protection.protects(changes[i].path_view()),
    ensures
        plan is Report,
{
    lemma_protected_among(affected_paths(changes), protection, i);
}

/// Changes are applied exactly where there are some, none affects a protected
/// path, and the request is not to detect only.
pub proof fn law_applied_iff_safe<P: PathProtection>(
    plan: RefreshPlan,
    changes: Seq<RemoteChange>,
    protection: P,
    mode: RemoteApplyMode,
)
    requires
        refresh_planned(plan, changes, protection, mode),
    ensures
        plan is Apply <==> {
            &&& changes.len() > 0
            &&& mode == RemoteApplyMode::ApplySafe
            &&& forall|i: int|
                0 <= i < changes.len() ==> !protection.protects((#[trigger] changes[i]).path_view())
        },
{
    let affected = affected_paths(changes);
    if plan is Apply {
        assert forall|i: int| 0 <= i < changes.len() implies !protection.protects(
            (#[trigger] changes[i]).path_view(),
        ) by {
            if protection.protects(changes[i].path_view()) {
                lemma_protected_among(affected, protection, i);
            }
        }
    }
    if forall|i: int|
        0 <= i < changes.len() ==> !protection.protects((#[trigger] changes[i]).path_view()) {
        assert forall|i: int| 0 <= i < affected.len() implies !protection.protects(
            #[trigger] affected[i],
        ) by {
            assert(affected[i] == changes[i].path_view());
        }
        lemma_none_protected(affected, protection);
    }
}

/// Where no path is protected, the protected ones are none.
pub proof fn lemma_none_protected<P: PathProtection>(paths: Seq<Seq<u8>>, protection: P)
    requires
        forall|i: int| 0 <= i < paths.len() ==> !protection.protects(#[trigger] paths[i]),
    ensures
        protected_among(paths, protection).len() == 0,
    decreases paths.len(),
{
    if paths.len() > 0 {
        assert forall|i: int| 0 <= i < paths.drop_last().len() implies !protection.protects(
            #[trigger] paths.drop_last()[i],
        ) by {
            assert(paths[i] == paths.drop_last()[i]);
        }
        lemma_none_protected(paths.drop_last(), protection);
        assert(!protection.protects(paths[paths.len() - 1]));
    }
}

/// The protected paths are those that protection picks.
pub proof fn lemma_protected_is_filtered<P: PathProtection>(paths: Seq<Seq<u8>>, protection: P)
    ensures
        protected_among(paths, protection) == paths.filter(|p: Seq<u8>| protection.protects(p)),
    decreases paths.len(),
{
    reveal(Seq::filter);
    if paths.len() > 0 {
        lemma_protected_is_filtered(paths.drop_last(), protection);
    }
}

proof fn lemma_kinds_are_filtered(changes: Seq<RemoteChange>)
    ensures
        modified_paths(changes) == affected_paths(changes.filter(|c: RemoteChange| c is Modified)),
        deleted_paths(changes) == affected_paths(changes.filter(|c: RemoteChange| c is Deleted)),
    decreases changes.len(),
{
    reveal(Seq::filter);
    let modified = |c: RemoteChange| c is Modified;
    let deleted = |c: RemoteChange| c is Deleted;
    if changes.len() > 0 {
        let before = changes.drop_last();
        lemma_kinds_are_filtered(before);
        assert(affected_paths(before.filter(modified).push(changes.last())) =~= affected_paths(
            before.filter(modified),
        ).push(changes.last().path_view()));
        assert(affected_paths(before.filter(deleted).push(changes.last())) =~= affected_paths(
            before.filter(deleted),
        ).push(changes.last().path_view()));
    } else {
        assert(modified_paths(changes) =~= affected_paths(changes.filter(modified)));
        assert(deleted_paths(changes) =~= affected_paths(changes.filter(deleted)));
    }
}

/// The path that a list of changes affects at a place is that of the change there.
pub proof fn law_changes_name_their_paths(change: RemoteChange, r: &FsPath)
    requires
        call_ensures(RemoteChange::path, (&change,), r),
    ensures
        match change {
            RemoteChange::Modified { path, .. } => r@ == path@,
            RemoteChange::Deleted { path } => r@ == path@,
        },
{
}

/// A refresh that may apply changes applies them where none affects a protected
/// path, and then reports every modified path as changed and every deleted one
/// as deleted, in the order of the changes.
pub proof fn law_refresh_reports_every_change<P: PathProtection>(
    changes: Vec<RemoteChange>,
    request: RemoteRefresh<'_, P>,
    plan: RefreshPlan,
)
    requires
        call_ensures(plan_refresh::<P>, (&changes, &request), plan),
        request.mode == RemoteApplyMode::ApplySafe,
        changes@.len() > 0,
        forall|i: int|
            0 <= i < changes@.len() ==> !request.protected_paths.protects(
                (#[trigger] changes@[i]).path_view(),
            ),
    ensures
        plan matches RefreshPlan::Apply(RemoteRefreshResult::Applied { changed, deleted }) && {
            &&& path_bytes(changed@) == affected_paths(
                changes@.filter(|c: RemoteChange| c is Modified),
            )
            &&& path_bytes(deleted@) == affected_paths(
                changes@.filter(|c: RemoteChange| c is Deleted),
            )
        },
{
    law_applied_iff_safe(plan, changes@, *request.protected_paths, request.mode);
    lemma_kinds_are_filtered(changes@);
}

/// A refresh that meets protected paths is put off and names exactly those, in
/// the order of the changes; one that only detects names all that is affected.
/// Without changes there is nothing to report.
pub proof fn law_refresh_names_what_it_defers<P: PathProtection>(
    changes: Vec<RemoteChange>,
    request: RemoteRefresh<'_, P>,
    plan: RefreshPlan,
)
    requires
        call_ensures(plan_refresh::<P>, (&changes, &request), plan),
    ensures
        ({
            let protected = affected_paths(changes@).filter(
                |p: Seq<u8>| request.protected_paths.protects(p),
            );
            if changes@.len() == 0 {
                plan == RefreshPlan::Report(RemoteRefreshResult::Unchanged)
            } else if protected.len() > 0 {
                plan matches RefreshPlan::Report(RemoteRefreshResult::Deferred { affected, reason })
                    && path_bytes(affected@) == protected && reason
                    == RemoteDeferReason::ProtectedLocalChange
            } else if request.mode == RemoteApplyMode::DetectOnly {
                plan matches RefreshPlan::Report(RemoteRefreshResult::Deferred { affected, reason })
                    && path_bytes(affected@) == affected_paths(changes@) && reason
                    == RemoteDeferReason::DetectOnly
            } else {
                plan is Apply
            }
        }),
{
    lemma_protected_is_filtered(affected_paths(changes@), *request.protected_paths);
}

} // verus!
