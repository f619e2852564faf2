use vstd::prelude::*;

use crate::error::UserError;
use crate::reconcile::{reconcile, save_user_workspaces};
use crate::table::{lists_user_workspaces, WorkspaceTable};
use crate::workspace::{workspace_of, workspace_views, RowView, UserWorkspace};

verus! {

/// The user manager's local state: the cache of the workspaces that each local
/// user belongs to.
pub struct UserManager {
    workspace_table: WorkspaceTable,
}

impl View for UserManager {
    type V = Map<(i64, Seq<char>), RowView>;

    closed spec fn view(&self) -> Map<(i64, Seq<char>), RowView> {
        self.workspace_table@
    }
}

impl UserManager {
    pub closed spec fn wf(&self) -> bool {
        self.workspace_table.wf()
    }

    /// A manager whose cache is empty.
    pub fn new() -> (r: UserManager)
        ensures
            r.wf(),
            r@ == Map::<(i64, Seq<char>), RowView>::empty(),
    {
        UserManager { workspace_table: WorkspaceTable::new() }
    }

    /// The cached workspace `workspace_id` of local user `uid`, if the cache
    /// holds it.
    pub fn get_user_workspace(&self, uid: i64, workspace_id: &str) -> (r: Option<UserWorkspace>)
        requires
            self.wf(),
        ensures
            r is Some <==> self@.contains_key((uid, workspace_id@)),
            r matches Some(w) ==> w@ == workspace_of(self@[(uid, workspace_id@)]),
    {
        match self.workspace_table.find(uid, workspace_id) {
            Some(row) => Some(UserWorkspace::from_row(row)),
            None => None,
        }
    }

    /// Every workspace cached for local user `uid`, as the cache holds them
    /// now: a refresh that runs later does not change what was returned.
    pub fn get_all_user_workspaces(&self, uid: i64) -> (r: Vec<UserWorkspace>)
        requires
            self.wf(),
        ensures
            lists_user_workspaces(self@, uid, workspace_views(r@)),
    {
        self.workspace_table.load_for_user(uid)
    }

    /// Takes the outcome of asking the remote service for all workspaces of
    /// local user `uid`. On success the records are reconciled into the cache
    /// and handed back, to be broadcast as the refreshed list; on failure the
    /// cache is left as it was and nothing is broadcast.
    pub fn apply_remote_workspaces(
        &mut self,
        uid: i64,
        remote: Result<Vec<UserWorkspace>, UserError>,
    ) -> (r: Option<Vec<UserWorkspace>>)
        requires
            old(self).wf(),
        ensures
            final(self).wf(),
            match remote {
                Ok(ws) => r == Some(ws) && final(self)@ == reconcile(
                    old(self)@,
                    uid,
                    workspace_views(ws@),
                ),
                Err(_) => r is None && final(self)@ == old(self)@,
            },
    {
        match remote {
            Ok(ws) => {
                save_user_workspaces(uid, &mut self.workspace_table, ws.as_slice());
                Some(ws)
            },
            Err(_) => None,
        }
    }
}

} // verus!
