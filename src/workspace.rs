use vstd::prelude::*;

use crate::error::UserError;

verus! {

/// A workspace the user belongs to, as the remote authority describes it.
pub struct UserWorkspace {
    pub id: String,
    pub name: String,
    /// Creation time, in seconds since the Unix epoch.
    pub created_at: i64,
    /// Identifier of the partition that holds the workspace's databases.
    pub database_storage_id: String,
}

/// The mathematical value of a [`UserWorkspace`].
pub struct WorkspaceView {
    pub id: Seq<char>,
    pub name: Seq<char>,
    pub created_at: i64,
    pub database_storage_id: Seq<char>,
}

impl View for UserWorkspace {
    type V = WorkspaceView;

    open spec fn view(&self) -> WorkspaceView {
        WorkspaceView {
            id: self.id@,
            name: self.name@,
            created_at: self.created_at,
            database_storage_id: self.database_storage_id@,
        }
    }
}

/// A record converts into a cache row exactly when its identifier and its
/// storage identifier are both present.
pub open spec fn convertible(w: WorkspaceView) -> bool {
    w.id.len() > 0 && w.database_storage_id.len() > 0
}

} // verus!

verus! {

/// A row of the local workspace table: a workspace, scoped to the local user
/// that it is cached for.
pub struct UserWorkspaceTable {
    pub id: String,
    pub name: String,
    pub uid: i64,
    pub created_at: i64,
    pub database_storage_id: String,
}

/// The mathematical value of a [`UserWorkspaceTable`] row.
pub struct RowView {
    pub id: Seq<char>,
    pub name: Seq<char>,
    pub uid: i64,
    pub created_at: i64,
    pub database_storage_id: Seq<char>,
}

impl View for UserWorkspaceTable {
    type V = RowView;

    open spec fn view(&self) -> RowView {
        RowView {
            id: self.id@,
            name: self.name@,
            uid: self.uid,
            created_at: self.created_at,
            database_storage_id: self.database_storage_id@,
        }
    }
}

/// The row that caches workspace `w` for local user `uid`.
pub open spec fn row_of(uid: i64, w: WorkspaceView) -> RowView {
    RowView {
        id: w.id,
        name: w.name,
        uid,
        created_at: w.created_at,
        database_storage_id: w.database_storage_id,
    }
}

/// The workspace that a cached row describes.
pub open spec fn workspace_of(r: RowView) -> WorkspaceView {
    WorkspaceView {
        id: r.id,
        name: r.name,
        created_at: r.created_at,
        database_storage_id: r.database_storage_id,
    }
}

/// The views of a sequence of workspaces.
pub open spec fn workspace_views(ws: Seq<UserWorkspace>) -> Seq<WorkspaceView> {
    ws.map_values(|w: UserWorkspace| w@)
}

impl UserWorkspaceTable {
    /// Maps a remote workspace record to the row that caches it for `uid`;
    /// a record without an identifier or without a storage identifier is
    /// refused.
    pub fn try_from_workspace(uid: i64, w: &UserWorkspace) -> (r: Result<UserWorkspaceTable, UserError>)
        ensures
            convertible(w@) ==> (r matches Ok(row) && row@ == row_of(uid, w@)),
            !convertible(w@) ==> r == Err::<UserWorkspaceTable, UserError>(UserError::Conversion),
    {
        if w.id.as_str().is_empty() || w.database_storage_id.as_str().is_empty() {
            return Err(UserError::Conversion);
        }
        Ok(UserWorkspaceTable {
            id: w.id.clone(),
            name: w.name.clone(),
            uid,
            created_at: w.created_at,
            database_storage_id: w.database_storage_id.clone(),
        })
    }
}

impl UserWorkspace {
    /// The workspace that a cached row describes.
    pub fn from_row(row: &UserWorkspaceTable) -> (r: UserWorkspace)
        ensures
            r@ == workspace_of(row@),
    {
        UserWorkspace {
            id: row.id.clone(),
            name: row.name.clone(),
            created_at: row.created_at,
            database_storage_id: row.database_storage_id.clone(),
        }
    }
}

} // verus!
