use flowy_user::error::UserError;
use flowy_user::manager::UserManager;
use flowy_user::reconcile::save_user_workspaces;
use flowy_user::table::WorkspaceTable;
use flowy_user::workspace::{UserWorkspace, UserWorkspaceTable};

fn workspace(id: &str, name: &str) -> UserWorkspace {
    UserWorkspace {
        id: id.to_string(),
        name: name.to_string(),
        created_at: 1_700_000_000,
        database_storage_id: format!("storage-{}", id),
    }
}

fn sorted_ids(ws: &[UserWorkspace]) -> Vec<String> {
    let mut ids: Vec<String> = ws.iter().map(|w| w.id.clone()).collect();
    ids.sort();
    ids
}

#[test]
fn reconcile_inserts_then_updates_single_row() {
    let mut manager = UserManager::new();
    let inserted = manager.apply_remote_workspaces(7, Ok(vec![workspace("A", "Work")]));
    assert!(inserted.is_some());
    let rows = manager.get_all_user_workspaces(7);
    assert_eq!(rows.len(), 1);
    assert_eq!(rows[0].id, "A");
    assert_eq!(rows[0].name, "Work");

    manager.apply_remote_workspaces(7, Ok(vec![workspace("A", "Work2")]));
    let rows = manager.get_all_user_workspaces(7);
    assert_eq!(rows.len(), 1);
    assert_eq!(rows[0].id, "A");
    assert_eq!(rows[0].name, "Work2");
    let row = manager.get_user_workspace(7, "A").unwrap();
    assert_eq!(row.name, "Work2");
}

#[test]
fn reconcile_twice_equals_once() {
    let remote = vec![workspace("A", "Work"), workspace("B", "Home"), workspace("A", "Work again")];
    let mut once = WorkspaceTable::new();
    save_user_workspaces(3, &mut once, &remote);
    let mut twice = WorkspaceTable::new();
    save_user_workspaces(3, &mut twice, &remote);
    save_user_workspaces(3, &mut twice, &remote);
    let a = once.load_for_user(3);
    let b = twice.load_for_user(3);
    assert_eq!(sorted_ids(&a), vec!["A".to_string(), "B".to_string()]);
    assert_eq!(sorted_ids(&b), sorted_ids(&a));
    for w in a.iter() {
        let other = b.iter().find(|x| x.id == w.id).unwrap();
        assert_eq!(other.name, w.name);
        assert_eq!(other.created_at, w.created_at);
        assert_eq!(other.database_storage_id, w.database_storage_id);
    }
    assert_eq!(twice.find(3, "A").unwrap().name, "Work again");
}

#[test]
fn reconcile_update_keeps_one_row_per_identifier() {
    let mut table = WorkspaceTable::new();
    save_user_workspaces(1, &mut table, &[workspace("W", "Old"), workspace("X", "Other")]);
    save_user_workspaces(1, &mut table, &[workspace("W", "New")]);
    let rows = table.load_for_user(1);
    assert_eq!(rows.iter().filter(|w| w.id == "W").count(), 1);
    assert_eq!(rows.len(), 2);
    assert_eq!(table.find(1, "W").unwrap().name, "New");
    assert_eq!(table.find(1, "X").unwrap().name, "Other");
}

#[test]
fn reconcile_inserts_missing_identifier_with_its_fields() {
    let mut table = WorkspaceTable::new();
    save_user_workspaces(9, &mut table, &[workspace("N", "Fresh")]);
    let row = table.find(9, "N").unwrap();
    assert_eq!(row.uid, 9);
    assert_eq!(row.name, "Fresh");
    assert_eq!(row.created_at, 1_700_000_000);
    assert_eq!(row.database_storage_id, "storage-N");
    assert_eq!(table.load_for_user(9).len(), 1);
}

#[test]
fn reconcile_skips_unconvertible_records() {
    let mut table = WorkspaceTable::new();
    let mut no_storage = workspace("S", "No storage");
    no_storage.database_storage_id = String::new();
    save_user_workspaces(2, &mut table, &[workspace("", "No id"), no_storage, workspace("ok", "Kept")]);
    let rows = table.load_for_user(2);
    assert_eq!(sorted_ids(&rows), vec!["ok".to_string()]);
}

#[test]
fn rows_are_scoped_per_local_user() {
    let mut manager = UserManager::new();
    manager.apply_remote_workspaces(1, Ok(vec![workspace("A", "One")]));
    manager.apply_remote_workspaces(2, Ok(vec![workspace("A", "Two"), workspace("B", "Two-B")]));
    assert_eq!(manager.get_user_workspace(1, "A").unwrap().name, "One");
    assert_eq!(manager.get_user_workspace(2, "A").unwrap().name, "Two");
    assert!(manager.get_user_workspace(1, "B").is_none());
    assert_eq!(manager.get_all_user_workspaces(1).len(), 1);
    assert_eq!(manager.get_all_user_workspaces(2).len(), 2);
    assert!(manager.get_all_user_workspaces(3).is_empty());
}

#[test]
fn listing_is_a_snapshot_taken_before_refresh() {
    let mut manager = UserManager::new();
    manager.apply_remote_workspaces(5, Ok(vec![workspace("A", "Before")]));
    let snapshot = manager.get_all_user_workspaces(5);
    manager.apply_remote_workspaces(5, Ok(vec![workspace("A", "After"), workspace("B", "New")]));
    assert_eq!(snapshot.len(), 1);
    assert_eq!(snapshot[0].name, "Before");
    assert_eq!(manager.get_all_user_workspaces(5).len(), 2);
}

#[test]
fn failed_refresh_leaves_cache_and_broadcasts_nothing() {
    let mut manager = UserManager::new();
    manager.apply_remote_workspaces(4, Ok(vec![workspace("A", "Kept")]));
    let payload = manager.apply_remote_workspaces(4, Err(UserError::RemoteService));
    assert!(payload.is_none());
    let rows = manager.get_all_user_workspaces(4);
    assert_eq!(rows.len(), 1);
    assert_eq!(rows[0].name, "Kept");
}

#[test]
fn refresh_hands_back_remote_list_for_broadcast() {
    let mut manager = UserManager::new();
    let payload = manager
        .apply_remote_workspaces(4, Ok(vec![workspace("A", "One"), workspace("B", "Two")]))
        .unwrap();
    assert_eq!(payload.len(), 2);
    assert_eq!(payload[0].id, "A");
    assert_eq!(payload[1].name, "Two");
}

#[test]
fn missing_workspace_lookup_is_absent() {
    let manager = UserManager::new();
    assert!(manager.get_user_workspace(1, "nope").is_none());
}

#[test]
fn conversion_refuses_empty_identifiers() {
    let w = workspace("", "No id");
    assert!(matches!(UserWorkspaceTable::try_from_workspace(1, &w), Err(UserError::Conversion)));
    let mut w2 = workspace("id", "No storage");
    w2.database_storage_id = String::new();
    assert!(matches!(UserWorkspaceTable::try_from_workspace(1, &w2), Err(UserError::Conversion)));
    let row = UserWorkspaceTable::try_from_workspace(8, &workspace("id", "Good")).unwrap();
    assert_eq!(row.uid, 8);
    assert_eq!(row.id, "id");
    assert_eq!(row.name, "Good");
    let back = UserWorkspace::from_row(&row);
    assert_eq!(back.id, "id");
    assert_eq!(back.database_storage_id, "storage-id");
}
