use flowy_user::error::UserError;
use flowy_user::import::{
    rendezvous_outcome, AppFlowyData, DatabaseViewIds, ImportData, ImportRun, ImportTask,
    ImportedView, StepOutcome,
};

fn folder() -> AppFlowyData {
    AppFlowyData::Folder {
        views: vec![ImportedView {
            view_id: "v1".to_string(),
            parent_view_id: "root".to_string(),
            name: "Board".to_string(),
        }],
        database_view_ids_by_database_id: vec![DatabaseViewIds {
            database_id: "db1".to_string(),
            view_ids: vec!["v1".to_string()],
        }],
    }
}

fn collab(row: &str) -> AppFlowyData {
    AppFlowyData::CollabObject {
        row_object_ids: vec![row.to_string()],
        document_object_ids: vec![],
        database_object_ids: vec![],
    }
}

fn step_name(t: &ImportTask) -> &'static str {
    match t {
        ImportTask::ImportDatabaseViews(_) => "database_views",
        ImportTask::ImportViews(_) => "views",
        ImportTask::OpenCollabDb => "open",
        ImportTask::UploadCollabObjects { .. } => "upload",
    }
}

#[test]
fn folder_imports_database_views_before_views() {
    let mut run = ImportRun::new(1, ImportData::AppFlowyDataFolder { items: vec![folder()] });
    let mut order = Vec::new();
    while let Some(task) = run.next_task() {
        order.push(step_name(task));
        run.record(StepOutcome::Completed);
    }
    assert_eq!(order, vec!["database_views", "views"]);
    assert_eq!(run.outcome(), Some(Ok(())));
}

#[test]
fn units_run_in_order() {
    let data = ImportData::AppFlowyDataFolder { items: vec![collab("r1"), folder()] };
    let mut run = ImportRun::new(3, data);
    assert_eq!(run.uid(), 3);
    let mut order = Vec::new();
    while let Some(task) = run.next_task() {
        order.push(step_name(task));
        run.record(StepOutcome::Completed);
    }
    assert_eq!(order, vec!["open", "upload", "database_views", "views"]);
    assert_eq!(run.outcome(), Some(Ok(())));
}

#[test]
fn failure_on_second_unit_keeps_first_upload() {
    let data = ImportData::AppFlowyDataFolder { items: vec![collab("r1"), collab("bad")] };
    let mut run = ImportRun::new(1, data);
    let mut uploaded = Vec::new();
    while let Some(task) = run.next_task() {
        match task {
            ImportTask::UploadCollabObjects { row_object_ids, .. } => {
                if row_object_ids[0] == "bad" {
                    run.record(StepOutcome::Failed(UserError::RemoteService));
                } else {
                    uploaded.push(row_object_ids[0].clone());
                    run.record(StepOutcome::Completed);
                }
            },
            _ => run.record(StepOutcome::Completed),
        }
    }
    assert_eq!(uploaded, vec!["r1".to_string()]);
    assert_eq!(run.outcome(), Some(Err(UserError::RemoteService)));
    run.record(StepOutcome::Completed);
    assert_eq!(run.outcome(), Some(Err(UserError::RemoteService)));
    assert!(run.next_task().is_none());
}

#[test]
fn released_collab_db_fails_without_upload() {
    let data = ImportData::AppFlowyDataFolder { items: vec![collab("r1")] };
    let mut run = ImportRun::new(1, data);
    assert_eq!(step_name(run.next_task().unwrap()), "open");
    run.record(StepOutcome::CollabDbReleased);
    assert!(run.next_task().is_none());
    assert_eq!(run.outcome(), Some(Err(UserError::CollabDbUnavailable)));
}

#[test]
fn empty_import_succeeds_at_once() {
    let run = ImportRun::new(1, ImportData::AppFlowyDataFolder { items: vec![] });
    assert!(run.next_task().is_none());
    assert_eq!(run.outcome(), Some(Ok(())));
}

#[test]
fn running_import_has_no_outcome() {
    let run = ImportRun::new(1, ImportData::AppFlowyDataFolder { items: vec![folder()] });
    assert_eq!(run.outcome(), None);
}

#[test]
fn rendezvous_needs_join_and_value() {
    assert!(matches!(rendezvous_outcome(false, Some(Ok(()))), StepOutcome::Failed(UserError::TaskJoin)));
    assert!(matches!(rendezvous_outcome(true, None), StepOutcome::Failed(UserError::TaskJoin)));
    assert!(matches!(rendezvous_outcome(true, Some(Ok(()))), StepOutcome::Completed));
    assert!(matches!(
        rendezvous_outcome(true, Some(Err(UserError::RemoteService))),
        StepOutcome::Failed(UserError::RemoteService)
    ));
}
