use vstd::prelude::*;

use crate::error::UserError;

verus! {

/// A view of the legacy folder, with the view it hangs under.
#[derive(Clone, Debug)]
pub struct ImportedView {
    pub view_id: String,
    pub parent_view_id: String,
    pub name: String,
}

/// A database and the views that reference it.
#[derive(Clone, Debug)]
pub struct DatabaseViewIds {
    pub database_id: String,
    pub view_ids: Vec<String>,
}

/// One unit of legacy data, imported on its own.
#[derive(Clone, Debug)]
pub enum AppFlowyData {
    /// A part of the view hierarchy, with the databases its views reference.
    Folder { views: Vec<ImportedView>, database_view_ids_by_database_id: Vec<DatabaseViewIds> },
    /// Collaborative objects to upload as they are.
    CollabObject {
        row_object_ids: Vec<String>,
        document_object_ids: Vec<String>,
        database_object_ids: Vec<String>,
    },
}

/// The legacy data extracted for one import.
#[derive(Clone, Debug)]
pub enum ImportData {
    AppFlowyDataFolder { items: Vec<AppFlowyData> },
}

/// One step of an import, carried out by the caller.
#[derive(Clone, Debug)]
pub enum ImportTask {
    /// Register the database/view associations of a folder unit.
    ImportDatabaseViews(Vec<DatabaseViewIds>),
    /// Import the views of a folder unit.
    ImportViews(Vec<ImportedView>),
    /// Resolve the destination profile and a live handle to the legacy object
    /// store.
    OpenCollabDb,
    /// Upload the objects of a collaborative-object unit to the destination
    /// workspace.
    UploadCollabObjects {
        row_object_ids: Vec<String>,
        document_object_ids: Vec<String>,
        database_object_ids: Vec<String>,
    },
}

/// What came of carrying out one step.
#[derive(Clone, Debug)]
pub enum StepOutcome {
    Completed,
    Failed(UserError),
    /// The legacy object store's owner was torn down: its handle could not be
    /// upgraded.
    CollabDbReleased,
}

/// The two steps of one unit: a folder's database/view associations before
/// its views, and a live object-store handle before any upload.
pub open spec fn unit_tasks(item: AppFlowyData) -> Seq<ImportTask> {
    match item {
        AppFlowyData::Folder { views, database_view_ids_by_database_id } => seq![
            ImportTask::ImportDatabaseViews(database_view_ids_by_database_id),
            ImportTask::ImportViews(views),
        ],
        AppFlowyData::CollabObject { row_object_ids, document_object_ids, database_object_ids } => seq![
            ImportTask::OpenCollabDb,
            ImportTask::UploadCollabObjects {
                row_object_ids,
                document_object_ids,
                database_object_ids,
            },
        ],
    }
}

/// The steps of an import: the steps of each unit, unit after unit.
pub open spec fn import_plan(items: Seq<AppFlowyData>) -> Seq<ImportTask>
    decreases items.len(),
{
    if items.len() == 0 {
        Seq::empty()
    } else {
        import_plan(items.drop_last()) + unit_tasks(items.last())
    }
}

/// The units of extracted legacy data.
pub open spec fn import_items(data: ImportData) -> Seq<AppFlowyData> {
    match data {
        ImportData::AppFlowyDataFolder { items } => items@,
    }
}

proof fn lemma_import_plan_len(items: Seq<AppFlowyData>)
    ensures
        import_plan(items).len() == 2 * items.len(),
    decreases items.len(),
{
    if items.len() > 0 {
        lemma_import_plan_len(items.drop_last());
        assert(unit_tasks(items.last()).len() == 2);
    }
}

/// Unit `j` of an import is carried out as steps `2j` and `2j + 1`.
pub proof fn lemma_import_plan_units(items: Seq<AppFlowyData>, j: int)
    requires
        0 <= j < items.len(),
    ensures
        import_plan(items).len() == 2 * items.len(),
        import_plan(items)[2 * j] == unit_tasks(items[j])[0],
        import_plan(items)[2 * j + 1] == unit_tasks(items[j])[1],
    decreases items.len(),
{
    let p = items.drop_last();
    lemma_import_plan_len(items);
    lemma_import_plan_len(p);
    assert(unit_tasks(items.last()).len() == 2);
    if j < items.len() - 1 {
        assert(p[j] == items[j]);
        lemma_import_plan_units(p, j);
    }
}

/// A folder unit registers its database/view associations in the step just
/// before the one that imports its views, whatever order its fields are given
/// in.
pub proof fn lemma_folder_databases_before_views(items: Seq<AppFlowyData>, j: int)
    requires
        0 <= j < items.len(),
        items[j] is Folder,
    ensures
        import_plan(items)[2 * j] == ImportTask::ImportDatabaseViews(
            items[j]->Folder_database_view_ids_by_database_id,
        ),
        import_plan(items)[2 * j + 1] == ImportTask::ImportViews(items[j]->Folder_views),
{
    lemma_import_plan_units(items, j);
}

/// A collaborative-object unit uploads only in the step after the one that
/// opens the object store.
pub proof fn lemma_collab_db_opened_before_upload(items: Seq<AppFlowyData>, j: int)
    requires
        0 <= j < items.len(),
        items[j] is CollabObject,
    ensures
        import_plan(items)[2 * j] == ImportTask::OpenCollabDb,
        import_plan(items)[2 * j + 1] is UploadCollabObjects,
{
    lemma_import_plan_units(items, j);
}

/// The result of a step run on a task of its own and reported through a
/// one-shot channel: `joined` tells whether the task ran to its end, and
/// `received` is what came through the channel. Both must succeed.
pub fn rendezvous_outcome(joined: bool, received: Option<Result<(), UserError>>) -> (r: StepOutcome)
    ensures
        !joined ==> r == StepOutcome::Failed(UserError::TaskJoin),
        joined && received is None ==> r == StepOutcome::Failed(UserError::TaskJoin),
        joined && received == Some(Ok::<(), UserError>(())) ==> r == StepOutcome::Completed,
        joined ==> (received matches Some(Err(e)) ==> r == StepOutcome::Failed(e)),
{
    if !joined {
        return StepOutcome::Failed(UserError::TaskJoin);
    }
    match received {
        None => StepOutcome::Failed(UserError::TaskJoin),
        Some(Ok(())) => StepOutcome::Completed,
        Some(Err(e)) => StepOutcome::Failed(e),
    }
}

/// An import in progress: its steps are carried out one at a time, in order,
/// and the first failure ends it. Steps already completed stay completed.
pub struct ImportRun {
    uid: i64,
    tasks: Vec<ImportTask>,
    done: usize,
    failure: Option<UserError>,
}

impl ImportRun {
    /// The local user the data is imported for.
    pub closed spec fn spec_uid(&self) -> i64 {
        self.uid
    }

    /// The steps of the import.
    pub closed spec fn spec_tasks(&self) -> Seq<ImportTask> {
        self.tasks@
    }

    /// How many steps have completed.
    pub closed spec fn spec_done(&self) -> nat {
        self.done as nat
    }

    /// The failure that ended the import, if one did.
    pub closed spec fn spec_failure(&self) -> Option<UserError> {
        self.failure
    }

    pub closed spec fn wf(&self) -> bool {
        self.done <= self.tasks@.len()
    }

    /// Steps remain and none has failed.
    pub open spec fn is_running(&self) -> bool {
        self.spec_failure() is None && self.spec_done() < self.spec_tasks().len()
    }

    /// Plans the import of `data` for local user `uid`.
    pub fn new(uid: i64, data: ImportData) -> (r: ImportRun)
        ensures
            r.wf(),
            r.spec_uid() == uid,
            r.spec_tasks() == import_plan(import_items(data)),
            r.spec_done() == 0,
            r.spec_failure() is None,
    {
        let ghost all = import_items(data);
        let mut items = match data {
            ImportData::AppFlowyDataFolder { items } => items,
        };
        let mut tasks: Vec<ImportTask> = Vec::new();
        let ghost mut k: int = 0;
        while items.len() > 0
            invariant
                0 <= k <= all.len(),
                items@ == all.subrange(k, all.len() as int),
                tasks@ == import_plan(all.subrange(0, k)),
            decreases items@.len(),
        {
            let item = items.remove(0);
            proof {
                assert(item == all[k]);
                assert(all.subrange(0, k + 1).drop_last() =~= all.subrange(0, k));
                assert(all.subrange(0, k + 1).last() == all[k]);
            }
            match item {
                AppFlowyData::Folder { views, database_view_ids_by_database_id } => {
                    tasks.push(ImportTask::ImportDatabaseViews(database_view_ids_by_database_id));
                    tasks.push(ImportTask::ImportViews(views));
                },
                AppFlowyData::CollabObject {
                    row_object_ids,
                    document_object_ids,
                    database_object_ids,
                } => {
                    tasks.push(ImportTask::OpenCollabDb);
                    tasks.push(
                        ImportTask::UploadCollabObjects {
                            row_object_ids,
                            document_object_ids,
                            database_object_ids,
                        },
                    );
                },
            }
            proof {
                assert(tasks@ =~= import_plan(all.subrange(0, k)) + unit_tasks(all[k]));
                k = k + 1;
                assert(items@ =~= all.subrange(k, all.len() as int));
            }
        }
        assert(all.subrange(0, k) =~= all);
        ImportRun { uid, tasks, done: 0, failure: None }
    }

    /// The local user the data is imported for.
    pub fn uid(&self) -> (r: i64)
        ensures
            r == self.spec_uid(),
    {
        self.uid
    }

    /// The step to carry out next, while the import runs.
    pub fn next_task(&self) -> (r: Option<&ImportTask>)
        requires
            self.wf(),
        ensures
            r is Some <==> self.is_running(),
            r matches Some(t) ==> *t == self.spec_tasks()[self.spec_done() as int],
    {
        if self.failure.is_none() && self.done < self.tasks.len() {
            Some(&self.tasks[self.done])
        } else {
            None
        }
    }

    /// The result of the import once it has ended: the first failure, or
    /// success once every step has completed; none while it runs.
    pub fn outcome(&self) -> (r: Option<Result<(), UserError>>)
        requires
            self.wf(),
        ensures
            self.spec_failure() matches Some(e) ==> r == Some(Err::<(), UserError>(e)),
            self.spec_failure() is None && self.spec_done() == self.spec_tasks().len() ==> r == Some(
                Ok::<(), UserError>(()),
            ),
            self.is_running() ==> r is None,
    {
        match self.failure {
            Some(e) => Some(Err(e)),
            None => {
                if self.done == self.tasks.len() {
                    Some(Ok(()))
                } else {
                    None
                }
            },
        }
    }

    /// Records what came of the current step. A completed step moves the
    /// import on to the next; a failure ends it, and a released object-store
    /// handle ends it with `CollabDbUnavailable`. The steps already completed
    /// are kept as they are. Once the import has ended, nothing changes.
    pub fn record(&mut self, outcome: StepOutcome)
        requires
            old(self).wf(),
        ensures
            final(self).wf(),
            final(self).spec_uid() == old(self).spec_uid(),
            final(self).spec_tasks() == old(self).spec_tasks(),
            !old(self).is_running() ==> *final(self) == *old(self),
            old(self).is_running() ==> match outcome {
                StepOutcome::Completed => final(self).spec_done() == old(self).spec_done() + 1
                    && final(self).spec_failure() is None,
                StepOutcome::Failed(e) => final(self).spec_done() == old(self).spec_done()
                    && final(self).spec_failure() == Some(e),
                StepOutcome::CollabDbReleased => final(self).spec_done() == old(self).spec_done()
                    && final(self).spec_failure() == Some(UserError::CollabDbUnavailable),
            },
    {
        if self.failure.is_some() || self.done >= self.tasks.len() {
            return;
        }
        match outcome {
            StepOutcome::Completed => {
                self.done = self.done + 1;
            },
            StepOutcome::Failed(e) => {
                self.failure = Some(e);
            },
            StepOutcome::CollabDbReleased => {
                self.failure = Some(UserError::CollabDbUnavailable);
            },
        }
    }
}

} // verus!
