use vstd::prelude::*;

use crate::table::{key_of, WorkspaceTable};
use crate::workspace::{
    convertible, row_of, workspace_views, RowView, UserWorkspace, UserWorkspaceTable, WorkspaceView,
};

verus! {

/// The table that results from applying the remote records `ws` for local
/// user `uid` to table `m`, in order: each record that converts is written
/// under its key, updating the row already there or adding one; a record that
/// does not convert is dropped.
pub open spec fn reconcile(
    m: Map<(i64, Seq<char>), RowView>,
    uid: i64,
    ws: Seq<WorkspaceView>,
) -> Map<(i64, Seq<char>), RowView>
    decreases ws.len(),
{
    if ws.len() == 0 {
        m
    } else {
        let prev = reconcile(m, uid, ws.drop_last());
        let w = ws.last();
        if convertible(w) {
            prev.insert((uid, w.id), row_of(uid, w))
        } else {
            prev
        }
    }
}

/// The keys that the records `ws` write for local user `uid`.
pub open spec fn written_keys(uid: i64, ws: Seq<WorkspaceView>) -> Set<(i64, Seq<char>)> {
    Set::new(
        |k: (i64, Seq<char>)|
            exists|i: int| 0 <= i < ws.len() && convertible(ws[i]) && k == (uid, ws[i].id),
    )
}

/// Applies the remote workspace records `user_workspaces` to the local table
/// for local user `uid`, as one transaction: each record that converts updates
/// the row with its key, or is inserted where there is none; the others are
/// skipped.
pub fn save_user_workspaces(uid: i64, table: &mut WorkspaceTable, user_workspaces: &[UserWorkspace])
    requires
        old(table).wf(),
    ensures
        final(table).wf(),
        final(table)@ == reconcile(old(table)@, uid, workspace_views(user_workspaces@)),
{
    let ghost views = workspace_views(user_workspaces@);
    let mut i: usize = 0;
    while i < user_workspaces.len()
        invariant
            table.wf(),
            0 <= i <= user_workspaces@.len(),
            views == workspace_views(user_workspaces@),
            table@ == reconcile(old(table)@, uid, views.subrange(0, i as int)),
        decreases user_workspaces@.len() - i,
    {
        proof {
            assert(views.subrange(0, i + 1).drop_last() =~= views.subrange(0, i as int));
            assert(views.subrange(0, i + 1).last() == user_workspaces@[i as int]@);
        }
        match UserWorkspaceTable::try_from_workspace(uid, &user_workspaces[i]) {
            Ok(row) => {
                table.upsert(row);
            },
            Err(_) => {},
        }
        i = i + 1;
    }
    assert(views.subrange(0, i as int) =~= views);
}

proof fn lemma_reconcile_union(m: Map<(i64, Seq<char>), RowView>, uid: i64, ws: Seq<WorkspaceView>)
    ensures
        reconcile(m, uid, ws) == m.union_prefer_right(reconcile(Map::empty(), uid, ws)),
    decreases ws.len(),
{
    if ws.len() == 0 {
        assert(m.union_prefer_right(Map::empty()) =~= m);
    } else {
        lemma_reconcile_union(m, uid, ws.drop_last());
        let b = reconcile(Map::empty(), uid, ws.drop_last());
        let w = ws.last();
        if convertible(w) {
            assert(m.union_prefer_right(b).insert((uid, w.id), row_of(uid, w)) =~= m.union_prefer_right(
                b.insert((uid, w.id), row_of(uid, w)),
            ));
        }
    }
}

/// Applying the same remote records twice leaves the table as applying them
/// once does.
pub proof fn lemma_reconcile_idempotent(
    m: Map<(i64, Seq<char>), RowView>,
    uid: i64,
    ws: Seq<WorkspaceView>,
)
    ensures
        reconcile(reconcile(m, uid, ws), uid, ws) == reconcile(m, uid, ws),
{
    let b = reconcile(Map::empty(), uid, ws);
    lemma_reconcile_union(m, uid, ws);
    lemma_reconcile_union(reconcile(m, uid, ws), uid, ws);
    assert(m.union_prefer_right(b).union_prefer_right(b) =~= m.union_prefer_right(b));
}

/// Reconciling keeps every row that was there and adds one row for each key
/// that a converting record writes: no other key appears.
pub proof fn lemma_reconcile_domain(
    m: Map<(i64, Seq<char>), RowView>,
    uid: i64,
    ws: Seq<WorkspaceView>,
)
    ensures
        reconcile(m, uid, ws).dom() == m.dom().union(written_keys(uid, ws)),
    decreases ws.len(),
{
    if ws.len() > 0 {
        let p = ws.drop_last();
        lemma_reconcile_domain(m, uid, p);
        assert forall|k: (i64, Seq<char>)| #[trigger]
            written_keys(uid, ws).contains(k) == (written_keys(uid, p).contains(k) || (convertible(
                ws.last(),
            ) && k == (uid, ws.last().id))) by {
            if written_keys(uid, ws).contains(k) {
                let i = choose|i: int| 0 <= i < ws.len() && convertible(ws[i]) && k == (uid, ws[i].id);
                if i < ws.len() - 1 {
                    assert(p[i] == ws[i]);
                }
            }
            if written_keys(uid, p).contains(k) {
                let i = choose|i: int| 0 <= i < p.len() && convertible(p[i]) && k == (uid, p[i].id);
                assert(p[i] == ws[i]);
            }
            if convertible(ws.last()) && k == (uid, ws.last().id) {
                assert(ws[ws.len() - 1] == ws.last());
            }
        }
        assert(reconcile(m, uid, ws).dom() =~= m.dom().union(written_keys(uid, ws)));
    } else {
        assert(m.dom().union(written_keys(uid, ws)) =~= m.dom());
    }
}

/// After reconciling, the key of a converting record holds that record's row,
/// when no later record has the same identifier.
pub proof fn lemma_reconcile_last_record(
    m: Map<(i64, Seq<char>), RowView>,
    uid: i64,
    ws: Seq<WorkspaceView>,
    j: int,
)
    requires
        0 <= j < ws.len(),
        convertible(ws[j]),
        forall|l: int| j < l < ws.len() ==> ws[l].id != ws[j].id,
    ensures
        reconcile(m, uid, ws).contains_key((uid, ws[j].id)),
        reconcile(m, uid, ws)[(uid, ws[j].id)] == row_of(uid, ws[j]),
    decreases ws.len(),
{
    if j < ws.len() - 1 {
        let p = ws.drop_last();
        assert(p[j] == ws[j]);
        assert(ws.last().id != ws[j].id);
        lemma_reconcile_last_record(m, uid, p, j);
    }
}

/// When the table already holds workspace `ws[j].id` for `uid`, reconciling
/// updates that row to the record's fields: its key keeps one row, and no key
/// appears but those the records write.
pub proof fn lemma_update_preserves_identity(
    m: Map<(i64, Seq<char>), RowView>,
    uid: i64,
    ws: Seq<WorkspaceView>,
    j: int,
)
    requires
        0 <= j < ws.len(),
        convertible(ws[j]),
        forall|l: int| j < l < ws.len() ==> ws[l].id != ws[j].id,
        m.contains_key((uid, ws[j].id)),
    ensures
        reconcile(m, uid, ws)[(uid, ws[j].id)] == row_of(uid, ws[j]),
        reconcile(m, uid, ws).dom() == m.dom().union(written_keys(uid, ws)),
        m.dom().union(written_keys(uid, ws).remove((uid, ws[j].id))) == reconcile(m, uid, ws).dom(),
{
    lemma_reconcile_last_record(m, uid, ws, j);
    lemma_reconcile_domain(m, uid, ws);
    assert(m.dom().union(written_keys(uid, ws).remove((uid, ws[j].id))) =~= m.dom().union(
        written_keys(uid, ws),
    ));
}

/// When the table holds no row for workspace `ws[j].id` of `uid`, reconciling
/// adds one, with the record's fields.
pub proof fn lemma_insert_on_miss(
    m: Map<(i64, Seq<char>), RowView>,
    uid: i64,
    ws: Seq<WorkspaceView>,
    j: int,
)
    requires
        0 <= j < ws.len(),
        convertible(ws[j]),
        forall|l: int| j < l < ws.len() ==> ws[l].id != ws[j].id,
        !m.contains_key((uid, ws[j].id)),
    ensures
        reconcile(m, uid, ws).contains_key((uid, ws[j].id)),
        reconcile(m, uid, ws)[(uid, ws[j].id)] == row_of(uid, ws[j]),
        reconcile(m, uid, ws).dom() == m.dom().union(written_keys(uid, ws)),
{
    lemma_reconcile_last_record(m, uid, ws, j);
    lemma_reconcile_domain(m, uid, ws);
}

/// Every row after reconciling is whole: either the row that was there, or
/// the row of one converting record, never a mix of the two.
pub proof fn lemma_reconcile_rows_whole(
    m: Map<(i64, Seq<char>), RowView>,
    uid: i64,
    ws: Seq<WorkspaceView>,
    k: (i64, Seq<char>),
)
    requires
        reconcile(m, uid, ws).contains_key(k),
    ensures
        (m.contains_key(k) && reconcile(m, uid, ws)[k] == m[k]) || exists|i: int|
            0 <= i < ws.len() && convertible(ws[i]) && key_of(row_of(uid, ws[i])) == k
                && reconcile(m, uid, ws)[k] == row_of(uid, ws[i]),
    decreases ws.len(),
{
    if ws.len() > 0 {
        let p = ws.drop_last();
        let n = ws.len() - 1;
        if convertible(ws.last()) && k == (uid, ws.last().id) {
            assert(ws[n] == ws.last());
            assert(key_of(row_of(uid, ws[n])) == k);
        } else {
            lemma_reconcile_rows_whole(m, uid, p, k);
            if !(m.contains_key(k) && reconcile(m, uid, ws)[k] == m[k]) {
                let i = choose|i: int|
                    0 <= i < p.len() && convertible(p[i]) && key_of(row_of(uid, p[i])) == k
                        && reconcile(m, uid, p)[k] == row_of(uid, p[i]);
                assert(p[i] == ws[i]);
            }
        }
    }
}

} // verus!
