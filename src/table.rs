use vstd::prelude::*;

use crate::workspace::{workspace_of, RowView, UserWorkspace, UserWorkspaceTable, WorkspaceView};

verus! {

/// The key of the local workspace table: a row is identified by the local
/// user it is cached for and the workspace identifier.
pub open spec fn key_of(r: RowView) -> (i64, Seq<char>) {
    (r.uid, r.id)
}

/// The table's content as a map from key to row: the order of the rows is
/// not part of what the table holds.
pub open spec fn table_map(rows: Seq<RowView>) -> Map<(i64, Seq<char>), RowView>
    decreases rows.len(),
{
    if rows.len() == 0 {
        Map::empty()
    } else {
        table_map(rows.drop_last()).insert(key_of(rows.last()), rows.last())
    }
}

/// No two rows share a key.
pub open spec fn keys_unique(rows: Seq<RowView>) -> bool {
    forall|i: int, j: int|
        0 <= i < rows.len() && 0 <= j < rows.len() && i != j ==> key_of(rows[i]) != key_of(rows[j])
}

/// `ws` lists exactly the workspaces that table `m` holds for local user
/// `uid`, each one once, in any order.
pub open spec fn lists_user_workspaces(
    m: Map<(i64, Seq<char>), RowView>,
    uid: i64,
    ws: Seq<WorkspaceView>,
) -> bool {
    &&& forall|i: int|
        0 <= i < ws.len() ==> #[trigger] m.contains_key((uid, ws[i].id)) && workspace_of(
            m[(uid, ws[i].id)],
        ) == ws[i]
    &&& forall|i: int, j: int| 0 <= i < j < ws.len() ==> ws[i].id != ws[j].id
    &&& forall|k: (i64, Seq<char>)|
        #[trigger] m.contains_key(k) && k.0 == uid ==> exists|i: int| 0 <= i < ws.len() && ws[i].id == k.1
}

/// The local workspace table: at most one row per (local user, workspace).
pub struct WorkspaceTable {
    rows: Vec<UserWorkspaceTable>,
}

impl WorkspaceTable {
    pub closed spec fn rows_view(&self) -> Seq<RowView> {
        self.rows@.map_values(|r: UserWorkspaceTable| r@)
    }

    /// The table's well-formedness: its rows have distinct keys.
    pub closed spec fn wf(&self) -> bool {
        keys_unique(self.rows_view())
    }
}

impl View for WorkspaceTable {
    type V = Map<(i64, Seq<char>), RowView>;

    closed spec fn view(&self) -> Map<(i64, Seq<char>), RowView> {
        table_map(self.rows_view())
    }
}

proof fn lemma_table_map_keys(rows: Seq<RowView>)
    ensures
        forall|k: (i64, Seq<char>)| #[trigger]
            table_map(rows).contains_key(k) ==> exists|i: int| 0 <= i < rows.len() && key_of(rows[i]) == k,
        forall|i: int| 0 <= i < rows.len() ==> #[trigger] table_map(rows).contains_key(key_of(rows[i])),
    decreases rows.len(),
{
    if rows.len() > 0 {
        let p = rows.drop_last();
        lemma_table_map_keys(p);
        assert forall|k: (i64, Seq<char>)| #[trigger] table_map(rows).contains_key(k) implies exists|i: int|
            0 <= i < rows.len() && key_of(rows[i]) == k by {
            if k != key_of(rows.last()) {
                assert(table_map(p).contains_key(k));
                let i = choose|i: int| 0 <= i < p.len() && key_of(p[i]) == k;
                assert(rows[i] == p[i]);
            } else {
                assert(key_of(rows[rows.len() - 1]) == k);
            }
        }
        assert forall|i: int| 0 <= i < rows.len() implies #[trigger] table_map(rows).contains_key(
            key_of(rows[i]),
        ) by {
            if i < rows.len() - 1 {
                assert(rows[i] == p[i]);
                assert(table_map(p).contains_key(key_of(p[i])));
            }
        }
    }
}

proof fn lemma_table_map_lookup(rows: Seq<RowView>, i: int)
    requires
        keys_unique(rows),
        0 <= i < rows.len(),
    ensures
        table_map(rows).contains_key(key_of(rows[i])),
        table_map(rows)[key_of(rows[i])] == rows[i],
    decreases rows.len(),
{
    lemma_table_map_keys(rows);
    if i < rows.len() - 1 {
        let p = rows.drop_last();
        assert(rows[i] == p[i]);
        lemma_table_map_lookup(p, i);
        assert(key_of(rows[i]) != key_of(rows[rows.len() - 1]));
    }
}

proof fn lemma_table_map_update(rows: Seq<RowView>, i: int, r: RowView)
    requires
        keys_unique(rows),
        0 <= i < rows.len(),
        key_of(rows[i]) == key_of(r),
    ensures
        keys_unique(rows.update(i, r)),
        table_map(rows.update(i, r)) == table_map(rows).insert(key_of(r), r),
    decreases rows.len(),
{
    let u = rows.update(i, r);
    let p = rows.drop_last();
    if i == rows.len() - 1 {
        assert(u.drop_last() =~= p);
        assert(table_map(u) =~= table_map(rows).insert(key_of(r), r));
    } else {
        assert(u.drop_last() =~= p.update(i, r));
        lemma_table_map_update(p, i, r);
        assert(key_of(rows.last()) != key_of(r));
        assert(table_map(u) =~= table_map(rows).insert(key_of(r), r));
    }
}

proof fn lemma_table_map_push(rows: Seq<RowView>, r: RowView)
    requires
        keys_unique(rows),
        !table_map(rows).contains_key(key_of(r)),
    ensures
        keys_unique(rows.push(r)),
        table_map(rows.push(r)) == table_map(rows).insert(key_of(r), r),
{
    lemma_table_map_keys(rows);
    assert(rows.push(r).drop_last() =~= rows);
    assert forall|i: int| 0 <= i < rows.len() implies key_of(rows[i]) != key_of(r) by {
        assert(table_map(rows).contains_key(key_of(rows[i])));
    }
}

impl WorkspaceTable {
    /// An empty table.
    pub fn new() -> (r: WorkspaceTable)
        ensures
            r.wf(),
            r@ == Map::<(i64, Seq<char>), RowView>::empty(),
    {
        let r = WorkspaceTable { rows: Vec::new() };
        assert(r.rows_view() =~= Seq::<RowView>::empty());
        r
    }

    /// Writes `row` under its key: the row already stored there is updated in
    /// place, else `row` is added.
    pub fn upsert(&mut self, row: UserWorkspaceTable)
        requires
            old(self).wf(),
        ensures
            final(self).wf(),
            final(self)@ == old(self)@.insert(key_of(row@), row@),
    {
        let ghost rv = self.rows_view();
        let mut i: usize = 0;
        while i < self.rows.len()
            invariant
                self.rows_view() == rv,
                old(self).rows_view() == rv,
                keys_unique(rv),
                0 <= i <= self.rows@.len(),
                forall|j: int| 0 <= j < i ==> key_of(#[trigger] rv[j]) != key_of(row@),
            decreases self.rows@.len() - i,
        {
            if self.rows[i].uid == row.uid && self.rows[i].id == row.id {
                proof {
                    assert(rv[i as int] == self.rows@[i as int]@);
                    lemma_table_map_update(rv, i as int, row@);
                }
                let ghost rw = row@;
                self.rows.set(i, row);
                assert(self.rows_view() =~= rv.update(i as int, rw));
                return;
            }
            assert(rv[i as int] == self.rows@[i as int]@);
            i = i + 1;
        }
        proof {
            lemma_table_map_keys(rv);
            if table_map(rv).contains_key(key_of(row@)) {
                let j = choose|j: int| 0 <= j < rv.len() && key_of(rv[j]) == key_of(row@);
                assert(key_of(rv[j]) != key_of(row@));
            }
            lemma_table_map_push(rv, row@);
        }
        self.rows.push(row);
        assert(self.rows_view() =~= rv.push(row@));
    }

    /// The row cached for workspace `workspace_id` of local user `uid`, if any.
    pub fn find(&self, uid: i64, workspace_id: &str) -> (r: Option<&UserWorkspaceTable>)
        requires
            self.wf(),
        ensures
            r matches Some(row) ==> self@.contains_key((uid, workspace_id@)) && row@ == self@[(
                uid,
                workspace_id@,
            )],
            r is None ==> !self@.contains_key((uid, workspace_id@)),
    {
        let ghost rv = self.rows_view();
        let wanted = workspace_id.to_owned();
        let mut i: usize = 0;
        while i < self.rows.len()
            invariant
                self.rows_view() == rv,
                self.wf(),
                wanted@ == workspace_id@,
                0 <= i <= self.rows@.len(),
                forall|j: int| 0 <= j < i ==> key_of(#[trigger] rv[j]) != (uid, workspace_id@),
            decreases self.rows@.len() - i,
        {
            assert(rv[i as int] == self.rows@[i as int]@);
            if self.rows[i].uid == uid && self.rows[i].id == wanted {
                proof {
                    lemma_table_map_lookup(rv, i as int);
                }
                return Some(&self.rows[i]);
            }
            i = i + 1;
        }
        proof {
            lemma_table_map_keys(rv);
            if table_map(rv).contains_key((uid, workspace_id@)) {
                let j = choose|j: int| 0 <= j < rv.len() && key_of(rv[j]) == (uid, workspace_id@);
                assert(key_of(rv[j]) != (uid, workspace_id@));
            }
        }
        None
    }

    /// The workspaces cached for local user `uid`.
    pub fn load_for_user(&self, uid: i64) -> (r: Vec<UserWorkspace>)
        requires
            self.wf(),
        ensures
            lists_user_workspaces(self@, uid, r@.map_values(|w: UserWorkspace| w@)),
    {
        let ghost rv = self.rows_view();
        let ghost mut idx: Seq<int> = Seq::empty();
        let mut out: Vec<UserWorkspace> = Vec::new();
        let mut i: usize = 0;
        while i < self.rows.len()
            invariant
                self.rows_view() == rv,
                self.wf(),
                0 <= i <= self.rows@.len(),
                idx.len() == out@.len(),
                forall|l: int|
                    0 <= l < idx.len() ==> 0 <= #[trigger] idx[l] < i && rv[idx[l]].uid == uid
                        && out@[l]@ == workspace_of(rv[idx[l]]),
                forall|l: int, n: int| 0 <= l < n < idx.len() ==> idx[l] < idx[n],
                forall|j: int|
                    0 <= j < i && (#[trigger] rv[j]).uid == uid ==> exists|l: int|
                        0 <= l < idx.len() && idx[l] == j,
            decreases self.rows@.len() - i,
        {
            assert(rv[i as int] == self.rows@[i as int]@);
            let ghost idx0 = idx;
            if self.rows[i].uid == uid {
                let w = UserWorkspace::from_row(&self.rows[i]);
                out.push(w);
                proof {
                    let n = idx.len() as int;
                    idx = idx.push(i as int);
                    assert(idx[n] == i as int);
                }
            }
            proof {
                assert forall|j: int| 0 <= j < i + 1 && (#[trigger] rv[j]).uid == uid implies exists|l: int|
                    0 <= l < idx.len() && idx[l] == j by {
                    if j < i {
                        let l = choose|l: int| 0 <= l < idx0.len() && idx0[l] == j;
                        assert(idx[l] == j);
                    } else {
                        assert(idx[idx.len() - 1] == j);
                    }
                }
            }
            i = i + 1;
        }
        proof {
            let ws = out@.map_values(|w: UserWorkspace| w@);
            let m = table_map(rv);
            lemma_table_map_keys(rv);
            assert forall|l: int| 0 <= l < ws.len() implies #[trigger] m.contains_key((uid, ws[l].id))
                && workspace_of(m[(uid, ws[l].id)]) == ws[l] by {
                lemma_table_map_lookup(rv, idx[l]);
                assert(key_of(rv[idx[l]]) == (uid, ws[l].id));
            }
            assert forall|l: int, n: int| 0 <= l < n < ws.len() implies ws[l].id != ws[n].id by {
                assert(key_of(rv[idx[l]]) == (uid, ws[l].id));
                assert(key_of(rv[idx[n]]) == (uid, ws[n].id));
            }
            assert forall|k: (i64, Seq<char>)| #[trigger] m.contains_key(k) && k.0 == uid implies exists|
                l: int,
            | 0 <= l < ws.len() && ws[l].id == k.1 by {
                let j = choose|j: int| 0 <= j < rv.len() && key_of(rv[j]) == k;
                assert(rv[j].uid == uid);
                let l = choose|l: int| 0 <= l < idx.len() && idx[l] == j;
                assert(ws[l].id == k.1);
            }
        }
        out
    }
}

} // verus!
