use vstd::prelude::*;
use crate::checksum::{checksum_rows, state_checksum};
use crate::delta::{
    apply_delta, apply_ops, contains_row, find_row, find_row_index, lemma_apply_ops_concat,
    lemma_apply_ops_singleton, lemma_replace_first_at, remove_rows, remove_rows_exec,
    replace_first, BlockDelta, OpView, RowOp,
};
use crate::errors::RevError;
use crate::revision::{
    ascending, checksums_ok_from, replay, replay_from, valid_history, GridBlockMetaChange,
    RevView, Revision,
};
use crate::row::{clone_cells, CellMeta, CellView, RowMeta, RowMetaChangeset, RowView};

verus! {

// ---------------------------------------------------------------------------
// Cell updates
// ---------------------------------------------------------------------------

/// Writes one cell: replaces the first cell of the same field, or appends.
pub open spec fn set_cell(cells: Seq<CellView>, c: CellView) -> Seq<CellView>
    decreases cells.len(),
{
    if cells.len() == 0 {
        seq![c]
    } else if cells[0].field_id == c.field_id {
        seq![c] + cells.skip(1)
    } else {
        seq![cells[0]] + set_cell(cells.skip(1), c)
    }
}

/// Writes a sparse changeset's cells in order.
pub open spec fn apply_changeset(cells: Seq<CellView>, updates: Seq<CellView>) -> Seq<CellView>
    decreases updates.len(),
{
    if updates.len() == 0 {
        cells
    } else {
        apply_changeset(set_cell(cells, updates[0]), updates.skip(1))
    }
}

/// The row after a changeset: same ids, updated cells.
pub open spec fn updated_row(r: RowView, cells: Seq<CellView>) -> RowView {
    RowView { block_id: r.block_id, id: r.id, cells: apply_changeset(r.cells, cells) }
}

proof fn lemma_set_cell_at(cells: Seq<CellView>, c: CellView, i: int)
    requires
        0 <= i < cells.len(),
        cells[i].field_id == c.field_id,
        forall|k: int| 0 <= k < i ==> cells[k].field_id != c.field_id,
    ensures
        set_cell(cells, c) == cells.update(i, c),
    decreases i,
{
    if i == 0 {
        assert(seq![c] + cells.skip(1) =~= cells.update(0, c));
    } else {
        lemma_set_cell_at(cells.skip(1), c, i - 1);
        assert(cells.skip(1)[i - 1] == cells[i]);
        assert(seq![cells[0]] + cells.skip(1).update(i - 1, c) =~= cells.update(i, c));
    }
}

proof fn lemma_set_cell_absent(cells: Seq<CellView>, c: CellView)
    requires
        forall|k: int| 0 <= k < cells.len() ==> cells[k].field_id != c.field_id,
    ensures
        set_cell(cells, c) == cells.push(c),
    decreases cells.len(),
{
    if cells.len() == 0 {
        assert(seq![c] =~= cells.push(c));
    } else {
        lemma_set_cell_absent(cells.skip(1), c);
        assert(seq![cells[0]] + cells.skip(1).push(c) =~= cells.push(c));
    }
}

/// Writes one cell into a cell list, as `set_cell` says.
fn set_cell_exec(cells: &mut Vec<CellMeta>, c: CellMeta)
    ensures
        final(cells).deep_view() == set_cell(old(cells).deep_view(), c@),
{
    let ghost cs = cells.deep_view();
    let mut i: usize = 0;
    while i < cells.len()
        invariant
            i <= cells@.len(),
            cs == cells.deep_view(),
            cs == old(cells).deep_view(),
            forall|k: int| 0 <= k < i ==> cs[k].field_id != c@.field_id,
        decreases cells@.len() - i,
    {
        if cells[i].field_id == c.field_id {
            proof {
                lemma_set_cell_at(cs, c@, i as int);
            }
            cells.set(i, c);
            proof {
                assert(set_cell(cs, c@) == cs.update(i as int, c@));
                assert(cells.deep_view() =~= cs.update(i as int, c@));
            }
            return ;
        }
        i += 1;
    }
    proof {
        lemma_set_cell_absent(cs, c@);
    }
    cells.push(c);
    proof {
        assert(cells.deep_view() =~= cs.push(c@));
    }
}

/// Writes a changeset's cells in order, as `apply_changeset` says.
fn apply_changeset_exec(cells: &mut Vec<CellMeta>, updates: &Vec<CellMeta>)
    ensures
        final(cells).deep_view() == apply_changeset(old(cells).deep_view(), updates.deep_view()),
{
    let ghost start = cells.deep_view();
    let ghost ups = updates.deep_view();
    let mut i: usize = 0;
    proof {
        assert(ups.skip(0) =~= ups);
    }
    while i < updates.len()
        invariant
            i <= ups.len(),
            ups == updates.deep_view(),
            apply_changeset(start, ups) == apply_changeset(cells.deep_view(), ups.skip(i as int)),
        decreases ups.len() - i,
    {
        proof {
            assert(ups.skip(i as int)[0] == ups[i as int]);
            assert(ups.skip(i as int).skip(1) =~= ups.skip(i as int + 1));
        }
        set_cell_exec(cells, updates[i].clone());
        i += 1;
    }
    proof {
        assert(ups.skip(ups.len() as int) =~= Seq::<CellView>::empty());
    }
}

/// Whether two cell lists have the same model.
fn cells_equal(a: &Vec<CellMeta>, b: &Vec<CellMeta>) -> (r: bool)
    ensures
        r == (a.deep_view() == b.deep_view()),
{
    if a.len() != b.len() {
        proof {
            assert(a.deep_view().len() == a@.len());
            assert(b.deep_view().len() == b@.len());
            assert(a.deep_view() != b.deep_view());
        }
        return false;
    }
    let mut i: usize = 0;
    while i < a.len()
        invariant
            i <= a@.len(),
            a@.len() == b@.len(),
            forall|k: int| 0 <= k < i ==> a.deep_view()[k] == b.deep_view()[k],
        decreases a@.len() - i,
    {
        if !(a[i].field_id == b[i].field_id) || !(a[i].data == b[i].data) {
            proof {
                assert(a.deep_view()[i as int] != b.deep_view()[i as int]);
            }
            return false;
        }
        proof {
            assert(a.deep_view()[i as int] =~= b.deep_view()[i as int]);
        }
        i += 1;
    }
    proof {
        assert(a.deep_view() =~= b.deep_view());
    }
    true
}

// ---------------------------------------------------------------------------
// Batch deletion and batch reads, in specification form
// ---------------------------------------------------------------------------

/// The row collection after removing each named id in order.
pub open spec fn remove_all(rows: Seq<RowView>, ids: Seq<Seq<char>>) -> Seq<RowView>
    decreases ids.len(),
{
    if ids.len() == 0 {
        rows
    } else {
        remove_all(remove_rows(rows, ids[0]), ids.skip(1))
    }
}

/// The delete operations a batch deletion emits: one per named id that is
/// present at its turn; an absent id emits nothing.
pub open spec fn delete_ops(rows: Seq<RowView>, ids: Seq<Seq<char>>) -> Seq<OpView>
    decreases ids.len(),
{
    if ids.len() == 0 {
        Seq::empty()
    } else if contains_row(rows, ids[0]) {
        seq![OpView::Delete { row_id: ids[0] }]
            + delete_ops(remove_rows(rows, ids[0]), ids.skip(1))
    } else {
        delete_ops(rows, ids.skip(1))
    }
}

/// The requested ids that are absent, in request order.
pub open spec fn missing_ids(rows: Seq<RowView>, ids: Seq<Seq<char>>) -> Seq<Seq<char>>
    decreases ids.len(),
{
    if ids.len() == 0 {
        Seq::empty()
    } else {
        (if contains_row(rows, ids[0]) {
            Seq::empty()
        } else {
            seq![ids[0]]
        }) + missing_ids(rows, ids.skip(1))
    }
}

/// The rows the present requested ids name, in request order.
pub open spec fn selected_rows(rows: Seq<RowView>, ids: Seq<Seq<char>>) -> Seq<RowView>
    decreases ids.len(),
{
    if ids.len() == 0 {
        Seq::empty()
    } else {
        (match find_row(rows, ids[0]) {
            Some(r) => seq![r],
            None => Seq::empty(),
        }) + selected_rows(rows, ids.skip(1))
    }
}

/// Removing an absent id changes nothing.
pub proof fn lemma_remove_rows_absent(rows: Seq<RowView>, id: Seq<char>)
    requires
        !contains_row(rows, id),
    ensures
        remove_rows(rows, id) == rows,
    decreases rows.len(),
{
    if rows.len() == 0 {
        assert(remove_rows(rows, id) =~= rows);
    } else {
        lemma_remove_rows_absent(rows.skip(1), id);
        assert(seq![rows[0]] + rows.skip(1) =~= rows);
    }
}

// ---------------------------------------------------------------------------
// The pad
// ---------------------------------------------------------------------------

/// Materialized state of one block: its ordered row collection, built by
/// replaying the block's revision history and mutated in place for the
/// lifetime of an editor session.
pub struct GridBlockMetaPad {
    pub block_id: String,
    pub rows: Vec<RowMeta>,
}

impl GridBlockMetaPad {
    /// The pad's model: its ordered row collection.
    pub open spec fn rows_view(&self) -> Seq<RowView> {
        self.rows.deep_view()
    }

    /// An empty pad for a block with no history.
    pub fn new_empty(object_id: &str) -> (r: Self)
        ensures
            r.block_id@ == object_id@,
            r.rows_view() == Seq::<RowView>::empty(),
    {
        let pad = GridBlockMetaPad { block_id: object_id.to_owned(), rows: Vec::new() };
        proof {
            assert(pad.rows.deep_view() =~= Seq::<RowView>::empty());
        }
        pad
    }

    /// Builds the pad by replaying a revision history from empty state,
    /// verifying ascending revision ids and every content checksum along the
    /// way. Succeeds exactly on valid histories; a corrupt history (a checksum
    /// mismatch or ids out of order) is rejected whole.
    pub fn from_revisions(object_id: &str, revisions: &Vec<Revision>) -> (r: Result<
        Self,
        RevError,
    >)
        ensures
            r is Ok <==> valid_history(revisions.deep_view()),
            r matches Ok(pad) ==> pad.rows_view() == replay(revisions.deep_view())
                && pad.block_id@ == object_id@,
            r matches Err(e) ==> e is Load,
    {
        let ghost revs = revisions.deep_view();
        let mut rows: Vec<RowMeta> = Vec::new();
        let mut prev_id: u64 = 0;
        let mut i: usize = 0;
        proof {
            assert(revs.skip(0) =~= revs);
            assert(rows.deep_view() =~= Seq::<RowView>::empty());
        }
        while i < revisions.len()
            invariant
                i <= revs.len(),
                revs == revisions.deep_view(),
                i > 0 ==> prev_id == revs[i - 1].rev_id,
                forall|k: int| 0 <= k < i ==> revs[k].rev_id <= prev_id,
                forall|a: int, b: int| 0 <= a < b < i ==> revs[a].rev_id < revs[b].rev_id,
                checksums_ok_entry(revs) == checksums_ok_from(
                    rows.deep_view(),
                    revs.skip(i as int),
                ),
                replay(revs) == replay_from(rows.deep_view(), revs.skip(i as int)),
            decreases revs.len() - i,
        {
            proof {
                assert(revs.skip(i as int)[0] == revs[i as int]);
                assert(revs.skip(i as int).skip(1) =~= revs.skip(i as int + 1));
            }
            let ghost before = rows.deep_view();
            let rev = &revisions[i];
            if i > 0 && rev.rev_id <= prev_id {
                proof {
                    assert(revs[i - 1].rev_id >= revs[i as int].rev_id);
                    assert(!ascending(revs));
                }
                return Err(RevError::Load);
            }
            apply_delta(&mut rows, &rev.payload);
            let ck = checksum_rows(&rows);
            proof {
                assert(rows.deep_view() == apply_ops(before, revs[i as int].payload));
            }
            if ck != rev.checksum {
                proof {
                    assert(!checksums_ok_from(before, revs.skip(i as int)));
                }
                return Err(RevError::Load);
            }
            prev_id = rev.rev_id;
            i += 1;
        }
        proof {
            assert(revs.skip(revs.len() as int) =~= Seq::<RevView>::empty());
            assert(ascending(revs));
        }
        let pad = GridBlockMetaPad { block_id: object_id.to_owned(), rows };
        Ok(pad)
    }

    /// Adds a row to the block it belongs to. Returns the change to persist,
    /// or `None` (a no-op) when a row with the same id is already present.
    pub fn add_row(&mut self, row: RowMeta) -> (r: Option<GridBlockMetaChange>)
        requires
            row@.block_id == old(self).block_id@,
        ensures
            final(self).block_id == old(self).block_id,
            contains_row(old(self).rows_view(), row@.id) ==> r is None
                && final(self).rows_view() == old(self).rows_view(),
            !contains_row(old(self).rows_view(), row@.id) ==> (match r {
                Some(ch) => {
                    &&& ch.payload@ == seq![OpView::Insert { row: row@ }]
                    &&& final(self).rows_view() == old(self).rows_view().push(row@)
                    &&& final(self).rows_view() == apply_ops(old(self).rows_view(), ch.payload@)
                    &&& ch.checksum == state_checksum(final(self).rows_view())
                },
                None => false,
            }),
    {
        let ghost start = self.rows.deep_view();
        match find_row_index(&self.rows, &row.id) {
            Some(_) => None,
            None => {
                let op_row = row.clone();
                self.rows.push(row);
                proof {
                    assert(self.rows.deep_view() =~= start.push(op_row@));
                    let ins = OpView::Insert { row: op_row@ };
                    lemma_apply_ops_singleton(start, ins);
                }
                let ck = checksum_rows(&self.rows);
                let ops: Vec<RowOp> = vec![RowOp::InsertRow { row: op_row }];
                proof {
                    assert(ops.deep_view() =~= seq![OpView::Insert { row: row@ }]);
                }
                Some(GridBlockMetaChange { payload: BlockDelta { ops }, checksum: ck })
            },
        }
    }

    /// Deletes every named row. An id that is absent at its turn is skipped:
    /// batch deletion is an idempotent no-op on absent ids, never an error.
    /// Returns `None` when nothing was deleted.
    pub fn delete_rows(&mut self, row_ids: &Vec<String>) -> (r: Option<GridBlockMetaChange>)
        ensures
            final(self).block_id == old(self).block_id,
            final(self).rows_view() == remove_all(old(self).rows_view(), row_ids.deep_view()),
            r is Some <==> delete_ops(old(self).rows_view(), row_ids.deep_view()).len() > 0,
            r matches Some(ch) ==> {
                &&& ch.payload@ == delete_ops(old(self).rows_view(), row_ids.deep_view())
                &&& final(self).rows_view() == apply_ops(old(self).rows_view(), ch.payload@)
                &&& ch.checksum == state_checksum(final(self).rows_view())
            },
            r is None ==> final(self).rows_view() == old(self).rows_view(),
    {
        let ghost start = self.rows.deep_view();
        let ghost ids = row_ids.deep_view();
        let mut ops: Vec<RowOp> = Vec::new();
        let mut i: usize = 0;
        proof {
            assert(ids.skip(0) =~= ids);
            assert(ops.deep_view() =~= Seq::<OpView>::empty());
        }
        while i < row_ids.len()
            invariant
                i <= ids.len(),
                ids == row_ids.deep_view(),
                start == old(self).rows.deep_view(),
                self.block_id == old(self).block_id,
                self.rows.deep_view() == apply_ops(start, ops.deep_view()),
                remove_all(start, ids) == remove_all(self.rows.deep_view(), ids.skip(i as int)),
                delete_ops(start, ids) == ops.deep_view() + delete_ops(
                    self.rows.deep_view(),
                    ids.skip(i as int),
                ),
            decreases ids.len() - i,
        {
            proof {
                assert(ids.skip(i as int)[0] == ids[i as int]);
                assert(ids.skip(i as int).skip(1) =~= ids.skip(i as int + 1));
            }
            let ghost cur = self.rows.deep_view();
            let ghost prev_ops = ops.deep_view();
            match find_row_index(&self.rows, &row_ids[i]) {
                Some(_) => {
                    remove_rows_exec(&mut self.rows, &row_ids[i]);
                    ops.push(RowOp::DeleteRow { row_id: row_ids[i].clone() });
                    proof {
                        let d = OpView::Delete { row_id: ids[i as int] };
                        assert(ops.deep_view() =~= prev_ops + seq![d]);
                        lemma_apply_ops_concat(start, prev_ops, seq![d]);
                        lemma_apply_ops_singleton(cur, d);
                        assert(delete_ops(cur, ids.skip(i as int)) == seq![d] + delete_ops(
                            remove_rows(cur, ids[i as int]),
                            ids.skip(i as int + 1),
                        ));
                        assert(prev_ops + (seq![d] + delete_ops(
                            self.rows.deep_view(),
                            ids.skip(i as int + 1),
                        )) =~= ops.deep_view() + delete_ops(
                            self.rows.deep_view(),
                            ids.skip(i as int + 1),
                        ));
                    }
                },
                None => {
                    proof {
                        lemma_remove_rows_absent(cur, ids[i as int]);
                    }
                },
            }
            i += 1;
        }
        proof {
            assert(ids.skip(ids.len() as int) =~= Seq::<Seq<char>>::empty());
            assert(ops.deep_view() + Seq::<OpView>::empty() =~= ops.deep_view());
        }
        if ops.len() == 0 {
            proof {
                assert(ops.deep_view() =~= Seq::<OpView>::empty());
            }
            None
        } else {
            let ck = checksum_rows(&self.rows);
            proof {
                assert(ops.deep_view().len() > 0);
            }
            Some(GridBlockMetaChange { payload: BlockDelta { ops }, checksum: ck })
        }
    }

    /// Updates the first row the changeset names, writing its sparse cell
    /// updates in order. Fails with `NotFound` when the row id is absent;
    /// returns `None` (nothing to persist) when the changeset leaves the row
    /// as it was.
    pub fn update_row(&mut self, changeset: RowMetaChangeset) -> (r: Result<
        Option<GridBlockMetaChange>,
        RevError,
    >)
        ensures
            final(self).block_id == old(self).block_id,
            !contains_row(old(self).rows_view(), changeset@.row_id) ==> (match r {
                Err(e) => (e matches RevError::NotFound { row_ids } && row_ids.deep_view()
                    == seq![changeset@.row_id]) && final(self).rows_view() == old(
                    self,
                ).rows_view(),
                _ => false,
            }),
            contains_row(old(self).rows_view(), changeset@.row_id) ==> ({
                let row0 = find_row(old(self).rows_view(), changeset@.row_id)->0;
                let newr = updated_row(row0, changeset@.cells);
                match r {
                    Ok(None) => newr.cells == row0.cells && final(self).rows_view() == old(
                        self,
                    ).rows_view(),
                    Ok(Some(ch)) => {
                        &&& newr.cells != row0.cells
                        &&& ch.payload@ == seq![OpView::Update { row: newr }]
                        &&& final(self).rows_view() == replace_first(old(self).rows_view(), newr)
                        &&& final(self).rows_view() == apply_ops(
                            old(self).rows_view(),
                            ch.payload@,
                        )
                        &&& ch.checksum == state_checksum(final(self).rows_view())
                    },
                    Err(_) => false,
                }
            }),
    {
        let ghost start = self.rows.deep_view();
        match find_row_index(&self.rows, &changeset.row_id) {
            None => {
                let missing: Vec<String> = vec![changeset.row_id.clone()];
                proof {
                    assert(missing.deep_view() =~= seq![changeset@.row_id]);
                }
                Err(RevError::NotFound { row_ids: missing })
            },
            Some(idx) => {
                let ghost row0 = start[idx as int];
                let block_id_c = self.rows[idx].block_id.clone();
                let id_c = self.rows[idx].id.clone();
                let mut new_cells = clone_cells(&self.rows[idx].cells);
                apply_changeset_exec(&mut new_cells, &changeset.cell_changesets);
                proof {
                    assert(new_cells.deep_view() == apply_changeset(
                        row0.cells,
                        changeset@.cells,
                    ));
                }
                if cells_equal(&new_cells, &self.rows[idx].cells) {
                    proof {
                        assert(updated_row(row0, changeset@.cells).cells == row0.cells);
                    }
                    Ok(None)
                } else {
                    let new_row = RowMeta { block_id: block_id_c, id: id_c, cells: new_cells };
                    proof {
                        assert(new_row@ =~= updated_row(row0, changeset@.cells));
                    }
                    let op_row = new_row.clone();
                    self.rows.set(idx, new_row);
                    proof {
                        let newr = updated_row(row0, changeset@.cells);
                        lemma_replace_first_at(start, newr, idx as int);
                        assert(self.rows.deep_view() =~= start.update(idx as int, newr));
                        let up = OpView::Update { row: newr };
                        lemma_apply_ops_singleton(start, up);
                    }
                    let ck = checksum_rows(&self.rows);
                    let ops: Vec<RowOp> = vec![RowOp::UpdateRow { row: op_row }];
                    proof {
                        assert(ops.deep_view() =~= seq![
                            OpView::Update { row: updated_row(row0, changeset@.cells) },
                        ]);
                    }
                    Ok(Some(GridBlockMetaChange { payload: BlockDelta { ops }, checksum: ck }))
                }
            },
        }
    }

    /// Reads the named rows, in request order, without mutating. Fails with
    /// `NotFound` naming every absent id when one or more are absent.
    pub fn get_rows(&self, row_ids: Vec<String>) -> (r: Result<Vec<RowMeta>, RevError>)
        ensures
            r is Ok <==> missing_ids(self.rows_view(), row_ids.deep_view()).len() == 0,
            r matches Ok(rs) ==> rs.deep_view() == selected_rows(
                self.rows_view(),
                row_ids.deep_view(),
            ),
            r matches Err(e) ==> e matches RevError::NotFound { row_ids: m } && m.deep_view()
                == missing_ids(self.rows_view(), row_ids.deep_view()),
    {
        let ghost ids = row_ids.deep_view();
        let ghost rws = self.rows.deep_view();
        let mut found: Vec<RowMeta> = Vec::new();
        let mut missing: Vec<String> = Vec::new();
        let mut i: usize = 0;
        proof {
            assert(ids.skip(0) =~= ids);
            assert(found.deep_view() =~= Seq::<RowView>::empty());
            assert(missing.deep_view() =~= Seq::<Seq<char>>::empty());
        }
        while i < row_ids.len()
            invariant
                i <= ids.len(),
                ids == row_ids.deep_view(),
                rws == self.rows.deep_view(),
                selected_rows(rws, ids) == found.deep_view() + selected_rows(
                    rws,
                    ids.skip(i as int),
                ),
                missing_ids(rws, ids) == missing.deep_view() + missing_ids(
                    rws,
                    ids.skip(i as int),
                ),
            decreases ids.len() - i,
        {
            proof {
                assert(ids.skip(i as int)[0] == ids[i as int]);
                assert(ids.skip(i as int).skip(1) =~= ids.skip(i as int + 1));
            }
            let ghost pf = found.deep_view();
            let ghost pm = missing.deep_view();
            match find_row_index(&self.rows, &row_ids[i]) {
                Some(idx) => {
                    found.push(self.rows[idx].clone());
                    proof {
                        assert(found.deep_view() =~= pf + seq![rws[idx as int]]);
                        assert(pf + (seq![rws[idx as int]] + selected_rows(
                            rws,
                            ids.skip(i as int + 1),
                        )) =~= found.deep_view() + selected_rows(rws, ids.skip(i as int + 1)));
                        assert(Seq::<Seq<char>>::empty() + missing_ids(
                            rws,
                            ids.skip(i as int + 1),
                        ) =~= missing_ids(rws, ids.skip(i as int + 1)));
                    }
                },
                None => {
                    missing.push(row_ids[i].clone());
                    proof {
                        assert(missing.deep_view() =~= pm + seq![ids[i as int]]);
                        assert(pm + (seq![ids[i as int]] + missing_ids(
                            rws,
                            ids.skip(i as int + 1),
                        )) =~= missing.deep_view() + missing_ids(rws, ids.skip(i as int + 1)));
                        assert(Seq::<RowView>::empty() + selected_rows(
                            rws,
                            ids.skip(i as int + 1),
                        ) =~= selected_rows(rws, ids.skip(i as int + 1)));
                    }
                },
            }
            i += 1;
        }
        proof {
            assert(ids.skip(ids.len() as int) =~= Seq::<Seq<char>>::empty());
            assert(found.deep_view() + Seq::<RowView>::empty() =~= found.deep_view());
            assert(missing.deep_view() + Seq::<Seq<char>>::empty() =~= missing.deep_view());
        }
        if missing.len() == 0 {
            proof {
                assert(missing.deep_view() =~= Seq::<Seq<char>>::empty());
            }
            Ok(found)
        } else {
            proof {
                assert(missing_ids(rws, ids).len() == missing@.len());
            }
            Err(RevError::NotFound { row_ids: missing })
        }
    }
}

/// Whether the whole history's checksums verify from empty state.
pub open spec fn checksums_ok_entry(revs: Seq<RevView>) -> bool {
    checksums_ok_from(Seq::<RowView>::empty(), revs)
}

} // verus!

