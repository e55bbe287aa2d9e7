use vstd::prelude::*;

verus! {

/// Mathematical model of one cell: the field it belongs to and its stored value.
#[verifier::ext_equal]
pub struct CellView {
    pub field_id: Seq<char>,
    pub data: Seq<char>,
}

/// Mathematical model of one row: its identifiers and ordered field-cell values.
#[verifier::ext_equal]
pub struct RowView {
    pub block_id: Seq<char>,
    pub id: Seq<char>,
    pub cells: Seq<CellView>,
}

/// Mathematical model of a sparse row update: the row it names and the
/// per-field cell values to write.
#[verifier::ext_equal]
pub struct ChangesetView {
    pub row_id: Seq<char>,
    pub cells: Seq<CellView>,
}

/// One cell of a row.
pub struct CellMeta {
    pub field_id: String,
    pub data: String,
}

/// One row of a block: its identifier, the block it belongs to, and its
/// ordered field-cell values.
pub struct RowMeta {
    pub block_id: String,
    pub id: String,
    pub cells: Vec<CellMeta>,
}

/// A sparse changeset against one row: the row id and the per-field updates.
pub struct RowMetaChangeset {
    pub row_id: String,
    pub cell_changesets: Vec<CellMeta>,
}

impl View for CellMeta {
    type V = CellView;

    open spec fn view(&self) -> CellView {
        CellView { field_id: self.field_id@, data: self.data@ }
    }
}

impl DeepView for CellMeta {
    type V = CellView;

    open spec fn deep_view(&self) -> CellView {
        self.view()
    }
}

impl View for RowMeta {
    type V = RowView;

    open spec fn view(&self) -> RowView {
        RowView { block_id: self.block_id@, id: self.id@, cells: self.cells.deep_view() }
    }
}

impl DeepView for RowMeta {
    type V = RowView;

    open spec fn deep_view(&self) -> RowView {
        self.view()
    }
}

impl View for RowMetaChangeset {
    type V = ChangesetView;

    open spec fn view(&self) -> ChangesetView {
        ChangesetView { row_id: self.row_id@, cells: self.cell_changesets.deep_view() }
    }
}

impl CellMeta {
    pub fn new(field_id: &str, data: &str) -> (r: Self)
        ensures
            r@ == (CellView { field_id: field_id@, data: data@ }),
    {
        CellMeta { field_id: field_id.to_owned(), data: data.to_owned() }
    }
}

impl Clone for CellMeta {
    fn clone(&self) -> (r: Self)
        ensures
            r@ == self@,
    {
        CellMeta { field_id: self.field_id.clone(), data: self.data.clone() }
    }
}

/// Copies a cell list; the copy has the same view.
pub fn clone_cells(cells: &Vec<CellMeta>) -> (r: Vec<CellMeta>)
    ensures
        r.deep_view() == cells.deep_view(),
{
    let mut out: Vec<CellMeta> = Vec::new();
    let mut i: usize = 0;
    while i < cells.len()
        invariant
            i <= cells.len(),
            out@.len() == i,
            forall|k: int| 0 <= k < i ==> out.deep_view()[k] == cells.deep_view()[k],
        decreases cells.len() - i,
    {
        out.push(cells[i].clone());
        i += 1;
    }
    proof {
        assert(out.deep_view() =~= cells.deep_view());
    }
    out
}

impl RowMeta {
    pub fn new(block_id: &str, id: &str, cells: Vec<CellMeta>) -> (r: Self)
        ensures
            r@ == (RowView { block_id: block_id@, id: id@, cells: cells.deep_view() }),
    {
        RowMeta { block_id: block_id.to_owned(), id: id.to_owned(), cells }
    }
}

impl Clone for RowMeta {
    fn clone(&self) -> (r: Self)
        ensures
            r@ == self@,
    {
        let r = RowMeta {
            block_id: self.block_id.clone(),
            id: self.id.clone(),
            cells: clone_cells(&self.cells),
        };
        proof {
            assert(r@ =~= self@);
        }
        r
    }
}

impl RowMetaChangeset {
    pub fn new(row_id: &str, cell_changesets: Vec<CellMeta>) -> (r: Self)
        ensures
            r@ == (ChangesetView { row_id: row_id@, cells: cell_changesets.deep_view() }),
    {
        RowMetaChangeset { row_id: row_id.to_owned(), cell_changesets }
    }
}

} // verus!
