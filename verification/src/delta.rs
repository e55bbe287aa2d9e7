use vstd::prelude::*;
use crate::row::{RowMeta, RowView};

verus! {

// ---------------------------------------------------------------------------
// Operations
// ---------------------------------------------------------------------------

/// Mathematical model of one ordered operation against a block's row collection.
#[verifier::ext_equal]
pub enum OpView {
    Insert { row: RowView },
    Delete { row_id: Seq<char> },
    Update { row: RowView },
}

/// One ordered operation against a block's row collection.
///
/// `Insert` appends a row unless its id is already present; `Delete` removes
/// every row with the given id; `Update` replaces the first row whose id
/// matches the carried row.
pub enum RowOp {
    InsertRow { row: RowMeta },
    DeleteRow { row_id: String },
    UpdateRow { row: RowMeta },
}

impl View for RowOp {
    type V = OpView;

    open spec fn view(&self) -> OpView {
        match self {
            RowOp::InsertRow { row } => OpView::Insert { row: row@ },
            RowOp::DeleteRow { row_id } => OpView::Delete { row_id: row_id@ },
            RowOp::UpdateRow { row } => OpView::Update { row: row@ },
        }
    }
}

impl DeepView for RowOp {
    type V = OpView;

    open spec fn deep_view(&self) -> OpView {
        self.view()
    }
}

impl Clone for RowOp {
    fn clone(&self) -> (r: Self)
        ensures
            r@ == self@,
    {
        match self {
            RowOp::InsertRow { row } => RowOp::InsertRow { row: row.clone() },
            RowOp::DeleteRow { row_id } => RowOp::DeleteRow { row_id: row_id.clone() },
            RowOp::UpdateRow { row } => RowOp::UpdateRow { row: row.clone() },
        }
    }
}

/// An ordered sequence of operations: the payload of one change or revision.
pub struct BlockDelta {
    pub ops: Vec<RowOp>,
}

impl View for BlockDelta {
    type V = Seq<OpView>;

    open spec fn view(&self) -> Seq<OpView> {
        self.ops.deep_view()
    }
}

/// Copies an operation list; the copy has the same view.
pub fn clone_ops(ops: &Vec<RowOp>) -> (r: Vec<RowOp>)
    ensures
        r.deep_view() == ops.deep_view(),
{
    let mut out: Vec<RowOp> = Vec::new();
    let mut i: usize = 0;
    while i < ops.len()
        invariant
            i <= ops@.len(),
            out@.len() == i,
            forall|k: int| 0 <= k < i ==> out.deep_view()[k] == ops.deep_view()[k],
        decreases ops@.len() - i,
    {
        out.push(ops[i].clone());
        i += 1;
    }
    proof {
        assert(out.deep_view() =~= ops.deep_view());
    }
    out
}

impl Clone for BlockDelta {
    fn clone(&self) -> (r: Self)
        ensures
            r@ == self@,
    {
        BlockDelta { ops: clone_ops(&self.ops) }
    }
}

// ---------------------------------------------------------------------------
// The operation algebra, in specification form
// ---------------------------------------------------------------------------

/// The first row with the given id, if any.
pub open spec fn find_row(rows: Seq<RowView>, id: Seq<char>) -> Option<RowView>
    decreases rows.len(),
{
    if rows.len() == 0 {
        None
    } else if rows[0].id == id {
        Some(rows[0])
    } else {
        find_row(rows.skip(1), id)
    }
}

/// Whether a row with the given id is present.
pub open spec fn contains_row(rows: Seq<RowView>, id: Seq<char>) -> bool {
    find_row(rows, id) is Some
}

/// The row collection with every row of the given id removed.
pub open spec fn remove_rows(rows: Seq<RowView>, id: Seq<char>) -> Seq<RowView>
    decreases rows.len(),
{
    if rows.len() == 0 {
        Seq::empty()
    } else if rows[0].id == id {
        remove_rows(rows.skip(1), id)
    } else {
        seq![rows[0]] + remove_rows(rows.skip(1), id)
    }
}

/// The row collection with the first row whose id matches `row.id` replaced
/// by `row`; unchanged when no row matches.
pub open spec fn replace_first(rows: Seq<RowView>, row: RowView) -> Seq<RowView>
    decreases rows.len(),
{
    if rows.len() == 0 {
        rows
    } else if rows[0].id == row.id {
        seq![row] + rows.skip(1)
    } else {
        seq![rows[0]] + replace_first(rows.skip(1), row)
    }
}

/// What one operation does to a row collection. Total and deterministic over
/// every operation and every state.
pub open spec fn apply_op(rows: Seq<RowView>, op: OpView) -> Seq<RowView> {
    match op {
        OpView::Insert { row } => if contains_row(rows, row.id) {
            rows
        } else {
            rows.push(row)
        },
        OpView::Delete { row_id } => remove_rows(rows, row_id),
        OpView::Update { row } => replace_first(rows, row),
    }
}

/// Sequential application of an ordered operation list.
pub open spec fn apply_ops(rows: Seq<RowView>, ops: Seq<OpView>) -> Seq<RowView>
    decreases ops.len(),
{
    if ops.len() == 0 {
        rows
    } else {
        apply_ops(apply_op(rows, ops[0]), ops.skip(1))
    }
}

/// Merging two operation sequences is concatenation, and applying the merge
/// equals applying the two sequences one after the other. This is the
/// merge-equivalence contract of the delta composer, and the backbone of
/// compaction correctness.
pub proof fn lemma_apply_ops_concat(rows: Seq<RowView>, a: Seq<OpView>, b: Seq<OpView>)
    ensures
        apply_ops(rows, a + b) == apply_ops(apply_ops(rows, a), b),
    decreases a.len(),
{
    if a.len() == 0 {
        assert(a + b =~= b);
    } else {
        assert((a + b)[0] == a[0]);
        assert((a + b).skip(1) =~= a.skip(1) + b);
        lemma_apply_ops_concat(apply_op(rows, a[0]), a.skip(1), b);
    }
}

/// Applying a one-operation sequence is applying the operation.
pub proof fn lemma_apply_ops_singleton(rows: Seq<RowView>, op: OpView)
    ensures
        apply_ops(rows, seq![op]) == apply_op(rows, op),
{
    let s = seq![op];
    assert(s.len() == 1 && s[0] == op);
    assert(s.skip(1) =~= Seq::<OpView>::empty());
    assert(apply_ops(rows, s) == apply_ops(apply_op(rows, op), s.skip(1)));
    assert(apply_ops(apply_op(rows, op), s.skip(1)) == apply_op(rows, op));
}

// ---------------------------------------------------------------------------
// Executable helpers, each proved against the algebra above
// ---------------------------------------------------------------------------

/// A first match at index `i` pins `find_row` down.
pub proof fn lemma_find_row_first(rows: Seq<RowView>, id: Seq<char>, i: int)
    requires
        0 <= i < rows.len(),
        rows[i].id == id,
        forall|k: int| 0 <= k < i ==> rows[k].id != id,
    ensures
        find_row(rows, id) == Some(rows[i]),
    decreases i,
{
    if i == 0 {
    } else {
        lemma_find_row_first(rows.skip(1), id, i - 1);
        assert(rows.skip(1)[i - 1] == rows[i]);
    }
}

/// No match anywhere means `find_row` finds nothing.
pub proof fn lemma_find_row_none(rows: Seq<RowView>, id: Seq<char>)
    requires
        forall|k: int| 0 <= k < rows.len() ==> rows[k].id != id,
    ensures
        find_row(rows, id) is None,
    decreases rows.len(),
{
    if rows.len() > 0 {
        lemma_find_row_none(rows.skip(1), id);
    }
}

/// Index of the first row with the given id, if any.
pub fn find_row_index(rows: &Vec<RowMeta>, id: &String) -> (r: Option<usize>)
    ensures
        match r {
            Some(i) => i < rows@.len() && rows.deep_view()[i as int].id == id@
                && find_row(rows.deep_view(), id@) == Some(rows.deep_view()[i as int])
                && forall|k: int| 0 <= k < i ==> rows.deep_view()[k].id != id@,
            None => find_row(rows.deep_view(), id@) is None
                && forall|k: int| 0 <= k < rows@.len() ==> rows.deep_view()[k].id != id@,
        },
{
    let ghost rws = rows.deep_view();
    let mut i: usize = 0;
    while i < rows.len()
        invariant
            i <= rows@.len(),
            rws == rows.deep_view(),
            forall|k: int| 0 <= k < i ==> rws[k].id != id@,
        decreases rows@.len() - i,
    {
        if rows[i].id == *id {
            proof {
                lemma_find_row_first(rws, id@, i as int);
            }
            return Some(i);
        }
        i += 1;
    }
    proof {
        lemma_find_row_none(rws, id@);
    }
    None
}

/// Removes every row with the given id, as `remove_rows` says.
pub fn remove_rows_exec(rows: &mut Vec<RowMeta>, id: &String)
    ensures
        final(rows).deep_view() == remove_rows(old(rows).deep_view(), id@),
{
    let ghost full = rows.deep_view();
    let mut out: Vec<RowMeta> = Vec::new();
    let mut i: usize = 0;
    proof {
        assert(full.skip(0) =~= full);
        assert(out.deep_view() + remove_rows(full, id@) =~= remove_rows(full, id@));
    }
    while i < rows.len()
        invariant
            i <= rows@.len(),
            full == rows.deep_view(),
            remove_rows(full, id@) == out.deep_view() + remove_rows(full.skip(i as int), id@),
        decreases rows@.len() - i,
    {
        proof {
            assert(full.skip(i as int)[0] == full[i as int]);
            assert(full.skip(i as int).skip(1) =~= full.skip(i as int + 1));
        }
        if rows[i].id == *id {
            proof {
                assert(remove_rows(full.skip(i as int), id@)
                    == remove_rows(full.skip(i as int + 1), id@));
            }
        } else {
            let ghost prev = out.deep_view();
            out.push(rows[i].clone());
            proof {
                assert(out.deep_view() =~= prev.push(full[i as int]));
                assert(remove_rows(full.skip(i as int), id@)
                    == seq![full[i as int]] + remove_rows(full.skip(i as int + 1), id@));
                assert(prev + (seq![full[i as int]] + remove_rows(full.skip(i as int + 1), id@))
                    =~= out.deep_view() + remove_rows(full.skip(i as int + 1), id@));
            }
        }
        i += 1;
    }
    proof {
        assert(full.skip(rows@.len() as int) =~= Seq::<RowView>::empty());
        assert(out.deep_view() + remove_rows(full.skip(rows@.len() as int), id@)
            =~= out.deep_view());
    }
    *rows = out;
}

/// Replacing the first match at index `i` is a pointwise update.
pub proof fn lemma_replace_first_at(rows: Seq<RowView>, row: RowView, i: int)
    requires
        0 <= i < rows.len(),
        rows[i].id == row.id,
        forall|k: int| 0 <= k < i ==> rows[k].id != row.id,
    ensures
        replace_first(rows, row) == rows.update(i, row),
    decreases i,
{
    if i == 0 {
        assert(seq![row] + rows.skip(1) =~= rows.update(0, row));
    } else {
        lemma_replace_first_at(rows.skip(1), row, i - 1);
        assert(rows.skip(1)[i - 1] == rows[i]);
        assert(seq![rows[0]] + rows.skip(1).update(i - 1, row) =~= rows.update(i, row));
    }
}

/// With no match, replacing changes nothing.
pub proof fn lemma_replace_first_absent(rows: Seq<RowView>, row: RowView)
    requires
        forall|k: int| 0 <= k < rows.len() ==> rows[k].id != row.id,
    ensures
        replace_first(rows, row) == rows,
    decreases rows.len(),
{
    if rows.len() > 0 {
        lemma_replace_first_absent(rows.skip(1), row);
        assert(seq![rows[0]] + rows.skip(1) =~= rows);
    }
}

/// Applies one operation in place, as `apply_op` says.
pub fn apply_op_exec(rows: &mut Vec<RowMeta>, op: &RowOp)
    ensures
        final(rows).deep_view() == apply_op(old(rows).deep_view(), op@),
{
    match op {
        RowOp::InsertRow { row } => {
            match find_row_index(rows, &row.id) {
                Some(_) => {},
                None => {
                    rows.push(row.clone());
                    proof {
                        assert(rows.deep_view() =~= old(rows).deep_view().push(row@));
                    }
                },
            }
        },
        RowOp::DeleteRow { row_id } => {
            remove_rows_exec(rows, row_id);
        },
        RowOp::UpdateRow { row } => {
            match find_row_index(rows, &row.id) {
                Some(i) => {
                    rows.set(i, row.clone());
                    proof {
                        lemma_replace_first_at(old(rows).deep_view(), row@, i as int);
                        assert(rows.deep_view()
                            =~= old(rows).deep_view().update(i as int, row@));
                    }
                },
                None => {
                    proof {
                        lemma_replace_first_absent(rows.deep_view(), row@);
                    }
                },
            }
        },
    }
}

/// Applies an ordered operation list in place, as `apply_ops` says.
pub fn apply_delta(rows: &mut Vec<RowMeta>, delta: &BlockDelta)
    ensures
        final(rows).deep_view() == apply_ops(old(rows).deep_view(), delta@),
{
    let ghost start = rows.deep_view();
    let ghost ops = delta@;
    let mut i: usize = 0;
    proof {
        assert(ops.skip(0) =~= ops);
    }
    while i < delta.ops.len()
        invariant
            i <= ops.len(),
            ops == delta@,
            apply_ops(start, ops) == apply_ops(rows.deep_view(), ops.skip(i as int)),
        decreases ops.len() - i,
    {
        proof {
            assert(ops.skip(i as int)[0] == ops[i as int]);
            assert(ops.skip(i as int).skip(1) =~= ops.skip(i as int + 1));
        }
        apply_op_exec(rows, &delta.ops[i]);
        i += 1;
    }
    proof {
        assert(ops.skip(ops.len() as int) =~= Seq::<OpView>::empty());
    }
}

} // verus!
