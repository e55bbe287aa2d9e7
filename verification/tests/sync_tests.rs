use grid_block_sync::checksum::checksum_rows;
use grid_block_sync::delta::{BlockDelta, RowOp};
use grid_block_sync::editor::ClientGridBlockMetaEditor;
use grid_block_sync::errors::RevError;
use grid_block_sync::pad::GridBlockMetaPad;
use grid_block_sync::rev_manager::{
    GridBlockMetaRevisionCompactor, RevisionCloudService, RevisionManager,
};
use grid_block_sync::revision::Revision;
use grid_block_sync::row::{CellMeta, RowMeta, RowMetaChangeset};

fn empty_row(block: &str, id: &str) -> RowMeta {
    RowMeta::new(block, id, vec![])
}

fn new_editor(block: &str, threshold: usize) -> ClientGridBlockMetaEditor {
    let rm = RevisionManager::new("user_1", block, threshold);
    ClientGridBlockMetaEditor::new("user_1", "token", block, rm).unwrap()
}

/// Builds one insert revision whose checksum matches the state reached after
/// applying it on top of `rows`, and extends `rows` accordingly.
fn insert_revision(
    block: &str,
    id: &str,
    base: u64,
    rev: u64,
    rows: &mut Vec<RowMeta>,
) -> Revision {
    let r = empty_row(block, id);
    rows.push(r.clone());
    let ck = checksum_rows(rows);
    let delta = BlockDelta { ops: vec![RowOp::InsertRow { row: r }] };
    Revision::new(block, base, rev, delta, "user_1", ck)
}

struct StubCloud {
    revs: Vec<Revision>,
}

impl RevisionCloudService for StubCloud {
    fn fetch_object(&self, _user_id: &str, _object_id: &str) -> Result<Vec<Revision>, RevError> {
        Ok(self.revs.iter().map(|r| r.clone()).collect())
    }
}

struct UnreachableCloud;

impl RevisionCloudService for UnreachableCloud {
    fn fetch_object(&self, _user_id: &str, _object_id: &str) -> Result<Vec<Revision>, RevError> {
        Err(RevError::Load)
    }
}

#[test]
fn id_pairs_strictly_increase() {
    let mut rm = RevisionManager::new("user_1", "block_1", 5);
    let p1 = rm.next_rev_id_pair();
    let p2 = rm.next_rev_id_pair();
    let p3 = rm.next_rev_id_pair();
    assert_eq!(p1, (0, 1));
    assert_eq!(p2, (1, 2));
    assert_eq!(p3, (2, 3));
    assert!(p1.1 < p2.1 && p2.1 < p3.1);
    assert_eq!(p1.1, p1.0 + 1);
    assert_eq!(p2.1, p2.0 + 1);
    assert_eq!(p3.1, p3.0 + 1);
}

#[test]
fn checksum_of_empty_state() {
    let rows: Vec<RowMeta> = vec![];
    assert_eq!(checksum_rows(&rows), 1469598103934665603);
}

#[test]
fn checksum_changes_with_state() {
    let mut rows: Vec<RowMeta> = vec![];
    let empty_ck = checksum_rows(&rows);
    rows.push(empty_row("block_1", "R1"));
    assert_ne!(checksum_rows(&rows), empty_ck);
}

#[test]
fn replay_is_deterministic() {
    let mut editor = new_editor("block_1", 10);
    editor.create_row(empty_row("block_1", "R1")).unwrap();
    editor.create_row(empty_row("block_1", "R2")).unwrap();
    editor
        .update_row(RowMetaChangeset::new("R1", vec![CellMeta::new("amount", "42")]))
        .unwrap();
    let revs = &editor.rev_manager.revisions;
    let pad_a = GridBlockMetaPad::from_revisions("block_1", revs).unwrap();
    let pad_b = GridBlockMetaPad::from_revisions("block_1", revs).unwrap();
    assert_eq!(checksum_rows(&pad_a.rows), checksum_rows(&pad_b.rows));
    assert_eq!(checksum_rows(&pad_a.rows), checksum_rows(&editor.meta_pad.rows));
}

#[test]
fn compaction_preserves_replay() {
    let mut editor = new_editor("block_1", 10);
    editor.create_row(empty_row("block_1", "R1")).unwrap();
    editor.create_row(empty_row("block_1", "R2")).unwrap();
    editor
        .update_row(RowMetaChangeset::new("R2", vec![CellMeta::new("amount", "7")]))
        .unwrap();
    let revs = &editor.rev_manager.revisions;
    assert_eq!(revs.len(), 3);

    let compactor = GridBlockMetaRevisionCompactor {};
    let single = compactor.compact(revs).unwrap();
    assert_eq!(single.base_rev_id, revs[0].base_rev_id);
    assert_eq!(single.rev_id, revs[2].rev_id);

    let pad_run = GridBlockMetaPad::from_revisions("block_1", revs).unwrap();
    let pad_single = GridBlockMetaPad::from_revisions("block_1", &vec![single]).unwrap();
    assert_eq!(checksum_rows(&pad_run.rows), checksum_rows(&pad_single.rows));
    assert_eq!(pad_single.rows.len(), 2);
    assert_eq!(pad_single.rows[1].cells.len(), 1);
    assert_eq!(pad_single.rows[1].cells[0].data, "7");
}

#[test]
fn delete_absent_is_noop_but_reads_and_updates_fail() {
    let mut pad = GridBlockMetaPad::new_empty("block_1");
    assert!(pad.add_row(empty_row("block_1", "R1")).is_some());

    // Deleting an absent id: no error, no change.
    assert!(pad.delete_rows(&vec!["ZZ".to_string()]).is_none());
    assert_eq!(pad.rows.len(), 1);

    // Reading an absent id fails and names it.
    match pad.get_rows(vec!["ZZ".to_string()]) {
        Err(RevError::NotFound { row_ids }) => assert_eq!(row_ids, vec!["ZZ".to_string()]),
        other => panic!("expected NotFound, got {:?}", other.is_ok()),
    }

    // Updating an absent id fails and names it.
    match pad.update_row(RowMetaChangeset::new("ZZ", vec![CellMeta::new("amount", "1")])) {
        Err(RevError::NotFound { row_ids }) => assert_eq!(row_ids, vec!["ZZ".to_string()]),
        _ => panic!("expected NotFound"),
    }
}

#[test]
fn duplicate_add_is_noop() {
    let mut pad = GridBlockMetaPad::new_empty("block_1");
    assert!(pad.add_row(empty_row("block_1", "R1")).is_some());
    assert!(pad.add_row(empty_row("block_1", "R1")).is_none());
    assert_eq!(pad.rows.len(), 1);
}

#[test]
fn noop_update_commits_no_revision() {
    let mut editor = new_editor("block_1", 10);
    editor.create_row(empty_row("block_1", "R1")).unwrap();
    editor
        .update_row(RowMetaChangeset::new("R1", vec![CellMeta::new("amount", "42")]))
        .unwrap();
    let n = editor.rev_manager.revisions.len();
    // Writing the same value again changes nothing and persists nothing.
    editor
        .update_row(RowMetaChangeset::new("R1", vec![CellMeta::new("amount", "42")]))
        .unwrap();
    assert_eq!(editor.rev_manager.revisions.len(), n);
}

#[test]
fn reads_are_consistent_snapshots() {
    let mut editor = new_editor("block_1", 10);
    editor.create_row(empty_row("block_1", "R1")).unwrap();

    let a = editor.get_rows(vec!["R1".to_string()]).unwrap();
    let b = editor.get_rows(vec!["R1".to_string()]).unwrap();
    assert_eq!(a.len(), b.len());
    assert_eq!(a[0].id, b[0].id);
    assert_eq!(a[0].cells.len(), b[0].cells.len());

    // A read after a mutation completes observes that mutation's effect.
    editor
        .update_row(RowMetaChangeset::new("R1", vec![CellMeta::new("amount", "42")]))
        .unwrap();
    let c = editor.get_rows(vec!["R1".to_string()]).unwrap();
    assert_eq!(c[0].cells.len(), 1);
    assert_eq!(c[0].cells[0].field_id, "amount");
    assert_eq!(c[0].cells[0].data, "42");
}

#[test]
fn end_to_end_block_lifecycle() {
    let mut editor = new_editor("block_1", 10);
    editor.create_row(empty_row("block_1", "R1")).unwrap();
    editor
        .update_row(RowMetaChangeset::new("R1", vec![CellMeta::new("amount", "42")]))
        .unwrap();
    editor.delete_rows(vec!["R1".to_string()]).unwrap();

    let revs = &editor.rev_manager.revisions;
    assert_eq!(revs.len(), 3);
    let pairs: Vec<(u64, u64)> = revs.iter().map(|r| (r.base_rev_id, r.rev_id)).collect();
    assert_eq!(pairs, vec![(0, 1), (1, 2), (2, 3)]);

    let pad_run = GridBlockMetaPad::from_revisions("block_1", revs).unwrap();
    assert_eq!(pad_run.rows.len(), 0);

    let compactor = GridBlockMetaRevisionCompactor {};
    let single = compactor.compact(revs).unwrap();
    let pad_single = GridBlockMetaPad::from_revisions("block_1", &vec![single]).unwrap();
    assert_eq!(pad_single.rows.len(), 0);
    assert_eq!(checksum_rows(&pad_run.rows), checksum_rows(&pad_single.rows));
}

#[test]
fn remote_history_continues_id_sequence() {
    let mut rows: Vec<RowMeta> = vec![];
    let rev5 = insert_revision("block_1", "R9", 4, 5, &mut rows);
    let cloud = StubCloud { revs: vec![rev5] };

    let mut rm = RevisionManager::new("user_1", "block_1", 10);
    let pad = rm.load(Some(&cloud)).unwrap();
    assert_eq!(pad.rows.len(), 1);
    assert_eq!(rm.revisions.len(), 1);
    assert_eq!(rm.rev_id_counter, 5);

    let mut editor = ClientGridBlockMetaEditor {
        user_id: "user_1".to_string(),
        block_id: "block_1".to_string(),
        meta_pad: pad,
        rev_manager: rm,
    };
    editor.create_row(empty_row("block_1", "R10")).unwrap();
    let last = editor.rev_manager.revisions.last().unwrap();
    assert_eq!(last.base_rev_id, 5);
    assert_eq!(last.rev_id, 6);
}

#[test]
fn load_rejects_corrupt_history() {
    let mut rows: Vec<RowMeta> = vec![];
    let good = insert_revision("block_1", "R1", 0, 1, &mut rows);
    let bad = Revision::new(
        "block_1",
        1,
        2,
        BlockDelta { ops: vec![RowOp::InsertRow { row: empty_row("block_1", "R2") }] },
        "user_1",
        good.checksum, // wrong: checksum of the previous state, not this one
    );
    match GridBlockMetaPad::from_revisions("block_1", &vec![good, bad]) {
        Err(RevError::Load) => {},
        _ => panic!("expected Load error"),
    }
}

#[test]
fn load_rejects_out_of_order_history() {
    let mut rows_a: Vec<RowMeta> = vec![];
    let first = insert_revision("block_1", "R1", 6, 7, &mut rows_a);
    let mut rows_b: Vec<RowMeta> = vec![];
    let second = insert_revision("block_1", "R2", 2, 3, &mut rows_b);
    match GridBlockMetaPad::from_revisions("block_1", &vec![first, second]) {
        Err(RevError::Load) => {},
        _ => panic!("expected Load error"),
    }
}

#[test]
fn fetch_failure_is_distinct_from_empty_history() {
    let mut rm = RevisionManager::new("user_1", "block_1", 10);
    match rm.load(Some(&UnreachableCloud)) {
        Err(RevError::Fetch) => {},
        _ => panic!("expected Fetch error"),
    }
    // An empty remote history, by contrast, is a fresh start.
    let mut rm2 = RevisionManager::new("user_1", "block_1", 10);
    let pad = rm2.load(Some(&StubCloud { revs: vec![] })).unwrap();
    assert_eq!(pad.rows.len(), 0);
}

#[test]
fn compaction_rejects_gaps() {
    let compactor = GridBlockMetaRevisionCompactor {};
    let mut rows: Vec<RowMeta> = vec![];
    let a = insert_revision("block_1", "R1", 0, 1, &mut rows);
    let mut rows2 = rows.clone();
    let c = insert_revision("block_1", "R2", 3, 4, &mut rows2);
    match compactor.compact(&vec![a, c]) {
        Err(RevError::Compaction) => {},
        _ => panic!("expected Compaction error"),
    }
    let none: Vec<Revision> = vec![];
    match compactor.compact(&none) {
        Err(RevError::Compaction) => {},
        _ => panic!("expected Compaction error"),
    }
}

#[test]
fn store_compacts_past_threshold() {
    let mut editor = new_editor("block_1", 2);
    editor.create_row(empty_row("block_1", "R1")).unwrap();
    editor.create_row(empty_row("block_1", "R2")).unwrap();
    assert_eq!(editor.rev_manager.revisions.len(), 2);
    // The third revision pushes the store past the threshold; the contiguous
    // run collapses into one equivalent revision.
    editor.create_row(empty_row("block_1", "R3")).unwrap();
    assert_eq!(editor.rev_manager.revisions.len(), 1);
    let only = &editor.rev_manager.revisions[0];
    assert_eq!(only.base_rev_id, 0);
    assert_eq!(only.rev_id, 3);
    let pad = GridBlockMetaPad::from_revisions("block_1", &editor.rev_manager.revisions).unwrap();
    assert_eq!(pad.rows.len(), 3);
    assert_eq!(checksum_rows(&pad.rows), checksum_rows(&editor.meta_pad.rows));
}

#[test]
fn resubmitting_a_persisted_revision_is_idempotent() {
    let mut rm = RevisionManager::new("user_1", "block_1", 10);
    let mut rows: Vec<RowMeta> = vec![];
    let rev = insert_revision("block_1", "R1", 0, 1, &mut rows);
    let compactor = GridBlockMetaRevisionCompactor {};
    rm.add_local_revision(&rev, &compactor).unwrap();
    assert_eq!(rm.revisions.len(), 1);
    rm.add_local_revision(&rev, &compactor).unwrap();
    assert_eq!(rm.revisions.len(), 1);
}

#[test]
fn loading_local_history_restores_the_pad() {
    let mut editor = new_editor("block_1", 10);
    editor.create_row(empty_row("block_1", "R1")).unwrap();
    editor
        .update_row(RowMetaChangeset::new("R1", vec![CellMeta::new("amount", "42")]))
        .unwrap();
    let old_ck = checksum_rows(&editor.meta_pad.rows);

    // A second editor session over the same persisted history rebuilds the
    // same materialized state.
    let rm = RevisionManager {
        user_id: "user_1".to_string(),
        object_id: "block_1".to_string(),
        rev_id_counter: 0,
        revisions: editor.rev_manager.revisions.clone(),
        compact_threshold: 10,
    };
    let editor2 = ClientGridBlockMetaEditor::new("user_1", "token", "block_1", rm).unwrap();
    assert_eq!(checksum_rows(&editor2.meta_pad.rows), old_ck);
    assert_eq!(editor2.rev_manager.rev_id_counter, 2);
}

#[test]
fn fresh_block_starts_empty() {
    let rm = RevisionManager::new("user_1", "block_1", 10);
    let editor = ClientGridBlockMetaEditor::new("user_1", "token", "block_1", rm).unwrap();
    assert_eq!(editor.meta_pad.rows.len(), 0);
    assert_eq!(editor.rev_manager.revisions.len(), 0);
    assert_eq!(editor.rev_manager.rev_id_counter, 0);
}
