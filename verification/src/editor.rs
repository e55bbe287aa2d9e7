use vstd::prelude::*;
use crate::checksum::state_checksum;
use crate::delta::{apply_ops, contains_row, find_row, replace_first, OpView};
use crate::errors::RevError;
use crate::pad::{
    delete_ops, missing_ids, remove_all, selected_rows, updated_row, GridBlockMetaPad,
};
use crate::rev_manager::{
    last_rev_id, store_after_add, GridBlockMetaRevisionCloudService,
    GridBlockMetaRevisionCompactor, RevisionCloudService, RevisionManager,
};
use crate::revision::{
    compact_of, lemma_ascending_push, lemma_history_push, replay, valid_history,
    GridBlockMetaChange, RevView, Revision,
};
use crate::row::{RowMeta, RowMetaChangeset, RowView};

verus! {

/// The public-facing coordinator of one block: owns the block's pad and its
/// revision manager, serializes mutations against the pad, and drives each
/// resulting change through the id-pairing and persistence pipeline.
pub struct ClientGridBlockMetaEditor {
    pub user_id: String,
    pub block_id: String,
    pub meta_pad: GridBlockMetaPad,
    pub rev_manager: RevisionManager,
}

impl ClientGridBlockMetaEditor {
    /// The editor's coherence invariant: the stored history is valid,
    /// replaying it materializes exactly the pad's rows (the pad and the log
    /// never diverge), the id counter sits at the last stored revision id,
    /// and pad, manager and editor agree on the block id.
    pub open spec fn wf(&self) -> bool {
        &&& valid_history(self.rev_manager.revisions.deep_view())
        &&& replay(self.rev_manager.revisions.deep_view()) == self.meta_pad.rows_view()
        &&& self.rev_manager.rev_id_counter == last_rev_id(self.rev_manager.revisions.deep_view())
        &&& self.meta_pad.block_id@ == self.block_id@
        &&& self.rev_manager.object_id@ == self.block_id@
    }

    /// Whether another id pair can still be issued.
    pub open spec fn can_issue(&self) -> bool {
        self.rev_id_counter_spec() < u64::MAX
    }

    /// The manager's id counter.
    pub open spec fn rev_id_counter_spec(&self) -> u64 {
        self.rev_manager.rev_id_counter
    }

    /// The revision the editor builds from a change in this state: the next
    /// id pair over the current counter, the change's payload and checksum,
    /// authored by this editor's user.
    pub open spec fn local_revision(self, payload: Seq<OpView>, checksum: u64) -> RevView {
        RevView {
            object_id: self.rev_manager.object_id@,
            base_rev_id: self.rev_manager.rev_id_counter,
            rev_id: (self.rev_manager.rev_id_counter + 1) as u64,
            payload,
            checksum,
            author_id: self.user_id@,
        }
    }

    /// What committing one change does to the revision log: the counter
    /// advances by one and the store holds the appended (possibly compacted)
    /// history.
    pub open spec fn committed(pre: Self, post: Self, payload: Seq<OpView>, checksum: u64) -> bool {
        &&& post.rev_manager.rev_id_counter == pre.rev_manager.rev_id_counter + 1
        &&& post.rev_manager.revisions.deep_view() == store_after_add(
            pre.rev_manager.revisions.deep_view(),
            pre.local_revision(payload, checksum),
            pre.rev_manager.compact_threshold as int,
        )
    }

    /// A mutation that produced nothing leaves the log untouched.
    pub open spec fn log_unchanged(pre: Self, post: Self) -> bool {
        post.rev_manager == pre.rev_manager
    }

    /// Editor identity is stable across calls.
    pub open spec fn same_identity(pre: Self, post: Self) -> bool {
        &&& post.user_id == pre.user_id
        &&& post.block_id == pre.block_id
        &&& post.rev_manager.user_id == pre.rev_manager.user_id
        &&& post.rev_manager.object_id == pre.rev_manager.object_id
        &&& post.rev_manager.compact_threshold == pre.rev_manager.compact_threshold
        &&& post.meta_pad.block_id == pre.meta_pad.block_id
    }

    /// Builds the editor for one block: replays the locally persisted history
    /// when one exists, otherwise bootstraps from the remote fetch capability
    /// built from the given token. That capability always reports an empty
    /// remote history, so a block with no history at all starts fresh with an
    /// empty pad — never an error. A failed load yields an error, never a
    /// partially initialized editor.
    pub fn new(
        user_id: &str,
        token: &str,
        block_id: &str,
        rev_manager: RevisionManager,
    ) -> (r: Result<Self, RevError>)
        requires
            rev_manager.object_id@ == block_id@,
        ensures
            r matches Ok(ed) ==> ed.wf() && ed.block_id@ == block_id@ && ed.user_id@ == user_id@,
            rev_manager.revisions@.len() > 0 ==> (r is Ok <==> valid_history(
                rev_manager.revisions.deep_view(),
            )),
            rev_manager.revisions@.len() > 0 ==> (match r {
                Ok(ed) => ed.meta_pad.rows_view() == replay(rev_manager.revisions.deep_view())
                    && ed.rev_manager.revisions == rev_manager.revisions,
                Err(_) => true,
            }),
            rev_manager.revisions@.len() == 0 ==> r is Ok,
            rev_manager.revisions@.len() == 0 ==> (match r {
                Ok(ed) => ed.meta_pad.rows_view() == Seq::<RowView>::empty()
                    && ed.rev_manager.revisions@.len() == 0,
                Err(_) => true,
            }),
            r matches Err(e) ==> e is Load || e is Fetch,
    {
        let cloud = GridBlockMetaRevisionCloudService { token: token.to_owned() };
        let mut rev_manager = rev_manager;
        let loaded = if rev_manager.revisions.len() == 0 {
            // No local history: bootstrap from the remote authority. This
            // deployment's capability reports an empty remote history, which
            // means "start fresh" — there is nothing to persist, and the
            // replay of nothing is the empty pad.
            match cloud.fetch_object(user_id, block_id) {
                Err(_) => Err(RevError::Fetch),
                Ok(fetched) => {
                    proof {
                        assert(fetched.deep_view() =~= Seq::<RevView>::empty());
                        assert(valid_history(fetched.deep_view()));
                        assert(replay(fetched.deep_view()) == Seq::<RowView>::empty());
                    }
                    rev_manager.load_fetched(fetched)
                },
            }
        } else {
            rev_manager.load::<GridBlockMetaRevisionCloudService>(None)
        };
        match loaded {
            Err(e) => Err(e),
            Ok(pad) => Ok(
                ClientGridBlockMetaEditor {
                    user_id: user_id.to_owned(),
                    block_id: block_id.to_owned(),
                    meta_pad: pad,
                    rev_manager,
                },
            ),
        }
    }

    /// Turns one change into a revision and hands it to the manager: issues
    /// the next id pair, builds the revision over the change's payload and
    /// checksum, and persists it (compacting when the store outgrows its
    /// threshold). The pad is not touched.
    fn apply_change(&mut self, change: GridBlockMetaChange) -> (r: Result<(), RevError>)
        requires
            old(self).can_issue(),
            valid_history(old(self).rev_manager.revisions.deep_view()),
            old(self).rev_manager.rev_id_counter == last_rev_id(
                old(self).rev_manager.revisions.deep_view(),
            ),
            old(self).meta_pad.block_id@ == old(self).block_id@,
            old(self).rev_manager.object_id@ == old(self).block_id@,
            old(self).meta_pad.rows_view() == apply_ops(
                replay(old(self).rev_manager.revisions.deep_view()),
                change.payload@,
            ),
            change.checksum == state_checksum(old(self).meta_pad.rows_view()),
        ensures
            r is Ok,
            final(self).wf(),
            final(self).meta_pad == old(self).meta_pad,
            Self::same_identity(*old(self), *final(self)),
            Self::committed(*old(self), *final(self), change.payload@, change.checksum),
    {
        let ghost store = self.rev_manager.revisions.deep_view();
        let (base_rev_id, rev_id) = self.rev_manager.next_rev_id_pair();
        let revision = Revision::new(
            self.rev_manager.object_id.as_str(),
            base_rev_id,
            rev_id,
            change.payload,
            self.user_id.as_str(),
            change.checksum,
        );
        proof {
            assert(revision@ =~= old(self).local_revision(revision@.payload, change.checksum));
            lemma_ascending_push(store, revision@);
            lemma_history_push(Seq::<RowView>::empty(), store, revision@);
            assert(valid_history(store.push(revision@)));
        }
        let compactor = GridBlockMetaRevisionCompactor {};
        let res = self.rev_manager.add_local_revision(&revision, &compactor);
        proof {
            let appended = store.push(revision@);
            let store2 = self.rev_manager.revisions.deep_view();
            assert(replay(store2) == replay(appended));
            assert(appended[appended.len() - 1] == revision@);
            if store2 != appended {
                assert(store2 == seq![compact_of(appended)]);
                assert(store2[store2.len() - 1].rev_id == revision@.rev_id);
            }
            assert(last_rev_id(store2) == revision@.rev_id);
        }
        match res {
            Ok(()) => Ok(()),
            Err(e) => Err(e),
        }
    }

    /// Adds a row of this block: mutates the pad and, when the add was not a
    /// no-op, commits the resulting change as the next revision.
    pub fn create_row(&mut self, row: RowMeta) -> (r: Result<(), RevError>)
        requires
            old(self).wf(),
            old(self).can_issue(),
            row@.block_id == old(self).block_id@,
        ensures
            r is Ok,
            final(self).wf(),
            Self::same_identity(*old(self), *final(self)),
            contains_row(old(self).meta_pad.rows_view(), row@.id) ==> {
                &&& final(self).meta_pad.rows_view() == old(self).meta_pad.rows_view()
                &&& Self::log_unchanged(*old(self), *final(self))
            },
            !contains_row(old(self).meta_pad.rows_view(), row@.id) ==> ({
                let newrows = old(self).meta_pad.rows_view().push(row@);
                &&& final(self).meta_pad.rows_view() == newrows
                &&& Self::committed(
                    *old(self),
                    *final(self),
                    seq![OpView::Insert { row: row@ }],
                    state_checksum(newrows),
                )
            }),
    {
        match self.meta_pad.add_row(row) {
            None => Ok(()),
            Some(change) => self.apply_change(change),
        }
    }

    /// Deletes the named rows from the block: absent ids are skipped, and a
    /// batch that deleted nothing commits no revision.
    pub fn delete_rows(&mut self, ids: Vec<String>) -> (r: Result<(), RevError>)
        requires
            old(self).wf(),
            old(self).can_issue(),
        ensures
            r is Ok,
            final(self).wf(),
            Self::same_identity(*old(self), *final(self)),
            final(self).meta_pad.rows_view() == remove_all(
                old(self).meta_pad.rows_view(),
                ids.deep_view(),
            ),
            delete_ops(old(self).meta_pad.rows_view(), ids.deep_view()).len() == 0 ==> {
                &&& final(self).meta_pad.rows_view() == old(self).meta_pad.rows_view()
                &&& Self::log_unchanged(*old(self), *final(self))
            },
            delete_ops(old(self).meta_pad.rows_view(), ids.deep_view()).len() > 0
                ==> Self::committed(
                *old(self),
                *final(self),
                delete_ops(old(self).meta_pad.rows_view(), ids.deep_view()),
                state_checksum(final(self).meta_pad.rows_view()),
            ),
    {
        match self.meta_pad.delete_rows(&ids) {
            None => Ok(()),
            Some(change) => self.apply_change(change),
        }
    }

    /// Updates one row through a sparse changeset: fails with `NotFound` when
    /// the row id is absent, and commits no revision when the changeset
    /// leaves the row as it was.
    pub fn update_row(&mut self, changeset: RowMetaChangeset) -> (r: Result<(), RevError>)
        requires
            old(self).wf(),
            old(self).can_issue(),
        ensures
            final(self).wf(),
            Self::same_identity(*old(self), *final(self)),
            !contains_row(old(self).meta_pad.rows_view(), changeset@.row_id) ==> {
                &&& (match r {
                    Err(e) => e matches RevError::NotFound { row_ids } && row_ids.deep_view()
                        == seq![changeset@.row_id],
                    Ok(_) => false,
                })
                &&& final(self).meta_pad.rows_view() == old(self).meta_pad.rows_view()
                &&& Self::log_unchanged(*old(self), *final(self))
            },
            contains_row(old(self).meta_pad.rows_view(), changeset@.row_id) ==> ({
                let row0 = find_row(old(self).meta_pad.rows_view(), changeset@.row_id)->0;
                let newr = updated_row(row0, changeset@.cells);
                &&& r is Ok
                &&& (newr.cells == row0.cells ==> final(self).meta_pad.rows_view() == old(
                    self,
                ).meta_pad.rows_view() && Self::log_unchanged(*old(self), *final(self)))
                &&& (newr.cells != row0.cells ==> ({
                    let newrows = replace_first(old(self).meta_pad.rows_view(), newr);
                    &&& final(self).meta_pad.rows_view() == newrows
                    &&& Self::committed(
                        *old(self),
                        *final(self),
                        seq![OpView::Update { row: newr }],
                        state_checksum(newrows),
                    )
                }))
            }),
    {
        match self.meta_pad.update_row(changeset) {
            Err(e) => Err(e),
            Ok(None) => Ok(()),
            Ok(Some(change)) => self.apply_change(change),
        }
    }

    /// Reads the named rows from the pad, in request order, without mutating:
    /// a read between mutations observes exactly the materialized state the
    /// last committed mutation left behind. Fails with `NotFound` naming
    /// every absent id.
    pub fn get_rows(&self, row_ids: Vec<String>) -> (r: Result<Vec<RowMeta>, RevError>)
        ensures
            r is Ok <==> missing_ids(self.meta_pad.rows_view(), row_ids.deep_view()).len() == 0,
            r matches Ok(rs) ==> rs.deep_view() == selected_rows(
                self.meta_pad.rows_view(),
                row_ids.deep_view(),
            ),
            r matches Err(e) ==> e matches RevError::NotFound { row_ids: m } && m.deep_view()
                == missing_ids(self.meta_pad.rows_view(), row_ids.deep_view()),
    {
        self.meta_pad.get_rows(row_ids)
    }
}

/// Reads never disturb the pad, so any two reads of the same request against
/// one editor state select the same rows: between mutations every snapshot is
/// consistent. That a read issued after a mutation completes observes the
/// mutation's effect is stated by each mutation's own contract, which pins the
/// pad state the mutation leaves behind.
pub proof fn lemma_reads_consistent(
    ed: &ClientGridBlockMetaEditor,
    ids: Seq<Seq<char>>,
    first_read: Seq<RowView>,
    second_read: Seq<RowView>,
)
    requires
        first_read == selected_rows(ed.meta_pad.rows_view(), ids),
        second_read == selected_rows(ed.meta_pad.rows_view(), ids),
    ensures
        first_read == second_read,
{
}

/// Across two committed changes the revisions' id pairs continue exactly:
/// each revision id is one above its base, the second revision's base is the
/// first revision's id (the highest id previously known for the object), and
/// revision ids strictly increase in the order the originating pad mutations
/// committed.
pub proof fn lemma_commits_order_ids(
    first_pre: ClientGridBlockMetaEditor,
    mid: ClientGridBlockMetaEditor,
    second_post: ClientGridBlockMetaEditor,
    first_payload: Seq<OpView>,
    first_checksum: u64,
    second_payload: Seq<OpView>,
    second_checksum: u64,
)
    requires
        ClientGridBlockMetaEditor::committed(first_pre, mid, first_payload, first_checksum),
        ClientGridBlockMetaEditor::committed(mid, second_post, second_payload, second_checksum),
    ensures
        ({
            let first_rev = first_pre.local_revision(first_payload, first_checksum);
            let second_rev = mid.local_revision(second_payload, second_checksum);
            &&& first_rev.rev_id == first_rev.base_rev_id + 1
            &&& second_rev.rev_id == second_rev.base_rev_id + 1
            &&& second_rev.base_rev_id == first_rev.rev_id
            &&& second_rev.rev_id > first_rev.rev_id
        }),
{
}

} // verus!
