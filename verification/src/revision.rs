use vstd::prelude::*;
use crate::checksum::state_checksum;
use crate::delta::{apply_ops, lemma_apply_ops_concat, BlockDelta, OpView};
use crate::row::RowView;

verus! {

/// Mathematical model of one revision record.
#[verifier::ext_equal]
pub struct RevView {
    pub object_id: Seq<char>,
    pub base_rev_id: u64,
    pub rev_id: u64,
    pub payload: Seq<OpView>,
    pub checksum: u64,
    pub author_id: Seq<char>,
}

/// An immutable record of one committed change to a block: the object it
/// belongs to, the id pair that orders it, the operation payload, the content
/// checksum of the state after applying the payload, and its author.
pub struct Revision {
    pub object_id: String,
    pub base_rev_id: u64,
    pub rev_id: u64,
    pub payload: BlockDelta,
    pub checksum: u64,
    pub author_id: String,
}

impl View for Revision {
    type V = RevView;

    open spec fn view(&self) -> RevView {
        RevView {
            object_id: self.object_id@,
            base_rev_id: self.base_rev_id,
            rev_id: self.rev_id,
            payload: self.payload@,
            checksum: self.checksum,
            author_id: self.author_id@,
        }
    }
}

impl DeepView for Revision {
    type V = RevView;

    open spec fn deep_view(&self) -> RevView {
        self.view()
    }
}

impl Revision {
    pub fn new(
        object_id: &str,
        base_rev_id: u64,
        rev_id: u64,
        payload: BlockDelta,
        author_id: &str,
        checksum: u64,
    ) -> (r: Self)
        ensures
            r@ == (RevView {
                object_id: object_id@,
                base_rev_id,
                rev_id,
                payload: payload@,
                checksum,
                author_id: author_id@,
            }),
    {
        let r = Revision {
            object_id: object_id.to_owned(),
            base_rev_id,
            rev_id,
            payload,
            checksum,
            author_id: author_id.to_owned(),
        };
        proof {
            assert(r@ =~= (RevView {
                object_id: object_id@,
                base_rev_id,
                rev_id,
                payload: r.payload@,
                checksum,
                author_id: author_id@,
            }));
        }
        r
    }
}

impl Clone for Revision {
    fn clone(&self) -> (r: Self)
        ensures
            r@ == self@,
    {
        let r = Revision {
            object_id: self.object_id.clone(),
            base_rev_id: self.base_rev_id,
            rev_id: self.rev_id,
            payload: self.payload.clone(),
            checksum: self.checksum,
            author_id: self.author_id.clone(),
        };
        proof {
            assert(r@ =~= self@);
        }
        r
    }
}

/// The transient output of one pad mutation: the operation payload and the
/// content checksum of the pad after the mutation. Consumed immediately to
/// build a revision; never persisted itself.
pub struct GridBlockMetaChange {
    pub payload: BlockDelta,
    pub checksum: u64,
}

// ---------------------------------------------------------------------------
// Replaying a history
// ---------------------------------------------------------------------------

/// Folds an ordered revision history over a starting row collection.
pub open spec fn replay_from(rows: Seq<RowView>, revs: Seq<RevView>) -> Seq<RowView>
    decreases revs.len(),
{
    if revs.len() == 0 {
        rows
    } else {
        replay_from(apply_ops(rows, revs[0].payload), revs.skip(1))
    }
}

/// The row collection a history materializes when replayed from empty state.
pub open spec fn replay(revs: Seq<RevView>) -> Seq<RowView> {
    replay_from(Seq::empty(), revs)
}

/// Revision ids strictly increase along the history.
pub open spec fn ascending(revs: Seq<RevView>) -> bool {
    forall|i: int, j: int| 0 <= i < j < revs.len() ==> revs[i].rev_id < revs[j].rev_id
}

/// Every revision's checksum equals the content checksum of the state reached
/// right after applying its payload, starting from `rows`.
pub open spec fn checksums_ok_from(rows: Seq<RowView>, revs: Seq<RevView>) -> bool
    decreases revs.len(),
{
    if revs.len() == 0 {
        true
    } else {
        &&& revs[0].checksum == state_checksum(apply_ops(rows, revs[0].payload))
        &&& checksums_ok_from(apply_ops(rows, revs[0].payload), revs.skip(1))
    }
}

/// A history is usable when its ids ascend and every checksum verifies
/// against a replay from empty state.
pub open spec fn valid_history(revs: Seq<RevView>) -> bool {
    ascending(revs) && checksums_ok_from(Seq::empty(), revs)
}

/// A run is contiguous when each revision was composed against its
/// predecessor: its base id is the predecessor's revision id, and every
/// revision id is strictly above its base.
pub open spec fn contiguous(revs: Seq<RevView>) -> bool {
    &&& forall|i: int| 0 <= i < revs.len() ==> revs[i].base_rev_id < revs[i].rev_id
    &&& forall|i: int| 0 < i < revs.len() ==> revs[i].base_rev_id == revs[i - 1].rev_id
}

/// The cumulative payload of a run: its payloads merged in order.
pub open spec fn concat_payloads(revs: Seq<RevView>) -> Seq<OpView>
    decreases revs.len(),
{
    if revs.len() == 0 {
        Seq::empty()
    } else {
        revs[0].payload + concat_payloads(revs.skip(1))
    }
}

/// The single revision a run compacts into: the run's first base id, its last
/// revision id and checksum, and the merged payload.
pub open spec fn compact_of(revs: Seq<RevView>) -> RevView
    recommends
        revs.len() > 0,
{
    RevView {
        object_id: revs[0].object_id,
        base_rev_id: revs[0].base_rev_id,
        rev_id: revs[revs.len() - 1].rev_id,
        payload: concat_payloads(revs),
        checksum: revs[revs.len() - 1].checksum,
        author_id: revs[revs.len() - 1].author_id,
    }
}

/// Replaying a history equals applying its merged payload once.
pub proof fn lemma_replay_from_concat(rows: Seq<RowView>, revs: Seq<RevView>)
    ensures
        replay_from(rows, revs) == apply_ops(rows, concat_payloads(revs)),
    decreases revs.len(),
{
    if revs.len() == 0 {
        assert(apply_ops(rows, Seq::<OpView>::empty()) == rows);
    } else {
        lemma_apply_ops_concat(rows, revs[0].payload, concat_payloads(revs.skip(1)));
        lemma_replay_from_concat(apply_ops(rows, revs[0].payload), revs.skip(1));
    }
}

/// Replaying equal histories from empty state is deterministic: the
/// materialized rows, and hence their checksums, coincide.
pub proof fn lemma_replay_deterministic(
    revs: Seq<RevView>,
    rows1: Seq<RowView>,
    rows2: Seq<RowView>,
)
    requires
        rows1 == replay(revs),
        rows2 == replay(revs),
    ensures
        rows1 == rows2,
        state_checksum(rows1) == state_checksum(rows2),
{
}

/// Compacting a contiguous run and replaying the one compacted revision
/// yields the same rows as replaying the original run; with a valid run the
/// final checksums coincide as well, and the compacted revision verifies.
pub proof fn lemma_compaction_equivalent(revs: Seq<RevView>)
    requires
        revs.len() > 0,
        contiguous(revs),
    ensures
        replay(seq![compact_of(revs)]) == replay(revs),
        checksums_ok_from(Seq::empty(), revs) ==> valid_history(seq![compact_of(revs)]),
{
    let c = compact_of(revs);
    let single = seq![c];
    let once = apply_ops(Seq::empty(), c.payload);
    assert(single[0] == c);
    assert(single.skip(1) =~= Seq::<RevView>::empty());
    assert(replay_from(Seq::empty(), single) == replay_from(once, single.skip(1)));
    assert(replay_from(once, single.skip(1)) == once);
    lemma_replay_from_concat(Seq::empty(), revs);
    if checksums_ok_from(Seq::empty(), revs) {
        lemma_valid_last_checksum(Seq::empty(), revs);
        assert(c.checksum == state_checksum(once));
        assert(checksums_ok_from(once, single.skip(1)));
        assert(checksums_ok_from(Seq::empty(), single));
        assert(ascending(single));
    }
}

/// Appending one revision to a history: the replay extends by one payload
/// application, and the checksums verify exactly when they did before and the
/// new revision's checksum matches the extended replay.
pub proof fn lemma_history_push(rows: Seq<RowView>, revs: Seq<RevView>, rev: RevView)
    ensures
        replay_from(rows, revs.push(rev)) == apply_ops(replay_from(rows, revs), rev.payload),
        checksums_ok_from(rows, revs.push(rev)) <==> (checksums_ok_from(rows, revs)
            && rev.checksum == state_checksum(apply_ops(replay_from(rows, revs), rev.payload))),
    decreases revs.len(),
{
    let p = revs.push(rev);
    if revs.len() == 0 {
        let next = apply_ops(rows, rev.payload);
        assert(p.len() == 1 && p[0] == rev);
        assert(p.skip(1) =~= Seq::<RevView>::empty());
        assert(replay_from(rows, p) == replay_from(next, p.skip(1)));
        assert(replay_from(next, p.skip(1)) == next);
        assert(replay_from(rows, revs) == rows);
        assert(checksums_ok_from(next, p.skip(1)));
        assert(checksums_ok_from(rows, p) == (rev.checksum == state_checksum(next)));
        assert(checksums_ok_from(rows, revs));
    } else {
        let mid = apply_ops(rows, revs[0].payload);
        assert(p[0] == revs[0]);
        assert(p.skip(1) =~= revs.skip(1).push(rev));
        lemma_history_push(mid, revs.skip(1), rev);
        assert(replay_from(rows, p) == replay_from(mid, p.skip(1)));
        assert(replay_from(rows, revs) == replay_from(mid, revs.skip(1)));
        assert(checksums_ok_from(rows, p) == ((p[0].checksum == state_checksum(mid))
            && checksums_ok_from(mid, p.skip(1))));
        assert(checksums_ok_from(rows, revs) == ((revs[0].checksum == state_checksum(mid))
            && checksums_ok_from(mid, revs.skip(1))));
    }
}

/// Appending a revision whose id lies strictly above the history's last id
/// keeps the ids ascending.
pub proof fn lemma_ascending_push(revs: Seq<RevView>, rev: RevView)
    requires
        ascending(revs),
        revs.len() > 0 ==> rev.rev_id > revs[revs.len() - 1].rev_id,
    ensures
        ascending(revs.push(rev)),
{
    let p = revs.push(rev);
    assert forall|i: int, j: int| 0 <= i < j < p.len() implies p[i].rev_id < p[j].rev_id by {
        if j == revs.len() {
            if i < revs.len() - 1 {
                assert(revs[i].rev_id < revs[revs.len() - 1].rev_id);
            }
        }
    }
}

/// In a checksum-verified history the last checksum is the checksum of the
/// replayed state.
pub proof fn lemma_valid_last_checksum(rows: Seq<RowView>, revs: Seq<RevView>)
    requires
        revs.len() > 0,
        checksums_ok_from(rows, revs),
    ensures
        revs[revs.len() - 1].checksum == state_checksum(replay_from(rows, revs)),
    decreases revs.len(),
{
    if revs.len() == 1 {
        assert(revs.skip(1) =~= Seq::<RevView>::empty());
    } else {
        lemma_valid_last_checksum(apply_ops(rows, revs[0].payload), revs.skip(1));
        assert(revs.skip(1)[revs.skip(1).len() - 1] == revs[revs.len() - 1]);
    }
}

} // verus!
