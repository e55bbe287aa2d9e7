use vstd::prelude::*;
use crate::delta::{clone_ops, BlockDelta, OpView, RowOp};
use crate::errors::RevError;
use crate::pad::GridBlockMetaPad;
use crate::revision::{
    compact_of, concat_payloads, contiguous, lemma_compaction_equivalent, replay, valid_history,
    RevView, Revision,
};
use crate::row::RowView;

verus! {

// ---------------------------------------------------------------------------
// Remote fetch capability
// ---------------------------------------------------------------------------

/// Pluggable remote-fetch capability, implemented by the service a deployment
/// talks to. Returns the object's canonical ordered revision list; an empty
/// list means "no remote history yet" and is not an error, while a transport
/// or auth failure surfaces as an error, kept distinct from emptiness.
pub trait RevisionCloudService {
    fn fetch_object(&self, user_id: &str, object_id: &str) -> Result<Vec<Revision>, RevError>;
}

/// The block editor's own fetch capability: this deployment keeps no remote
/// grid-block history, so every fetch succeeds with an empty list.
pub struct GridBlockMetaRevisionCloudService {
    pub token: String,
}

impl RevisionCloudService for GridBlockMetaRevisionCloudService {
    /// Always succeeds with the empty list: an empty remote history means
    /// "start fresh", and is never reported as an error.
    fn fetch_object(&self, user_id: &str, object_id: &str) -> (r: Result<Vec<Revision>, RevError>)
        ensures
            r matches Ok(v) && v@.len() == 0,
    {
        Ok(Vec::new())
    }
}

// ---------------------------------------------------------------------------
// Compaction
// ---------------------------------------------------------------------------

/// Collapses revision runs for the grid-block object: the merged payload is
/// the concatenation of the run's payloads, applied in order.
pub struct GridBlockMetaRevisionCompactor {}

impl GridBlockMetaRevisionCompactor {
    /// The cumulative payload of a run: its payloads merged in order.
    pub fn delta_from_revisions(&self, revisions: &Vec<Revision>) -> (d: BlockDelta)
        ensures
            d@ == concat_payloads(revisions.deep_view()),
    {
        let ghost revs = revisions.deep_view();
        let mut out: Vec<RowOp> = Vec::new();
        let mut i: usize = 0;
        proof {
            assert(revs.skip(0) =~= revs);
            assert(out.deep_view() =~= Seq::<OpView>::empty());
        }
        while i < revisions.len()
            invariant
                i <= revs.len(),
                revs == revisions.deep_view(),
                concat_payloads(revs) == out.deep_view() + concat_payloads(revs.skip(i as int)),
            decreases revs.len() - i,
        {
            proof {
                assert(revs.skip(i as int)[0] == revs[i as int]);
                assert(revs.skip(i as int).skip(1) =~= revs.skip(i as int + 1));
            }
            let ghost prev = out.deep_view();
            let mut part = clone_ops(&revisions[i].payload.ops);
            out.append(&mut part);
            proof {
                assert(out.deep_view() =~= prev + revs[i as int].payload);
                assert(prev + (revs[i as int].payload + concat_payloads(revs.skip(i as int + 1)))
                    =~= out.deep_view() + concat_payloads(revs.skip(i as int + 1)));
            }
            i += 1;
        }
        proof {
            assert(revs.skip(revs.len() as int) =~= Seq::<RevView>::empty());
            assert(out.deep_view() + Seq::<OpView>::empty() =~= out.deep_view());
        }
        BlockDelta { ops: out }
    }

    /// Compacts a run into its single equivalent revision: the run's first
    /// base id, its last revision id, checksum and author, and the merged
    /// payload. Fails exactly when the run is empty or not contiguous, and
    /// changes nothing.
    pub fn compact(&self, revisions: &Vec<Revision>) -> (r: Result<Revision, RevError>)
        ensures
            r is Ok <==> revisions@.len() > 0 && contiguous(revisions.deep_view()),
            r matches Ok(c) ==> c@ == compact_of(revisions.deep_view()),
            r matches Err(e) ==> e is Compaction,
    {
        let ghost revs = revisions.deep_view();
        if revisions.len() == 0 {
            return Err(RevError::Compaction);
        }
        let mut i: usize = 0;
        while i < revisions.len()
            invariant
                i <= revs.len(),
                revs == revisions.deep_view(),
                revs.len() == revisions@.len() > 0,
                forall|k: int| 0 <= k < i ==> revs[k].base_rev_id < revs[k].rev_id,
                forall|k: int| 0 < k < i ==> revs[k].base_rev_id == revs[k - 1].rev_id,
            decreases revs.len() - i,
        {
            let rev = &revisions[i];
            if rev.base_rev_id >= rev.rev_id {
                proof {
                    let k = i as int;
                    assert(!contiguous(revs)) by {
                        if contiguous(revs) {
                            assert(revs[k].base_rev_id < revs[k].rev_id);
                        }
                    }
                }
                return Err(RevError::Compaction);
            }
            if i > 0 && rev.base_rev_id != revisions[i - 1].rev_id {
                proof {
                    let k = i as int;
                    assert(!contiguous(revs)) by {
                        if contiguous(revs) {
                            assert(revs[k].base_rev_id == revs[k - 1].rev_id);
                        }
                    }
                }
                return Err(RevError::Compaction);
            }
            i += 1;
        }
        proof {
            assert(contiguous(revs));
        }
        let merged = self.delta_from_revisions(revisions);
        let first = &revisions[0];
        let last = &revisions[revisions.len() - 1];
        let compacted = Revision::new(
            first.object_id.as_str(),
            first.base_rev_id,
            last.rev_id,
            merged,
            last.author_id.as_str(),
            last.checksum,
        );
        proof {
            assert(compacted@ =~= compact_of(revs));
        }
        Ok(compacted)
    }
}

// ---------------------------------------------------------------------------
// The revision manager
// ---------------------------------------------------------------------------

/// The last revision id of a history, or zero when it is empty: the point the
/// id-pairing sequence continues from.
pub open spec fn last_rev_id(revs: Seq<RevView>) -> u64 {
    if revs.len() == 0 {
        0
    } else {
        revs[revs.len() - 1].rev_id
    }
}

/// What one issuance of an id pair does: the pair starts at the counter the
/// manager held before the call, the revision id is one above its base, and
/// the counter moves to the issued revision id.
pub open spec fn issued_pair(pre: RevisionManager, post: RevisionManager, pair: (u64, u64)) -> bool {
    &&& pair.0 == pre.rev_id_counter
    &&& pair.1 == pair.0 + 1
    &&& post.rev_id_counter == pair.1
}

/// The store after persisting one revision: a stale or re-submitted revision
/// id changes nothing (re-persisting is idempotent); a fresh one is appended,
/// and once the store outgrows the compaction threshold a contiguous store is
/// collapsed into its single equivalent revision. A non-contiguous store is
/// kept as it is: compaction is abandoned, never destructive.
pub open spec fn store_after_add(store: Seq<RevView>, rev: RevView, threshold: int) -> Seq<
    RevView,
> {
    if store.len() > 0 && rev.rev_id <= last_rev_id(store) {
        store
    } else {
        let appended = store.push(rev);
        if appended.len() > threshold && contiguous(appended) {
            seq![compact_of(appended)]
        } else {
            appended
        }
    }
}

/// Owns the id-pairing sequence and the local durable revision store for one
/// object, and builds the object's pad on first load, from local history or
/// from a remote authority.
pub struct RevisionManager {
    pub user_id: String,
    pub object_id: String,
    /// The highest revision id known for this object in this session.
    pub rev_id_counter: u64,
    /// The local durable store for this object's revisions (one per object,
    /// exclusively owned by this manager).
    pub revisions: Vec<Revision>,
    /// How many stored revisions trigger compaction: a configurable policy.
    pub compact_threshold: usize,
}

impl RevisionManager {
    pub fn new(user_id: &str, object_id: &str, compact_threshold: usize) -> (r: Self)
        ensures
            r.user_id@ == user_id@,
            r.object_id@ == object_id@,
            r.rev_id_counter == 0,
            r.revisions@.len() == 0,
            r.compact_threshold == compact_threshold,
    {
        RevisionManager {
            user_id: user_id.to_owned(),
            object_id: object_id.to_owned(),
            rev_id_counter: 0,
            revisions: Vec::new(),
            compact_threshold,
        }
    }

    /// Issues the next `(base_rev_id, rev_id)` pair: the base is the highest
    /// id issued or loaded so far, the revision id is one above it, and no
    /// later call can return an overlapping pair.
    pub fn next_rev_id_pair(&mut self) -> (r: (u64, u64))
        requires
            old(self).rev_id_counter < u64::MAX,
        ensures
            issued_pair(*old(self), *final(self), r),
            r.1 == r.0 + 1,
            r.0 == old(self).rev_id_counter,
            r.1 > old(self).rev_id_counter,
            final(self).user_id == old(self).user_id,
            final(self).object_id == old(self).object_id,
            final(self).revisions == old(self).revisions,
            final(self).compact_threshold == old(self).compact_threshold,
    {
        let base = self.rev_id_counter;
        let rev = base + 1;
        self.rev_id_counter = rev;
        (base, rev)
    }

    /// On first use, builds the pad: from the locally persisted history when
    /// one exists, otherwise from the remote authority when a fetch capability
    /// is given, otherwise from empty state. A fetched history is persisted
    /// locally before use. Fails with a load error on a corrupt history and
    /// with a fetch error when the remote authority is unreachable — the two
    /// are distinct, and a failed load leaves the manager as it was, never
    /// with a partially initialized pad.
    pub fn load<C: RevisionCloudService>(&mut self, cloud: Option<&C>) -> (r: Result<
        GridBlockMetaPad,
        RevError,
    >)
        ensures
            final(self).user_id == old(self).user_id,
            final(self).object_id == old(self).object_id,
            final(self).compact_threshold == old(self).compact_threshold,
            r matches Ok(pad) ==> {
                &&& valid_history(final(self).revisions.deep_view())
                &&& pad.rows_view() == replay(final(self).revisions.deep_view())
                &&& pad.block_id@ == old(self).object_id@
                &&& final(self).rev_id_counter == last_rev_id(final(self).revisions.deep_view())
            },
            r is Err ==> *final(self) == *old(self),
            r matches Err(e) ==> e is Load || e is Fetch,
            old(self).revisions@.len() > 0 ==> {
                &&& (r is Ok <==> valid_history(old(self).revisions.deep_view()))
                &&& final(self).revisions == old(self).revisions
                &&& (r is Err ==> (r matches Err(e) && e is Load))
            },
            old(self).revisions@.len() == 0 && cloud is None ==> r is Ok
                && final(self).revisions@.len() == 0,
    {
        if self.revisions.len() > 0 {
            match GridBlockMetaPad::from_revisions(self.object_id.as_str(), &self.revisions) {
                Ok(pad) => {
                    let last = self.revisions[self.revisions.len() - 1].rev_id;
                    self.rev_id_counter = last;
                    Ok(pad)
                },
                Err(e) => Err(e),
            }
        } else {
            match cloud {
                None => {
                    self.rev_id_counter = 0;
                    let pad = GridBlockMetaPad::new_empty(self.object_id.as_str());
                    proof {
                        let store = self.revisions.deep_view();
                        assert(store =~= Seq::<RevView>::empty());
                        assert(valid_history(store));
                        assert(replay(store) == Seq::<RowView>::empty());
                    }
                    Ok(pad)
                },
                Some(c) => {
                    match c.fetch_object(self.user_id.as_str(), self.object_id.as_str()) {
                        Err(_) => Err(RevError::Fetch),
                        Ok(fetched) => self.load_fetched(fetched),
                    }
                },
            }
        }
    }

    /// Persists a remotely fetched canonical history and builds the pad from
    /// it, verifying it whole. Succeeds exactly on valid histories (the empty
    /// history is valid: an empty remote history means "start fresh"); a
    /// corrupt fetched history is rejected and the manager is left as it was.
    pub fn load_fetched(&mut self, fetched: Vec<Revision>) -> (r: Result<
        GridBlockMetaPad,
        RevError,
    >)
        requires
            old(self).revisions@.len() == 0,
        ensures
            final(self).user_id == old(self).user_id,
            final(self).object_id == old(self).object_id,
            final(self).compact_threshold == old(self).compact_threshold,
            r is Ok <==> valid_history(fetched.deep_view()),
            r matches Ok(pad) ==> {
                &&& final(self).revisions.deep_view() == fetched.deep_view()
                &&& pad.rows_view() == replay(fetched.deep_view())
                &&& pad.block_id@ == old(self).object_id@
                &&& final(self).rev_id_counter == last_rev_id(fetched.deep_view())
            },
            r is Err ==> *final(self) == *old(self),
            r matches Err(e) ==> e is Load,
    {
        match GridBlockMetaPad::from_revisions(self.object_id.as_str(), &fetched) {
            Err(e) => Err(e),
            Ok(pad) => {
                let last = if fetched.len() > 0 {
                    fetched[fetched.len() - 1].rev_id
                } else {
                    0
                };
                self.revisions = fetched;
                self.rev_id_counter = last;
                Ok(pad)
            },
        }
    }

    /// Appends one revision to the local durable store, then evaluates the
    /// compaction policy: once the store outgrows the threshold, a contiguous
    /// store is collapsed into its single equivalent revision; a failed
    /// compaction is abandoned and the originals are kept. Re-submitting an
    /// already-persisted revision id is an idempotent no-op. Replaying the
    /// store after the call materializes the same rows as replaying the
    /// appended history.
    pub fn add_local_revision(
        &mut self,
        revision: &Revision,
        compactor: &GridBlockMetaRevisionCompactor,
    ) -> (r: Result<(), RevError>)
        ensures
            r is Ok,
            final(self).user_id == old(self).user_id,
            final(self).object_id == old(self).object_id,
            final(self).rev_id_counter == old(self).rev_id_counter,
            final(self).compact_threshold == old(self).compact_threshold,
            final(self).revisions.deep_view() == store_after_add(
                old(self).revisions.deep_view(),
                revision@,
                old(self).compact_threshold as int,
            ),
            (old(self).revisions@.len() == 0 || revision@.rev_id > last_rev_id(
                old(self).revisions.deep_view(),
            )) && valid_history(old(self).revisions.deep_view().push(revision@)) ==> {
                &&& valid_history(final(self).revisions.deep_view())
                &&& replay(final(self).revisions.deep_view()) == replay(
                    old(self).revisions.deep_view().push(revision@),
                )
            },
    {
        let ghost old_store = self.revisions.deep_view();
        if self.revisions.len() > 0 {
            let last = self.revisions[self.revisions.len() - 1].rev_id;
            if revision.rev_id <= last {
                return Ok(());
            }
        }
        self.revisions.push(revision.clone());
        let ghost appended = old_store.push(revision@);
        proof {
            assert(self.revisions.deep_view() =~= appended);
        }
        if self.revisions.len() > self.compact_threshold {
            match compactor.compact(&self.revisions) {
                Ok(compacted) => {
                    let single: Vec<Revision> = vec![compacted];
                    proof {
                        assert(single.deep_view() =~= seq![compact_of(appended)]);
                        lemma_compaction_equivalent(appended);
                    }
                    self.revisions = single;
                },
                Err(_) => {},
            }
        }
        Ok(())
    }
}

/// Issued id pairs are strictly increasing: over two consecutive issuances
/// every pair steps its base by one, and the second pair lies strictly above
/// the first.
pub proof fn lemma_issued_pairs_increase(
    pre: RevisionManager,
    mid: RevisionManager,
    post: RevisionManager,
    first_pair: (u64, u64),
    second_pair: (u64, u64),
)
    requires
        issued_pair(pre, mid, first_pair),
        issued_pair(mid, post, second_pair),
    ensures
        first_pair.1 == first_pair.0 + 1,
        second_pair.1 == second_pair.0 + 1,
        second_pair.0 == first_pair.1,
        second_pair.1 > first_pair.1 > first_pair.0,
{
}

} // verus!
