//! Signature store model: an index of signature records with at most one row
//! per (r, s, v, chain). A batch insert reports, per record, whether it was
//! newly stored or collided with an existing row; a collision is a diagnostic
//! event and never produces a second indistinguishable row.

use vstd::prelude::*;

use crate::types::{bytes_eq, sig_key, RecordView, SignatureRecord};

verus! {

/// What storing one record did.
pub enum StoreOutcome {
    /// The record was newly stored.
    Stored,
    /// A row with the same (r, s, v, chain) already existed; carries that
    /// row's transaction hash for diagnostic logging.
    Collision { existing_hash: String },
}

/// Mathematical view of a store outcome.
pub enum OutcomeView {
    Stored,
    Collision(Seq<char>),
}

impl DeepView for StoreOutcome {
    type V = OutcomeView;

    open spec fn deep_view(&self) -> OutcomeView {
        match self {
            StoreOutcome::Stored => OutcomeView::Stored,
            StoreOutcome::Collision { existing_hash } => OutcomeView::Collision(
                existing_hash.deep_view(),
            ),
        }
    }
}

/// The first row with the given uniqueness key, scanning in storage order.
pub open spec fn find_key(
    rs: Seq<RecordView>,
    key: (Seq<u8>, Seq<u8>, u64, Seq<char>),
) -> Option<RecordView>
    decreases rs.len(),
{
    if rs.len() == 0 {
        None
    } else if sig_key(rs.first()) == key {
        Some(rs.first())
    } else {
        find_key(rs.drop_first(), key)
    }
}

/// The first row with the given (r, s, v), any chain, in storage order.
pub open spec fn find_rsv(rs: Seq<RecordView>, r: Seq<u8>, s: Seq<u8>, v: u64) -> Option<
    RecordView,
>
    decreases rs.len(),
{
    if rs.len() == 0 {
        None
    } else if rs.first().r == r && rs.first().s == s && rs.first().v == v {
        Some(rs.first())
    } else {
        find_rsv(rs.drop_first(), r, s, v)
    }
}

/// One record inserted: a key collision keeps the index unchanged and
/// reports the existing row's hash; otherwise the record is appended.
pub open spec fn insert_one(rs: Seq<RecordView>, rec: RecordView) -> (Seq<RecordView>, OutcomeView) {
    match find_key(rs, sig_key(rec)) {
        Some(existing) => (rs, OutcomeView::Collision(existing.tx_hash)),
        None => (rs.push(rec), OutcomeView::Stored),
    }
}

/// A batch inserted record by record, in order.
pub open spec fn insert_batch(rs: Seq<RecordView>, batch: Seq<RecordView>) -> (
    Seq<RecordView>,
    Seq<OutcomeView>,
)
    decreases batch.len(),
{
    if batch.len() == 0 {
        (rs, Seq::empty())
    } else {
        let (rs1, outs) = insert_batch(rs, batch.drop_last());
        let (rs2, o) = insert_one(rs1, batch.last());
        (rs2, outs.push(o))
    }
}

/// Well-formed index: at most one row per (r, s, v, chain).
pub open spec fn index_wf(rs: Seq<RecordView>) -> bool {
    forall|i: int, j: int|
        #![trigger rs[i], rs[j]]
        0 <= i < j < rs.len() ==> sig_key(rs[i]) != sig_key(rs[j])
}

/// `find_key` misses exactly when no row has the key.
pub proof fn lemma_find_key_none(rs: Seq<RecordView>, key: (Seq<u8>, Seq<u8>, u64, Seq<char>))
    ensures
        find_key(rs, key) is None <==> forall|i: int| 0 <= i < rs.len() ==> sig_key(
            #[trigger] rs[i],
        ) != key,
    decreases rs.len(),
{
    if rs.len() > 0 {
        lemma_find_key_none(rs.drop_first(), key);
        assert forall|i: int| 1 <= i < rs.len() implies rs.drop_first()[i - 1] == #[trigger] rs[i] by {}
    }
}

/// Appending a row with a fresh key makes it the one `find_key` finds.
pub proof fn lemma_find_key_push(
    rs: Seq<RecordView>,
    key: (Seq<u8>, Seq<u8>, u64, Seq<char>),
    x: RecordView,
)
    requires
        find_key(rs, key) is None,
        sig_key(x) == key,
    ensures
        find_key(rs.push(x), key) == Some(x),
    decreases rs.len(),
{
    if rs.len() == 0 {
        assert(rs.push(x).first() == x);
    } else {
        assert(rs.push(x).first() == rs.first());
        assert(rs.push(x).drop_first() =~= rs.drop_first().push(x));
        lemma_find_key_push(rs.drop_first(), key, x);
    }
}

/// Scanning may start after a miss-free prefix.
proof fn lemma_find_key_skip(
    rs: Seq<RecordView>,
    key: (Seq<u8>, Seq<u8>, u64, Seq<char>),
    i: int,
)
    requires
        0 <= i <= rs.len(),
        forall|j: int| 0 <= j < i ==> sig_key(#[trigger] rs[j]) != key,
    ensures
        find_key(rs, key) == find_key(rs.skip(i), key),
    decreases i,
{
    if i == 0 {
        assert(rs.skip(0) =~= rs);
    } else {
        assert(rs.drop_first() =~= rs.skip(1));
        assert(rs.drop_first().skip(i - 1) =~= rs.skip(i));
        lemma_find_key_skip(rs.drop_first(), key, i - 1);
    }
}

/// Scanning may start after a miss-free prefix.
proof fn lemma_find_rsv_skip(rs: Seq<RecordView>, r: Seq<u8>, s: Seq<u8>, v: u64, i: int)
    requires
        0 <= i <= rs.len(),
        forall|j: int|
            0 <= j < i ==> !((#[trigger] rs[j]).r == r && rs[j].s == s && rs[j].v == v),
    ensures
        find_rsv(rs, r, s, v) == find_rsv(rs.skip(i), r, s, v),
    decreases i,
{
    if i == 0 {
        assert(rs.skip(0) =~= rs);
    } else {
        assert(rs.drop_first() =~= rs.skip(1));
        assert(rs.drop_first().skip(i - 1) =~= rs.skip(i));
        lemma_find_rsv_skip(rs.drop_first(), r, s, v, i - 1);
    }
}

/// Inserting a batch into a well-formed index keeps it well-formed: the
/// uniqueness policy can never produce two rows with one (r, s, v, chain).
pub proof fn lemma_insert_batch_wf(rs: Seq<RecordView>, batch: Seq<RecordView>)
    requires
        index_wf(rs),
    ensures
        index_wf(insert_batch(rs, batch).0),
    decreases batch.len(),
{
    if batch.len() > 0 {
        lemma_insert_batch_wf(rs, batch.drop_last());
        let rs1 = insert_batch(rs, batch.drop_last()).0;
        let rec = batch.last();
        if find_key(rs1, sig_key(rec)) is None {
            lemma_find_key_none(rs1, sig_key(rec));
            let rs2 = rs1.push(rec);
            assert forall|i: int, j: int|
                #![trigger rs2[i], rs2[j]]
                0 <= i < j < rs2.len() implies sig_key(rs2[i]) != sig_key(rs2[j]) by {
                if j < rs1.len() {
                    assert(rs2[i] == rs1[i] && rs2[j] == rs1[j]);
                } else {
                    assert(rs2[i] == rs1[i] && rs2[j] == rec);
                }
            }
        }
    }
}

/// The signature index: the persisted rows, in insertion order.
pub struct SignatureIndex {
    records: Vec<SignatureRecord>,
}

/// Exec copy of a record, view-preserving.
fn clone_record(rec: &SignatureRecord) -> (c: SignatureRecord)
    ensures
        c.deep_view() == rec.deep_view(),
{
    let c = SignatureRecord {
        chain: rec.chain.clone(),
        tx_hash: rec.tx_hash.clone(),
        address: rec.address.clone(),
        r: rec.r.clone(),
        s: rec.s.clone(),
        v: rec.v,
    };
    proof {
        assert(c.r.deep_view() =~= rec.r.deep_view());
        assert(c.s.deep_view() =~= rec.s.deep_view());
    }
    c
}

impl SignatureIndex {
    /// The rows, as their mathematical views.
    pub closed spec fn rows(&self) -> Seq<RecordView> {
        self.records.deep_view()
    }

    /// An empty index.
    pub fn new() -> (idx: SignatureIndex)
        ensures
            idx.rows() == Seq::<RecordView>::empty(),
            index_wf(idx.rows()),
    {
        let idx = SignatureIndex { records: Vec::new() };
        proof {
            assert(idx.rows() =~= Seq::<RecordView>::empty());
        }
        idx
    }

    /// Number of rows.
    pub fn len(&self) -> (n: usize)
        ensures
            n == self.rows().len(),
    {
        self.records.len()
    }

    /// The first row whose uniqueness key equals the record's, if any.
    fn find_existing(&self, rec: &SignatureRecord) -> (r: Option<usize>)
        ensures
            match r {
                Some(i) => i < self.rows().len() && self.rows()[i as int] == find_key(
                    self.rows(),
                    sig_key(rec.deep_view()),
                ).unwrap() && find_key(self.rows(), sig_key(rec.deep_view())) is Some,
                None => find_key(self.rows(), sig_key(rec.deep_view())) is None,
            },
    {
        let ghost key = sig_key(rec.deep_view());
        let mut i: usize = 0;
        while i < self.records.len()
            invariant
                i <= self.rows().len(),
                self.rows().len() == self.records@.len(),
                key == sig_key(rec.deep_view()),
                forall|j: int| 0 <= j < i ==> sig_key(#[trigger] self.rows()[j]) != key,
            decreases self.records@.len() - i,
        {
            let cand = &self.records[i];
            let hit = bytes_eq(cand.r.as_slice(), rec.r.as_slice()) && bytes_eq(
                cand.s.as_slice(),
                rec.s.as_slice(),
            ) && cand.v == rec.v && cand.chain == rec.chain;
            proof {
                assert(self.rows()[i as int].r =~= self.records@[i as int].r@);
                assert(self.rows()[i as int].s =~= self.records@[i as int].s@);
                assert(rec.deep_view().r =~= rec.r@);
                assert(rec.deep_view().s =~= rec.s@);
            }
            if hit {
                proof {
                    assert(sig_key(self.rows()[i as int]) == key);
                    lemma_find_key_skip(self.rows(), key, i as int);
                    assert(self.rows().skip(i as int).first() == self.rows()[i as int]);
                }
                return Some(i);
            }
            proof {
                assert(sig_key(self.rows()[i as int]) != key);
            }
            i = i + 1;
        }
        proof {
            lemma_find_key_skip(self.rows(), key, self.rows().len() as int);
            assert(self.rows().skip(self.rows().len() as int) =~= Seq::<RecordView>::empty());
        }
        None
    }

    /// Stores one block's records as a batch, in order. Per record, reports
    /// whether it was newly stored or collided with an existing row; a
    /// collision carries the existing row's transaction hash and adds no row.
    /// An empty batch is a no-op.
    pub fn store_batch(&mut self, batch: &Vec<SignatureRecord>) -> (outcomes: Vec<StoreOutcome>)
        ensures
            final(self).rows() == insert_batch(old(self).rows(), batch.deep_view()).0,
            outcomes.deep_view() == insert_batch(old(self).rows(), batch.deep_view()).1,
    {
        let mut outcomes: Vec<StoreOutcome> = Vec::new();
        let mut i: usize = 0;
        proof {
            assert(batch.deep_view().take(0) =~= Seq::<RecordView>::empty());
        }
        while i < batch.len()
            invariant
                i <= batch@.len(),
                batch.deep_view().len() == batch@.len(),
                self.rows() == insert_batch(old(self).rows(), batch.deep_view().take(i as int)).0,
                outcomes.deep_view() =~= insert_batch(
                    old(self).rows(),
                    batch.deep_view().take(i as int),
                ).1,
            decreases batch@.len() - i,
        {
            let ghost prefb = batch.deep_view().take(i as int);
            let ghost nextb = batch.deep_view().take(i + 1);
            proof {
                assert(nextb.drop_last() =~= prefb);
                assert(nextb.last() == batch.deep_view()[i as int]);
            }
            match self.find_existing(&batch[i]) {
                Some(j) => {
                    let existing_hash = self.records[j].tx_hash.clone();
                    outcomes.push(StoreOutcome::Collision { existing_hash });
                    proof {
                        assert(outcomes.deep_view() =~= insert_batch(
                            old(self).rows(),
                            nextb,
                        ).1);
                    }
                },
                None => {
                    self.records.push(clone_record(&batch[i]));
                    outcomes.push(StoreOutcome::Stored);
                    proof {
                        assert(self.rows() =~= insert_batch(old(self).rows(), prefb).0.push(
                            batch.deep_view()[i as int]));
                        assert(outcomes.deep_view() =~= insert_batch(
                            old(self).rows(),
                            nextb,
                        ).1);
                    }
                },
            }
            i = i + 1;
        }
        proof {
            assert(batch.deep_view().take(batch@.len() as int) =~= batch.deep_view());
        }
        outcomes
    }

    /// The stored row for an exact (r, s, v), if any: what the lookup
    /// collaborator is answered with.
    pub fn lookup(&self, r: &[u8], s: &[u8], v: u64) -> (res: Option<&SignatureRecord>)
        ensures
            match res {
                Some(rec) => find_rsv(self.rows(), r@, s@, v) == Some(rec.deep_view()),
                None => find_rsv(self.rows(), r@, s@, v) is None,
            },
    {
        let mut i: usize = 0;
        while i < self.records.len()
            invariant
                i <= self.rows().len(),
                self.rows().len() == self.records@.len(),
                forall|j: int|
                    0 <= j < i ==> !((#[trigger] self.rows()[j]).r == r@ && self.rows()[j].s
                        == s@ && self.rows()[j].v == v),
            decreases self.records@.len() - i,
        {
            let cand = &self.records[i];
            proof {
                assert(self.rows()[i as int].r =~= self.records@[i as int].r@);
                assert(self.rows()[i as int].s =~= self.records@[i as int].s@);
            }
            if bytes_eq(cand.r.as_slice(), r) && bytes_eq(cand.s.as_slice(), s) && cand.v == v {
                proof {
                    lemma_find_rsv_skip(self.rows(), r@, s@, v, i as int);
                    assert(self.rows().skip(i as int).first() == self.rows()[i as int]);
                }
                return Some(&self.records[i]);
            }
            i = i + 1;
        }
        proof {
            lemma_find_rsv_skip(self.rows(), r@, s@, v, self.rows().len() as int);
            assert(self.rows().skip(self.rows().len() as int) =~= Seq::<RecordView>::empty());
        }
        None
    }
}

/// Storing the same (r, s, v, chain) twice reports the second store as a
/// collision carrying the first transaction's hash, and the index gains
/// exactly one row, never two indistinguishable ones.
pub proof fn lemma_duplicate_reports_collision(rs: Seq<RecordView>, a: RecordView, b: RecordView)
    requires
        sig_key(a) == sig_key(b),
        find_key(rs, sig_key(a)) is None,
    ensures
        ({
            let (rs1, o1) = insert_one(rs, a);
            let (rs2, o2) = insert_one(rs1, b);
            o1 == OutcomeView::Stored && o2 == OutcomeView::Collision(a.tx_hash) && rs2
                == rs.push(a)
        }),
{
    lemma_find_key_push(rs, sig_key(a), a);
}

} // verus!
