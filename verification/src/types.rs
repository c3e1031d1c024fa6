//! Data model: decoded transactions and persisted signature records, with
//! their mathematical views.

use vstd::prelude::*;

verus! {

/// A transaction decoded from one fetched block: sender address and
/// transaction hash as canonical hex text, and the raw ECDSA signature
/// components.
#[derive(Debug)]
pub struct DecodedTransaction {
    /// Sender address, as hex text.
    pub from: String,
    /// Transaction hash, as hex text.
    pub hash: String,
    /// Signature component r, decoded bytes (canonically 32).
    pub r: Vec<u8>,
    /// Signature component s, decoded bytes (canonically 32).
    pub s: Vec<u8>,
    /// Recovery id, chain-id adjusted.
    pub v: u64,
}

/// Mathematical view of a decoded transaction.
pub struct TxView {
    pub from: Seq<char>,
    pub hash: Seq<char>,
    pub r: Seq<u8>,
    pub s: Seq<u8>,
    pub v: u64,
}

impl DeepView for DecodedTransaction {
    type V = TxView;

    open spec fn deep_view(&self) -> TxView {
        TxView {
            from: self.from.deep_view(),
            hash: self.hash.deep_view(),
            r: self.r.deep_view(),
            s: self.s.deep_view(),
            v: self.v,
        }
    }
}

/// One row of the signature index: the signature tuple together with the
/// transaction it came from and the chain that produced it.
#[derive(Debug)]
pub struct SignatureRecord {
    /// Chain name the record was ingested from.
    pub chain: String,
    /// Transaction hash, as hex text.
    pub tx_hash: String,
    /// Sender address, as hex text.
    pub address: String,
    /// Signature component r.
    pub r: Vec<u8>,
    /// Signature component s.
    pub s: Vec<u8>,
    /// Recovery id.
    pub v: u64,
}

/// Mathematical view of a signature record.
pub struct RecordView {
    pub chain: Seq<char>,
    pub tx_hash: Seq<char>,
    pub address: Seq<char>,
    pub r: Seq<u8>,
    pub s: Seq<u8>,
    pub v: u64,
}

impl DeepView for SignatureRecord {
    type V = RecordView;

    open spec fn deep_view(&self) -> RecordView {
        RecordView {
            chain: self.chain.deep_view(),
            tx_hash: self.tx_hash.deep_view(),
            address: self.address.deep_view(),
            r: self.r.deep_view(),
            s: self.s.deep_view(),
            v: self.v,
        }
    }
}

/// The uniqueness key of a record: at most one row per (r, s, v, chain).
pub open spec fn sig_key(rec: RecordView) -> (Seq<u8>, Seq<u8>, u64, Seq<char>) {
    (rec.r, rec.s, rec.v, rec.chain)
}

/// The record a transaction becomes when ingested for a chain.
pub open spec fn spec_record_of(chain: Seq<char>, tx: TxView) -> RecordView {
    RecordView {
        chain: chain,
        tx_hash: tx.hash,
        address: tx.from,
        r: tx.r,
        s: tx.s,
        v: tx.v,
    }
}

/// Exec construction of the record a transaction becomes.
pub fn record_of(chain: &String, tx: &DecodedTransaction) -> (rec: SignatureRecord)
    ensures
        rec.deep_view() == spec_record_of(chain.deep_view(), tx.deep_view()),
{
    let rec = SignatureRecord {
        chain: chain.clone(),
        tx_hash: tx.hash.clone(),
        address: tx.from.clone(),
        r: tx.r.clone(),
        s: tx.s.clone(),
        v: tx.v,
    };
    proof {
        assert(rec.r.deep_view() =~= tx.r.deep_view());
        assert(rec.s.deep_view() =~= tx.s.deep_view());
    }
    rec
}

/// Exec equality of byte sequences.
pub fn bytes_eq(a: &[u8], b: &[u8]) -> (r: bool)
    ensures
        r == (a@ == b@),
{
    if a.len() != b.len() {
        proof {
            assert(a@.len() != b@.len());
        }
        return false;
    }
    let mut i: usize = 0;
    while i < a.len()
        invariant
            i <= a@.len(),
            a@.len() == b@.len(),
            forall|j: int| 0 <= j < i ==> a@[j] == b@[j],
        decreases a@.len() - i,
    {
        if *vstd::slice::slice_index_get(a, i) != *vstd::slice::slice_index_get(b, i) {
            return false;
        }
        i = i + 1;
    }
    proof {
        assert(a@ =~= b@);
    }
    true
}

} // verus!
