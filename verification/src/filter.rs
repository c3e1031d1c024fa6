//! Noise filter: fixed byte-pattern heuristics that recognize known
//! synthetic or placeholder signatures, evaluated on decoded bytes so that
//! hex padding and case differences cannot defeat them.

use vstd::prelude::*;

use crate::types::{
    record_of, spec_record_of, DecodedTransaction, RecordView, SignatureRecord, TxView,
};

verus! {

/// The degenerate placeholder r value: the single byte `0x00`.
pub open spec fn placeholder_r() -> Seq<u8> {
    seq![0u8]
}

/// The synthetic marker r value: exactly 32 bytes, all `0x22`.
pub open spec fn marker_r() -> Seq<u8> {
    Seq::new(32, |i: int| 0x22u8)
}

/// The synthetic marker for s: its low 4 bytes, read as a big-endian 32-bit
/// value, equal `0x5ca1ab1e`.
pub open spec fn marker_s_suffix(s: Seq<u8>) -> bool {
    s.len() >= 4 && s[s.len() - 4] == 0x5cu8 && s[s.len() - 3] == 0xa1u8 && s[s.len() - 2]
        == 0xabu8 && s[s.len() - 1] == 0x1eu8
}

/// Whether a signature is known noise, on its decoded byte form.
pub open spec fn spec_is_noise(r: Seq<u8>, s: Seq<u8>) -> bool {
    r == placeholder_r() || r == marker_r() || marker_s_suffix(s)
}

/// Classifies a decoded transaction as known noise, excluded from storage.
pub fn is_noise(tx: &DecodedTransaction) -> (noise: bool)
    ensures
        noise == spec_is_noise(tx.r.deep_view(), tx.s.deep_view()),
{
    proof {
        assert(tx.r.deep_view() =~= tx.r@);
        assert(tx.s.deep_view() =~= tx.s@);
    }
    if tx.r.len() == 1 && tx.r[0] == 0 {
        proof {
            assert(tx.r@ =~= placeholder_r());
        }
        return true;
    }
    proof {
        assert(tx.r@ != placeholder_r());
    }
    if tx.r.len() == 32 {
        let mut all_marker = true;
        let mut i: usize = 0;
        while i < 32
            invariant
                i <= 32,
                tx.r@.len() == 32,
                all_marker == forall|j: int| 0 <= j < i ==> tx.r@[j] == 0x22u8,
            decreases 32 - i,
        {
            if tx.r[i] != 0x22 {
                all_marker = false;
            }
            i = i + 1;
        }
        if all_marker {
            proof {
                assert(tx.r@ =~= marker_r());
            }
            return true;
        }
        proof {
            assert(tx.r@ != marker_r());
        }
    }
    let n = tx.s.len();
    if n >= 4 {
        let hit = tx.s[n - 4] == 0x5c && tx.s[n - 3] == 0xa1 && tx.s[n - 2] == 0xab && tx.s[n
            - 1] == 0x1e;
        hit
    } else {
        false
    }
}

/// The batch of records one block's transactions yield for a chain: every
/// transaction that is not noise, in block order, as a signature record.
pub open spec fn spec_batch(chain: Seq<char>, txs: Seq<TxView>) -> Seq<RecordView>
    decreases txs.len(),
{
    if txs.len() == 0 {
        Seq::empty()
    } else {
        let rest = spec_batch(chain, txs.drop_last());
        let t = txs.last();
        if spec_is_noise(t.r, t.s) {
            rest
        } else {
            rest.push(spec_record_of(chain, t))
        }
    }
}

/// Builds the records to store for one block: noise filtered out, one record
/// per remaining transaction, tagged with the chain name.
pub fn build_batch(chain: &String, txs: &Vec<DecodedTransaction>) -> (batch: Vec<SignatureRecord>)
    ensures
        batch.deep_view() == spec_batch(chain.deep_view(), txs.deep_view()),
{
    let mut batch: Vec<SignatureRecord> = Vec::new();
    let mut i: usize = 0;
    while i < txs.len()
        invariant
            i <= txs@.len(),
            batch.deep_view() =~= spec_batch(chain.deep_view(), txs.deep_view().take(i as int)),
        decreases txs@.len() - i,
    {
        let ghost prefix = txs.deep_view().take(i as int);
        let ghost next = txs.deep_view().take(i + 1);
        if !is_noise(&txs[i]) {
            batch.push(record_of(chain, &txs[i]));
            proof {
                assert(next.drop_last() =~= prefix);
                assert(next.last() == txs.deep_view()[i as int]);
                assert(spec_batch(chain.deep_view(), next) == spec_batch(
                    chain.deep_view(),
                    prefix,
                ).push(spec_record_of(chain.deep_view(), next.last())));
                assert(batch.deep_view() =~= spec_batch(chain.deep_view(), next));
            }
        } else {
            proof {
                assert(next.drop_last() =~= prefix);
                assert(next.last() == txs.deep_view()[i as int]);
                assert(spec_batch(chain.deep_view(), next) == spec_batch(
                    chain.deep_view(),
                    prefix,
                ));
                assert(batch.deep_view() =~= spec_batch(chain.deep_view(), next));
            }
        }
        i = i + 1;
    }
    proof {
        assert(txs.deep_view().take(txs@.len() as int) =~= txs.deep_view());
    }
    batch
}

/// A noise transaction is never part of the stored batch: no record built
/// from a block carries a placeholder r, the 32-byte marker r, or an s whose
/// low 4 bytes spell the marker constant, whatever its other fields hold.
pub proof fn lemma_noise_never_stored(chain: Seq<char>, txs: Seq<TxView>)
    ensures
        forall|k: int|
            0 <= k < spec_batch(chain, txs).len() ==> !spec_is_noise(
                #[trigger] spec_batch(chain, txs)[k].r,
                spec_batch(chain, txs)[k].s,
            ),
    decreases txs.len(),
{
    if txs.len() > 0 {
        lemma_noise_never_stored(chain, txs.drop_last());
        let rest = spec_batch(chain, txs.drop_last());
        let whole = spec_batch(chain, txs);
        assert forall|k: int| 0 <= k < whole.len() implies !spec_is_noise(
            #[trigger] whole[k].r,
            whole[k].s,
        ) by {
            if k < rest.len() {
                assert(whole[k] == rest[k]);
                assert(!spec_is_noise(rest[k].r, rest[k].s));
            } else {
                assert(whole[k] == spec_record_of(chain, txs.last()));
            }
        }
    }
}

} // verus!
