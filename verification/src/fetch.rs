//! Block fetcher: building the JSON-RPC `eth_getBlockByNumber` request body
//! and decoding the response envelope into transactions.
//!
//! The JSON structure is read by serde_json behind trusted wrappers into a
//! plain-value `Envelope`. Everything done with the envelope — the
//! not-mined/malformed classification, the hex decoding of every signature
//! field, the all-or-nothing treatment of a block — is verified, with
//! `outcome_of_envelope` fixing the outcome for every envelope value.

use vstd::prelude::*;
use vstd::string::StringSliceAdditionalSpecFns;
use vstd::utf8::encode_utf8;

use crate::codec::{
    all_hex, decode_bytes, decode_uint, hex_num, hex_repr, spec_decode_bytes, strip_hex_prefix,
    FormatError,
};
use crate::codec::encode_height_digits;
use crate::engine::{FetchError, FetchOutcome};
use crate::types::{DecodedTransaction, TxView};

verus! {

#[verifier::external_type_specification]
#[verifier::external_body]
pub struct ExValue(serde_json::Value);

#[verifier::external_type_specification]
#[verifier::external_body]
pub struct ExJsonError(serde_json::Error);

/// Relies on serde_json::from_str: parses JSON text into a `serde_json::Value`.
#[verifier::external_body]
fn parse_json(text: &str) -> (r: Result<serde_json::Value, serde_json::Error>) {
    serde_json::from_str(text)
}

/// Relies on serde_json::Value::get: the named member of a JSON object, if
/// the value is an object that has it.
#[verifier::external_body]
fn json_get<'a>(v: &'a serde_json::Value, key: &str) -> (r: Option<&'a serde_json::Value>) {
    v.get(key)
}

/// Relies on serde_json::Value::is_null.
#[verifier::external_body]
fn json_is_null(v: &serde_json::Value) -> (r: bool) {
    v.is_null()
}

/// Relies on serde_json::Value::is_object.
#[verifier::external_body]
fn json_is_object(v: &serde_json::Value) -> (r: bool) {
    v.is_object()
}

/// Relies on serde_json::Value::as_str: the text of a JSON string, owned.
#[verifier::external_body]
fn json_as_string(v: &serde_json::Value) -> (r: Option<String>) {
    v.as_str().map(|s| s.to_owned())
}

/// Relies on serde_json::Value::as_array: the elements of a JSON array.
#[verifier::external_body]
fn json_as_array<'a>(v: &'a serde_json::Value) -> (r: Option<&'a Vec<serde_json::Value>>) {
    v.as_array()
}

/// The request body's fixed text before the hex height.
pub open spec fn request_prefix() -> Seq<u8> {
    "{\"jsonrpc\":\"2.0\",\"method\":\"eth_getBlockByNumber\",\"params\":[\"0x".spec_bytes()
}

/// The request body's fixed text after the hex height: full transaction
/// objects are requested, with a fixed request id.
pub open spec fn request_suffix() -> Seq<u8> {
    "\",true],\"id\":1}".spec_bytes()
}

/// The JSON-RPC request body for one height: the fixed envelope around the
/// minimal `0x`-prefixed hex encoding of the height.
pub open spec fn spec_request_body(height: u64) -> Seq<u8> {
    request_prefix() + hex_repr(height as nat) + request_suffix()
}

/// Builds the `eth_getBlockByNumber` request body for a height. Height 0
/// still serializes to a minimal valid hex form (`0x0`).
pub fn build_request_body(height: u64) -> (r: Vec<u8>)
    ensures
        r@ == spec_request_body(height),
{
    let prefix: &str = "{\"jsonrpc\":\"2.0\",\"method\":\"eth_getBlockByNumber\",\"params\":[\"0x";
    let suffix: &str = "\",true],\"id\":1}";
    let mut out = vstd::slice::slice_to_vec(prefix.as_bytes());
    let mut digits = encode_height_digits(height);
    out.append(&mut digits);
    let mut sfx = vstd::slice::slice_to_vec(suffix.as_bytes());
    out.append(&mut sfx);
    proof {
        assert(out@ =~= spec_request_body(height));
    }
    out
}

/// The `u64` the hex text of a `v` field denotes, or exactly why not.
pub open spec fn spec_uint_result(text: Seq<u8>) -> Result<u64, FormatError> {
    let d = strip_hex_prefix(text);
    if d.len() == 0 {
        Err(FormatError::Empty)
    } else if !all_hex(d) {
        Err(FormatError::NonHexDigit)
    } else if hex_num(d) > u64::MAX {
        Err(FormatError::Overflow)
    } else {
        Ok(hex_num(d) as u64)
    }
}

/// Decodes one transaction's extracted fields: `from` and `hash` pass
/// through as opaque text, `r` and `s` decode as hex bytes, `v` as a hex
/// integer. Fails exactly on the first field whose hex content is invalid.
pub fn decode_signature_fields(
    from: String,
    hash: String,
    r_text: &[u8],
    s_text: &[u8],
    v_text: &[u8],
) -> (r: Result<DecodedTransaction, FormatError>)
    ensures
        match r {
            Ok(tx) => all_hex(strip_hex_prefix(r_text@)) && all_hex(strip_hex_prefix(s_text@))
                && spec_uint_result(v_text@) is Ok && tx.from == from && tx.hash == hash && tx.r@
                == spec_decode_bytes(r_text@) && tx.s@ == spec_decode_bytes(s_text@) && tx.v
                == spec_uint_result(v_text@).unwrap(),
            Err(e) => if !all_hex(strip_hex_prefix(r_text@)) {
                e == FormatError::NonHexDigit
            } else if !all_hex(strip_hex_prefix(s_text@)) {
                e == FormatError::NonHexDigit
            } else {
                spec_uint_result(v_text@) == Err::<u64, FormatError>(e)
            },
        },
{
    let r_bytes = match decode_bytes(r_text) {
        Ok(b) => b,
        Err(e) => {
            return Err(e);
        },
    };
    let s_bytes = match decode_bytes(s_text) {
        Ok(b) => b,
        Err(e) => {
            return Err(e);
        },
    };
    let v = match decode_uint(v_text) {
        Ok(n) => n,
        Err(e) => {
            return Err(e);
        },
    };
    Ok(DecodedTransaction { from, hash, r: r_bytes, s: s_bytes, v })
}

/// One transaction as the response envelope carries it: all five members as
/// the JSON strings the schema requires them to be.
#[derive(Debug)]
pub struct RawTx {
    /// The `from` member's text.
    pub from: String,
    /// The `hash` member's text.
    pub hash: String,
    /// The `r` member's text.
    pub r: String,
    /// The `s` member's text.
    pub s: String,
    /// The `v` member's text.
    pub v: String,
}

/// Mathematical view of a raw transaction.
pub struct RawTxView {
    pub from: Seq<char>,
    pub hash: Seq<char>,
    pub r: Seq<char>,
    pub s: Seq<char>,
    pub v: Seq<char>,
}

impl DeepView for RawTx {
    type V = RawTxView;

    open spec fn deep_view(&self) -> RawTxView {
        RawTxView {
            from: self.from.deep_view(),
            hash: self.hash.deep_view(),
            r: self.r.deep_view(),
            s: self.s.deep_view(),
            v: self.v.deep_view(),
        }
    }
}

/// What a response body's JSON structure holds, as plain values.
#[derive(Debug)]
pub enum Envelope {
    /// Not valid JSON, or not the expected envelope shape: not an object, no
    /// `transactions` array under a present `result`, or a transaction whose
    /// members are missing or are not strings.
    Invalid,
    /// A well-formed envelope whose `result` is absent or null: the block is
    /// not mined yet.
    Absent,
    /// A present `result`: its transactions' raw string members, in order.
    Block(Vec<RawTx>),
}

/// Mathematical view of an envelope.
pub enum EnvelopeView {
    Invalid,
    Absent,
    Block(Seq<RawTxView>),
}

impl DeepView for Envelope {
    type V = EnvelopeView;

    open spec fn deep_view(&self) -> EnvelopeView {
        match self {
            Envelope::Invalid => EnvelopeView::Invalid,
            Envelope::Absent => EnvelopeView::Absent,
            Envelope::Block(raws) => EnvelopeView::Block(raws.deep_view()),
        }
    }
}

/// One string member of a transaction object, if it is there and is a string.
fn member_string(v: &serde_json::Value, key: &str) -> (r: Option<String>) {
    match json_get(v, key) {
        Some(f) => json_as_string(f),
        None => None,
    }
}

/// Reads the envelope out of a response body. What comes back is the JSON
/// library's structural reading of the body — nothing more can be said of it
/// here; `outcome_of_envelope` fixes what every envelope then means.
pub fn read_envelope(body: &str) -> (env: Envelope) {
    let parsed = match parse_json(body) {
        Ok(v) => v,
        Err(_) => {
            return Envelope::Invalid;
        },
    };
    if !json_is_object(&parsed) {
        return Envelope::Invalid;
    }
    let result = match json_get(&parsed, "result") {
        Some(r) => r,
        None => {
            return Envelope::Absent;
        },
    };
    if json_is_null(result) {
        return Envelope::Absent;
    }
    let arr = match json_get(result, "transactions") {
        Some(a) => a,
        None => {
            return Envelope::Invalid;
        },
    };
    let items = match json_as_array(arr) {
        Some(a) => a,
        None => {
            return Envelope::Invalid;
        },
    };
    let mut raws: Vec<RawTx> = Vec::new();
    let mut i: usize = 0;
    while i < items.len()
        decreases items@.len() - i,
    {
        let item = &items[i];
        let from = match member_string(item, "from") {
            Some(s) => s,
            None => {
                return Envelope::Invalid;
            },
        };
        let hash = match member_string(item, "hash") {
            Some(s) => s,
            None => {
                return Envelope::Invalid;
            },
        };
        let r = match member_string(item, "r") {
            Some(s) => s,
            None => {
                return Envelope::Invalid;
            },
        };
        let s = match member_string(item, "s") {
            Some(s) => s,
            None => {
                return Envelope::Invalid;
            },
        };
        let v = match member_string(item, "v") {
            Some(s) => s,
            None => {
                return Envelope::Invalid;
            },
        };
        raws.push(RawTx { from, hash, r, s, v });
        i = i + 1;
    }
    Envelope::Block(raws)
}

/// What one raw transaction decodes to — `r` and `s` as hex bytes, `v` as a
/// hex integer, the other members as they are — or nothing, when any hex
/// field is invalid.
pub open spec fn spec_decode_tx(t: RawTxView) -> Option<TxView> {
    let rb = encode_utf8(t.r);
    let sb = encode_utf8(t.s);
    let vb = encode_utf8(t.v);
    if all_hex(strip_hex_prefix(rb)) && all_hex(strip_hex_prefix(sb)) && spec_uint_result(vb)
        is Ok {
        Some(
            TxView {
                from: t.from,
                hash: t.hash,
                r: spec_decode_bytes(rb),
                s: spec_decode_bytes(sb),
                v: spec_uint_result(vb).unwrap(),
            },
        )
    } else {
        None
    }
}

/// What a block's raw transactions decode to, in order — or nothing, when
/// any one of them fails: no partial blocks.
pub open spec fn spec_decode_txs(raws: Seq<RawTxView>) -> Option<Seq<TxView>>
    decreases raws.len(),
{
    if raws.len() == 0 {
        Some(Seq::empty())
    } else {
        let rest = spec_decode_txs(raws.drop_last());
        let last = spec_decode_tx(raws.last());
        if rest is Some && last is Some {
            Some(rest.unwrap().push(last.unwrap()))
        } else {
            None
        }
    }
}

/// One failing transaction fails the whole block's decode.
proof fn lemma_decode_txs_none(raws: Seq<RawTxView>, i: int)
    requires
        0 <= i < raws.len(),
        spec_decode_tx(raws[i]) is None,
    ensures
        spec_decode_txs(raws) is None,
    decreases raws.len(),
{
    if i < raws.len() - 1 {
        assert(raws.drop_last()[i] == raws[i]);
        lemma_decode_txs_none(raws.drop_last(), i);
    }
}

/// The outcome an envelope denotes. A shape that does not match the schema
/// is `Malformed`; an absent or null `result` is the normal "not mined yet"
/// state, never an error; a present block decodes every transaction or is
/// `Malformed` as a whole.
pub fn outcome_of_envelope(env: &Envelope) -> (r: FetchOutcome)
    ensures
        match env {
            Envelope::Invalid => r == FetchOutcome::Failed(FetchError::Malformed),
            Envelope::Absent => r == FetchOutcome::NotReady,
            Envelope::Block(raws) => match spec_decode_txs(raws.deep_view()) {
                Some(txs) => r matches FetchOutcome::Block(out) && out.deep_view() == txs,
                None => r == FetchOutcome::Failed(FetchError::Malformed),
            },
        },
{
    match env {
        Envelope::Invalid => FetchOutcome::Failed(FetchError::Malformed),
        Envelope::Absent => FetchOutcome::NotReady,
        Envelope::Block(raws) => {
            let mut txs: Vec<DecodedTransaction> = Vec::new();
            let mut bad = false;
            let mut i: usize = 0;
            while i < raws.len() && !bad
                invariant
                    i <= raws@.len(),
                    !bad ==> spec_decode_txs(raws.deep_view().take(i as int)) == Some(
                        txs.deep_view(),
                    ),
                    bad ==> spec_decode_txs(raws.deep_view()) is None,
                decreases raws@.len() - i,
            {
                let rt = &raws[i];
                let rb = rt.r.as_str().as_bytes();
                let sb = rt.s.as_str().as_bytes();
                let vb = rt.v.as_str().as_bytes();
                proof {
                    assert(raws.deep_view()[i as int] == raws@[i as int].deep_view());
                    assert(rb@ == encode_utf8(raws.deep_view()[i as int].r));
                    assert(sb@ == encode_utf8(raws.deep_view()[i as int].s));
                    assert(vb@ == encode_utf8(raws.deep_view()[i as int].v));
                }
                match decode_signature_fields(rt.from.clone(), rt.hash.clone(), rb, sb, vb) {
                    Ok(tx) => {
                        proof {
                            assert(tx.r.deep_view() =~= tx.r@);
                            assert(tx.s.deep_view() =~= tx.s@);
                            assert(spec_decode_tx(raws.deep_view()[i as int]) == Some(
                                tx.deep_view(),
                            ));
                            assert(raws.deep_view().take(i + 1).drop_last() =~= raws.deep_view()
                                .take(i as int));
                            assert(raws.deep_view().take(i + 1).last() == raws.deep_view()[
                                i as int]);
                        }
                        txs.push(tx);
                        proof {
                            assert(spec_decode_txs(raws.deep_view().take(i + 1)) == Some(
                                txs.deep_view(),
                            ));
                        }
                    },
                    Err(_) => {
                        proof {
                            assert(spec_decode_tx(raws.deep_view()[i as int]) is None);
                            lemma_decode_txs_none(raws.deep_view(), i as int);
                        }
                        bad = true;
                    },
                }
                i = i + 1;
            }
            if bad {
                FetchOutcome::Failed(FetchError::Malformed)
            } else {
                proof {
                    assert(raws.deep_view().take(raws@.len() as int) =~= raws.deep_view());
                }
                FetchOutcome::Block(txs)
            }
        },
    }
}

/// Decodes a raw JSON-RPC response body: the envelope serde_json reads out
/// of it, classified and decoded by `outcome_of_envelope`, whose contract
/// fixes the outcome for every envelope. Transport failures are the caller's
/// to report.
pub fn decode_fetch_body(body: &str) -> (r: FetchOutcome)
    ensures
        r matches FetchOutcome::Failed(e) ==> e == FetchError::Malformed,
{
    let env = read_envelope(body);
    outcome_of_envelope(&env)
}

} // verus!
