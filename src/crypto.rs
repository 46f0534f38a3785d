use vstd::prelude::*;
use bitcoin::schnorr::TapTweak;
use bitcoin::secp256k1::{KeyPair, Message, Secp256k1, XOnlyPublicKey};
use bitcoin::util::sighash::{Prevouts, SighashCache};
use bitcoin::util::taproot::{LeafVersion, TapBranchHash, TapLeafHash, TaprootBuilder};
use bitcoin::hashes::Hash as _;
use bitcoin::{OutPoint as BtcOutPoint, Transaction as BtcTx, TxIn as BtcIn, TxOut as BtcOut};
use bitcoin::{PackedLockTime, SchnorrSighashType, Script, Sequence, Txid, Witness};
use crate::model::{vsize_spec, OutPoint, OutPointView, Transaction, TransactionView, TxInView, TxOut, TxOutView};

verus! {

/// The x-only public key of a secret key.
pub uninterp spec fn xonly_of(secret: Seq<u8>) -> Seq<u8>;

/// The Taproot output key for an internal key and a tree of one script leaf.
pub uninterp spec fn tap_output_key_of(internal_key: Seq<u8>, script: Seq<u8>) -> Seq<u8>;

/// The secret key of a key pair tweaked for a key-path spend under the
/// Merkle root of a tree of one script leaf.
pub uninterp spec fn tap_tweaked_secret_of(secret: Seq<u8>, script: Seq<u8>) -> Seq<u8>;

/// The number that the bytes `s` write, most significant first.
pub open spec fn be_value(s: Seq<u8>) -> nat
    decreases s.len(),
{
    if s.len() == 0 {
        0
    } else {
        be_value(s.drop_last()) * 256 + s.last() as nat
    }
}

/// The order of the secp256k1 group, big-endian.
pub open spec fn curve_order_bytes() -> Seq<u8> {
    seq![
        0xffu8, 0xff, 0xff, 0xff, 0xff, 0xff, 0xff, 0xff, 0xff, 0xff, 0xff, 0xff, 0xff, 0xff, 0xff, 0xfe,
        0xba, 0xae, 0xdc, 0xe6, 0xaf, 0x48, 0xa0, 0x3b, 0xbf, 0xd2, 0x5e, 0x8c, 0xd0, 0x36, 0x41, 0x41,
    ]
}

/// A secret key: 32 bytes whose big-endian value lies strictly between zero
/// and the group order.
pub open spec fn valid_secret_key(s: Seq<u8>) -> bool {
    &&& s.len() == 32
    &&& 0 < be_value(s)
    &&& be_value(s) < be_value(curve_order_bytes())
}

/// The script-path signature hash of input 0 of a transaction that spends one
/// output, for the given leaf script and the default hash type.
pub uninterp spec fn script_spend_sighash_of(tx: TransactionView, prevout: TxOutView, script: Seq<u8>) -> Seq<u8>;

/// The id of a transaction: its double hash without witness data.
pub uninterp spec fn txid_of(tx: TransactionView) -> Seq<u8>;

/// A script leaf committed under an internal key.
pub struct TapLeafCommitment {
    pub output_key: [u8; 32],
    pub control_block: Vec<u8>,
}

/// Relies on secp256k1's `KeyPair::from_seckey_slice` and
/// `XOnlyPublicKey::from_keypair`; `None` exactly for a byte string that is no
/// secret key.
#[verifier::external_body]
pub fn xonly_public_key(secret: &[u8; 32]) -> (r: Option<[u8; 32]>)
    ensures
        r is Some <==> valid_secret_key(secret@),
        r matches Some(k) ==> k@ == xonly_of(secret@),
{
    let key_pair = KeyPair::from_seckey_slice(&Secp256k1::new(), secret).ok()?;
    Some(XOnlyPublicKey::from_keypair(&key_pair).0.serialize())
}

/// Relies on bitcoin's `TaprootBuilder` (`add_leaf` at depth 0, then `finalize`),
/// `TaprootSpendInfo::output_key` and `control_block`, and on
/// `ControlBlock::serialize`: with one leaf the control block is the leaf
/// version with the output key's parity, then the internal key. A tree of
/// one leaf always finalizes and has a control block for its leaf, so only an
/// internal key that is no public key gives `None`.
#[verifier::external_body]
pub fn taproot_single_leaf(internal_key: &[u8; 32], script: &Vec<u8>) -> (r: Option<TapLeafCommitment>)
    ensures
        (exists|s: Seq<u8>| valid_secret_key(s) && xonly_of(s) == internal_key@) ==> r is Some,
        r matches Some(c) ==> {
            &&& c.output_key@ == tap_output_key_of(internal_key@, script@)
            &&& c.control_block@.len() == 33
            &&& (c.control_block@[0] == 0xc0u8 || c.control_block@[0] == 0xc1u8)
            &&& c.control_block@.subrange(1, 33) == internal_key@
        },
{
    let internal = XOnlyPublicKey::from_slice(internal_key).ok()?;
    let script = Script::from(script.clone());
    let builder = TaprootBuilder::new().add_leaf(0, script.clone()).ok()?;
    let info = builder.finalize(&Secp256k1::verification_only(), internal).ok()?;
    let control_block = info.control_block(&(script, LeafVersion::TapScript))?;
    Some(TapLeafCommitment {
        output_key: info.output_key().to_inner().serialize(),
        control_block: control_block.serialize(),
    })
}

/// Relies on bitcoin's `TapTweak::tap_tweak` for key pairs, under the Merkle
/// root of the one-leaf tree of `script` (the leaf's hash, as
/// `NodeInfo::new_leaf_with_ver` takes it). The tweak is the one that
/// `TaprootBuilder::finalize` applies to the internal key, so the tweaked
/// pair's x-only key is the tree's output key. `None` exactly for a byte
/// string that is no secret key; the call panics only where the tweaked key
/// would be zero, which needs a preimage of the tweak hash.
#[verifier::external_body]
pub fn tap_tweak_secret(secret: &[u8; 32], script: &Vec<u8>) -> (r: Option<[u8; 32]>)
    ensures
        r is Some <==> valid_secret_key(secret@),
        r matches Some(k) ==> k@ == tap_tweaked_secret_of(secret@, script@),
        r matches Some(k) ==> valid_secret_key(k@),
        r matches Some(k) ==> xonly_of(k@) == tap_output_key_of(xonly_of(secret@), script@),
{
    let secp = Secp256k1::new();
    let key_pair = KeyPair::from_seckey_slice(&secp, secret).ok()?;
    let leaf = TapLeafHash::from_script(&script.clone().into(), LeafVersion::TapScript);
    let root = TapBranchHash::from_inner(leaf.into_inner());
    Some(key_pair.tap_tweak(&secp, Some(root)).to_inner().secret_bytes())
}

/// Relies on secp256k1's `Secp256k1::sign_schnorr`, which draws auxiliary
/// randomness: only the signature's length is known. `None` exactly for a
/// byte string that is no secret key (`Message::from_slice` takes any 32 bytes).
#[verifier::external_body]
pub fn schnorr_sign(secret: &[u8; 32], digest: &[u8; 32]) -> (r: Option<Vec<u8>>)
    ensures
        r is Some <==> valid_secret_key(secret@),
        r matches Some(s) ==> s@.len() == 64,
{
    let secp = Secp256k1::new();
    let key_pair = KeyPair::from_seckey_slice(&secp, secret).ok()?;
    let message = Message::from_slice(digest).ok()?;
    Some(secp.sign_schnorr(&message, &key_pair).as_ref().to_vec())
}

/// The transaction with one input, with no script and no witness, and one output.
pub open spec fn single_spend_view(
    version: i32,
    lock_time: u32,
    previous_output: OutPointView,
    sequence: u32,
    output: TxOutView,
) -> TransactionView {
    TransactionView {
        version,
        lock_time,
        input: seq![
            TxInView { previous_output, script_sig: seq![], sequence, witness: seq![] },
        ],
        output: seq![output],
    }
}

/// Relies on bitcoin's `SighashCache::taproot_script_spend_signature_hash` for
/// input 0 of a transaction with one input and one output, with `prevout` as
/// the only spent output and the default hash type. With one input and one
/// spent output neither the index nor the prevout count can be refused.
#[verifier::external_body]
pub fn script_spend_sighash(
    version: i32,
    lock_time: u32,
    previous_output: &OutPoint,
    sequence: u32,
    output: &TxOut,
    prevout: &TxOut,
    script: &Vec<u8>,
) -> (r: Option<[u8; 32]>)
    ensures
        r is Some,
        r matches Some(h) ==> h@ == script_spend_sighash_of(
            single_spend_view(version, lock_time, previous_output@, sequence, output@),
            prevout@,
            script@,
        ),
{
    let tx = BtcTx { version, lock_time: PackedLockTime(lock_time), output: vec![BtcOut { value: output.value, script_pubkey: output.script_pubkey.clone().into() }],
        input: vec![BtcIn { previous_output: BtcOutPoint::new(Txid::from_inner(previous_output.txid), previous_output.vout),
            script_sig: Script::new(), sequence: Sequence(sequence), witness: Witness::new() }] };
    let prevout = BtcOut { value: prevout.value, script_pubkey: prevout.script_pubkey.clone().into() };
    let leaf = TapLeafHash::from_script(&script.clone().into(), LeafVersion::TapScript);
    let hash = SighashCache::new(&tx).taproot_script_spend_signature_hash(0, &Prevouts::All(&[prevout]), leaf, SchnorrSighashType::Default);
    Some(hash.ok()?.into_inner())
}

impl Transaction {
    /// Relies on bitcoin's `Transaction::vsize`, which computes the weight from
    /// the lengths of the parts, as `weight_spec` states (a transaction held
    /// in memory is far below 2^64 weight units).
    #[verifier::external_body]
    pub fn vsize(&self) -> (r: u64)
        ensures
            r == vsize_spec(self@),
    {
        let tx = BtcTx { version: self.version, lock_time: PackedLockTime(self.lock_time),
            input: self.input.iter().map(|i| BtcIn { previous_output: BtcOutPoint::new(Txid::from_inner(i.previous_output.txid), i.previous_output.vout),
                script_sig: i.script_sig.clone().into(), sequence: Sequence(i.sequence), witness: Witness::from_vec(i.witness.clone()) }).collect(),
            output: self.output.iter().map(|o| BtcOut { value: o.value, script_pubkey: o.script_pubkey.clone().into() }).collect() };
        tx.vsize() as u64
    }

    /// Relies on bitcoin's `Transaction::txid`.
    #[verifier::external_body]
    pub fn txid(&self) -> (r: [u8; 32])
        ensures
            r@ == txid_of(self@),
    {
        let tx = BtcTx { version: self.version, lock_time: PackedLockTime(self.lock_time),
            input: self.input.iter().map(|i| BtcIn { previous_output: BtcOutPoint::new(Txid::from_inner(i.previous_output.txid), i.previous_output.vout),
                script_sig: i.script_sig.clone().into(), sequence: Sequence(i.sequence), witness: Witness::from_vec(i.witness.clone()) }).collect(),
            output: self.output.iter().map(|o| BtcOut { value: o.value, script_pubkey: o.script_pubkey.clone().into() }).collect() };
        tx.txid().into_inner()
    }
}

} // verus!
