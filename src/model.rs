use vstd::prelude::*;

verus! {

/// Sequence number that opts an input into replacement and disables lock time.
pub const SEQUENCE_RBF: u32 = 0xFFFF_FFFD;

/// Smallest sequence number that no longer signals replaceability.
pub const SEQUENCE_RBF_LIMIT: u32 = 0xFFFF_FFFE;

/// A transaction output reference: the id of its transaction and its index.
#[derive(Clone, Copy, Debug, PartialEq, Eq, PartialOrd, Ord, Hash)]
pub struct OutPoint {
    pub txid: [u8; 32],
    pub vout: u32,
}

pub struct OutPointView {
    pub txid: Seq<u8>,
    pub vout: u32,
}

impl View for OutPoint {
    type V = OutPointView;

    open spec fn view(&self) -> OutPointView {
        OutPointView { txid: self.txid@, vout: self.vout }
    }
}

/// One satoshi inside an output, by its offset from the output's first sat.
#[derive(Clone, Copy, Debug, PartialEq, Eq, PartialOrd, Ord, Hash)]
pub struct SatPoint {
    pub outpoint: OutPoint,
    pub offset: u64,
}

pub struct SatPointView {
    pub outpoint: OutPointView,
    pub offset: u64,
}

impl View for SatPoint {
    type V = SatPointView;

    open spec fn view(&self) -> SatPointView {
        SatPointView { outpoint: self.outpoint@, offset: self.offset }
    }
}

/// The id of an inscription: the id of the transaction that revealed it.
#[derive(Clone, Copy, Debug, PartialEq, Eq, PartialOrd, Ord, Hash)]
pub struct InscriptionId {
    pub txid: [u8; 32],
}

#[derive(Clone, Debug)]
pub struct TxIn {
    pub previous_output: OutPoint,
    pub script_sig: Vec<u8>,
    pub sequence: u32,
    pub witness: Vec<Vec<u8>>,
}

pub struct TxInView {
    pub previous_output: OutPointView,
    pub script_sig: Seq<u8>,
    pub sequence: u32,
    pub witness: Seq<Seq<u8>>,
}

impl View for TxIn {
    type V = TxInView;

    open spec fn view(&self) -> TxInView {
        TxInView {
            previous_output: self.previous_output@,
            script_sig: self.script_sig@,
            sequence: self.sequence,
            witness: self.witness@.map_values(|w: Vec<u8>| w@),
        }
    }
}

#[derive(Clone, Debug)]
pub struct TxOut {
    pub value: u64,
    pub script_pubkey: Vec<u8>,
}

pub struct TxOutView {
    pub value: u64,
    pub script_pubkey: Seq<u8>,
}

impl View for TxOut {
    type V = TxOutView;

    open spec fn view(&self) -> TxOutView {
        TxOutView { value: self.value, script_pubkey: self.script_pubkey@ }
    }
}

#[derive(Clone, Debug)]
pub struct Transaction {
    pub version: i32,
    pub lock_time: u32,
    pub input: Vec<TxIn>,
    pub output: Vec<TxOut>,
}

pub struct TransactionView {
    pub version: i32,
    pub lock_time: u32,
    pub input: Seq<TxInView>,
    pub output: Seq<TxOutView>,
}

impl View for Transaction {
    type V = TransactionView;

    open spec fn view(&self) -> TransactionView {
        TransactionView {
            version: self.version,
            lock_time: self.lock_time,
            input: self.input@.map_values(|i: TxIn| i@),
            output: self.output@.map_values(|o: TxOut| o@),
        }
    }
}

/// Some input signals replaceability.
pub open spec fn signals_rbf(tx: TransactionView) -> bool {
    exists|i: int| 0 <= i < tx.input.len() && tx.input[i].sequence < SEQUENCE_RBF_LIMIT
}

/// Number of outputs among the first `n` that pay `script_pubkey`.
pub open spec fn count_paying(outputs: Seq<TxOutView>, script_pubkey: Seq<u8>, n: int) -> nat
    decreases n,
{
    if n <= 0 {
        0
    } else {
        count_paying(outputs, script_pubkey, n - 1) + if outputs[n - 1].script_pubkey
            == script_pubkey {
            1nat
        } else {
            0nat
        }
    }
}

/// Byte sequences are equal.
pub fn bytes_equal(a: &[u8], b: &[u8]) -> (r: bool)
    ensures
        r == (a@ == b@),
{
    if a.len() != b.len() {
        return false;
    }
    let mut i: usize = 0;
    while i < a.len()
        invariant
            a@.len() == b@.len(),
            i <= a@.len(),
            a@.subrange(0, i as int) == b@.subrange(0, i as int),
        decreases a@.len() - i,
    {
        if a[i] != b[i] {
            assert(a@.subrange(0, i as int + 1)[i as int] != b@.subrange(0, i as int + 1)[i as int]);
            assert(a@[i as int] != b@[i as int]);
            return false;
        }
        assert(a@.subrange(0, i as int + 1) =~= a@.subrange(0, i as int).push(a@[i as int]));
        assert(b@.subrange(0, i as int + 1) =~= b@.subrange(0, i as int).push(b@[i as int]));
        i = i + 1;
    }
    assert(a@ =~= a@.subrange(0, a@.len() as int));
    assert(b@ =~= b@.subrange(0, b@.len() as int));
    true
}

impl OutPoint {
    /// Structural equality of two outpoints.
    pub fn same_as(&self, other: &OutPoint) -> (r: bool)
        ensures
            r == (self@ == other@),
    {
        bytes_equal(&self.txid, &other.txid) && self.vout == other.vout
    }
}

impl SatPoint {
    /// Structural equality of two satpoints.
    pub fn same_as(&self, other: &SatPoint) -> (r: bool)
        ensures
            r == (self@ == other@),
    {
        self.outpoint.same_as(&other.outpoint) && self.offset == other.offset
    }
}

impl Transaction {
    /// Whether some input signals replaceability.
    pub fn is_explicitly_rbf(&self) -> (r: bool)
        ensures
            r == signals_rbf(self@),
    {
        let mut i: usize = 0;
        while i < self.input.len()
            invariant
                i <= self.input@.len(),
                forall|j: int| 0 <= j < i ==> self@.input[j].sequence >= SEQUENCE_RBF_LIMIT,
            decreases self.input@.len() - i,
        {
            if self.input[i].sequence < SEQUENCE_RBF_LIMIT {
                assert(self@.input[i as int].sequence < SEQUENCE_RBF_LIMIT);
                return true;
            }
            i = i + 1;
        }
        false
    }
}

/// Bytes that a length prefix of `n` takes in the wire format.
pub open spec fn varint_len(n: nat) -> nat {
    if n < 0xfd {
        1
    } else if n <= 0xffff {
        3
    } else if n <= 0xffff_ffff {
        5
    } else {
        9
    }
}

/// Bytes of the witness items, each with its length prefix.
pub open spec fn witness_items_len(w: Seq<Seq<u8>>) -> nat
    decreases w.len(),
{
    if w.len() == 0 {
        0
    } else {
        witness_items_len(w.drop_last()) + varint_len(w.last().len()) + w.last().len()
    }
}

/// Weight of the inputs: four units per byte outside the witness, one per
/// byte of a non-empty witness with its item count.
pub open spec fn inputs_weight(ins: Seq<TxInView>) -> nat
    decreases ins.len(),
{
    if ins.len() == 0 {
        0
    } else {
        let i = ins.last();
        inputs_weight(ins.drop_last()) + 4 * (40 + varint_len(i.script_sig.len()) + i.script_sig.len())
            + if i.witness.len() > 0 {
            witness_items_len(i.witness) + varint_len(i.witness.len())
        } else {
            0
        }
    }
}

/// Number of inputs with a non-empty witness.
pub open spec fn inputs_with_witness(ins: Seq<TxInView>) -> nat
    decreases ins.len(),
{
    if ins.len() == 0 {
        0
    } else {
        inputs_with_witness(ins.drop_last()) + if ins.last().witness.len() > 0 {
            1nat
        } else {
            0nat
        }
    }
}

/// Bytes of the outputs.
pub open spec fn outputs_len(outs: Seq<TxOutView>) -> nat
    decreases outs.len(),
{
    if outs.len() == 0 {
        0
    } else {
        outputs_len(outs.drop_last()) + 8 + varint_len(outs.last().script_pubkey.len())
            + outs.last().script_pubkey.len()
    }
}

/// The weight of a transaction: four units per byte outside witnesses, one
/// per byte of witness data, its marker and flag, and the empty witnesses.
pub open spec fn weight_spec(tx: TransactionView) -> nat {
    let k = inputs_with_witness(tx.input);
    4 * (4 + varint_len(tx.input.len()) + varint_len(tx.output.len()) + outputs_len(tx.output) + 4)
        + inputs_weight(tx.input) + if k == 0 {
        0
    } else {
        (tx.input.len() - k + 2) as nat
    }
}

/// The virtual size: the weight over four, rounded up.
pub open spec fn vsize_spec(tx: TransactionView) -> nat {
    (weight_spec(tx) + 3) / 4
}

/// Witness stacks with items of the same lengths have the same size.
pub proof fn lemma_witness_len_by_lengths(a: Seq<Seq<u8>>, b: Seq<Seq<u8>>)
    requires
        a.len() == b.len(),
        forall|i: int| 0 <= i < a.len() ==> a[i].len() == b[i].len(),
    ensures
        witness_items_len(a) == witness_items_len(b),
    decreases a.len(),
{
    if a.len() > 0 {
        lemma_witness_len_by_lengths(a.drop_last(), b.drop_last());
    }
}

} // verus!
