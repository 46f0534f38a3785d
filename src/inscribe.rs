use vstd::prelude::*;
use crate::crypto::{
    schnorr_sign, script_spend_sighash, script_spend_sighash_of, single_spend_view, tap_output_key_of,
    tap_tweak_secret, tap_tweaked_secret_of, taproot_single_leaf, txid_of, valid_secret_key, xonly_of,
    xonly_public_key,
};
use crate::error::InscribeError;
use crate::fee::{dust_spec, dust_value, FeeRate};
use crate::model::{
    bytes_equal, count_paying, lemma_witness_len_by_lengths, signals_rbf, vsize_spec, InscriptionId, OutPoint, OutPointView, SatPoint, Transaction,
    TransactionView, TxIn, TxInView, TxOut, TxOutView, SEQUENCE_RBF,
};
use crate::script::{p2tr_script, p2tr_script_spec, reveal_script, reveal_script_spec, Inscription};
use crate::select::{
    check_collisions, is_first_cardinal, is_first_collision, is_inscribed, resolve_satpoint,
};

verus! {

/// Length of a Schnorr signature under the default hash type.
pub const SIGNATURE_SIZE: usize = 64;

/// `s` is the sat that `satpoint` and the wallet designate: the one given,
/// or the first sat of the first wallet output without an inscribed sat.
pub open spec fn resolves_to(
    satpoint: Option<SatPoint>,
    utxos: Seq<(OutPoint, u64)>,
    inscriptions: Seq<(SatPoint, InscriptionId)>,
    s: SatPoint,
) -> bool {
    match satpoint {
        Some(p) => s == p,
        None => exists|i: int|
            is_first_cardinal(utxos, inscriptions, i) && s == (SatPoint { outpoint: utxos[i].0, offset: 0 }),
    }
}

/// The index of the first output paying `script_pubkey`, from `i` on; the
/// number of outputs if there is none.
pub open spec fn first_paying_from(outputs: Seq<TxOutView>, script_pubkey: Seq<u8>, i: int) -> int
    decreases outputs.len() - i,
{
    if i < 0 || i >= outputs.len() {
        outputs.len() as int
    } else if outputs[i].script_pubkey == script_pubkey {
        i
    } else {
        first_paying_from(outputs, script_pubkey, i + 1)
    }
}

pub open spec fn first_paying(outputs: Seq<TxOutView>, script_pubkey: Seq<u8>) -> int {
    first_paying_from(outputs, script_pubkey, 0)
}

/// Some output pays `script_pubkey`.
pub open spec fn pays(outputs: Seq<TxOutView>, script_pubkey: Seq<u8>) -> bool {
    exists|i: int| 0 <= i < outputs.len() && outputs[i].script_pubkey == script_pubkey
}

/// The reveal transaction: version 1, no lock time, one replaceable input
/// spending `previous_output` with `witness`, one output paying `value` to
/// `destination`.
pub open spec fn reveal_tx_spec(
    previous_output: OutPointView,
    destination: Seq<u8>,
    value: u64,
    witness: Seq<Seq<u8>>,
) -> TransactionView {
    TransactionView {
        version: 1,
        lock_time: 0,
        input: seq![
            TxInView { previous_output, script_sig: seq![], sequence: SEQUENCE_RBF, witness },
        ],
        output: seq![TxOutView { value, script_pubkey: destination }],
    }
}

/// A stand-in for a signature, of the same length.
pub open spec fn zero_signature() -> Seq<u8> {
    Seq::new(SIGNATURE_SIZE as nat, |i: int| 0u8)
}

/// What `prepare_commit` fixes before the commit transaction is funded.
pub struct CommitPlan {
    /// The sat to inscribe.
    pub satpoint: SatPoint,
    /// The ephemeral secret key.
    pub secret_key: [u8; 32],
    /// Its x-only public key, the Taproot internal key.
    pub internal_key: [u8; 32],
    /// The script of the single leaf.
    pub reveal_script: Vec<u8>,
    /// The Taproot output key.
    pub output_key: [u8; 32],
    /// The control block that proves the leaf under the output key.
    pub control_block: Vec<u8>,
    /// The output script that the commit transaction must pay.
    pub commit_script_pubkey: Vec<u8>,
}

impl CommitPlan {
    pub open spec fn wf(&self) -> bool {
        &&& valid_secret_key(self.secret_key@)
        &&& self.internal_key@ == xonly_of(self.secret_key@)
        &&& self.output_key@ == tap_output_key_of(self.internal_key@, self.reveal_script@)
        &&& self.control_block@.len() == 33
        &&& self.control_block@.subrange(1, 33) == self.internal_key@
        &&& self.commit_script_pubkey@ == p2tr_script_spec(self.output_key@)
    }

    /// The outpoint that the reveal transaction spends.
    pub open spec fn reveal_input(&self, commit: TransactionView) -> OutPointView {
        OutPointView {
            txid: txid_of(commit),
            vout: first_paying(commit.output, self.commit_script_pubkey@) as u32,
        }
    }

    /// The value of the commit output.
    pub open spec fn commit_value(&self, commit: TransactionView) -> u64 {
        commit.output[first_paying(commit.output, self.commit_script_pubkey@)].value
    }

    /// The reveal fee, measured on the reveal transaction with a stand-in
    /// signature in its witness.
    pub open spec fn reveal_fee(&self, commit: TransactionView, destination: Seq<u8>, fee_rate: FeeRate) -> nat {
        fee_rate.fee_of(
            vsize_spec(
                reveal_tx_spec(
                    self.reveal_input(commit),
                    destination,
                    self.commit_value(commit),
                    seq![zero_signature(), self.reveal_script@, self.control_block@],
                ),
            ),
        )
    }
}

/// The signed reveal transaction and the key that can spend the commit output
/// by the key path.
pub struct Reveal {
    pub reveal_tx: Transaction,
    pub recovery_key: [u8; 32],
    /// The signature hash that the witness signature was made over.
    pub signed_digest: [u8; 32],
}

impl Reveal {
    /// The id of the new inscription: the id of the reveal transaction.
    pub fn inscription_id(&self) -> (r: InscriptionId)
        ensures
            r.txid@ == txid_of(self.reveal_tx@),
    {
        InscriptionId { txid: self.reveal_tx.txid() }
    }
}

/// A copy of a byte string.
pub fn copy_bytes(v: &Vec<u8>) -> (r: Vec<u8>)
    ensures
        r@ == v@,
{
    let mut out: Vec<u8> = Vec::new();
    let mut i: usize = 0;
    while i < v.len()
        invariant
            i <= v@.len(),
            out@ == v@.subrange(0, i as int),
        decreases v@.len() - i,
    {
        out.push(v[i]);
        assert(v@.subrange(0, i + 1) =~= v@.subrange(0, i as int).push(v@[i as int]));
        i = i + 1;
    }
    assert(v@.subrange(0, v@.len() as int) =~= v@);
    out
}

/// The witness stack `[signature, script, control block]`.
pub fn witness_stack(signature: Vec<u8>, script: &Vec<u8>, control_block: &Vec<u8>) -> (r: Vec<Vec<u8>>)
    ensures
        r@.map_values(|w: Vec<u8>| w@) == seq![signature@, script@, control_block@],
{
    let mut w: Vec<Vec<u8>> = Vec::new();
    w.push(signature);
    w.push(copy_bytes(script));
    w.push(copy_bytes(control_block));
    assert(w@.map_values(|w: Vec<u8>| w@) =~= seq![w@[0]@, w@[1]@, w@[2]@]);
    w
}

/// The reveal transaction spending `previous_output` and paying `value` to `destination`.
pub fn reveal_transaction(
    previous_output: OutPoint,
    destination: &Vec<u8>,
    value: u64,
    witness: Vec<Vec<u8>>,
) -> (r: Transaction)
    ensures
        r@ == reveal_tx_spec(previous_output@, destination@, value, witness@.map_values(|w: Vec<u8>| w@)),
{
    let mut input: Vec<TxIn> = Vec::new();
    input.push(TxIn { previous_output, script_sig: Vec::new(), sequence: SEQUENCE_RBF, witness });
    let mut output: Vec<TxOut> = Vec::new();
    output.push(TxOut { value, script_pubkey: copy_bytes(destination) });
    let r = Transaction { version: 1, lock_time: 0, input, output };
    assert(r@.input =~= seq![r@.input[0]]);
    assert(r@.output =~= seq![r@.output[0]]);
    assert(r@.input[0].script_sig =~= Seq::<u8>::empty());
    r
}

/// The index of the first output paying `script_pubkey`; the number of
/// outputs if there is none.
pub fn find_output(outputs: &Vec<TxOut>, script_pubkey: &Vec<u8>) -> (r: usize)
    ensures
        r == first_paying(outputs@.map_values(|o: TxOut| o@), script_pubkey@),
        r < outputs@.len() <==> pays(outputs@.map_values(|o: TxOut| o@), script_pubkey@),
{
    let ghost outs = outputs@.map_values(|o: TxOut| o@);
    let mut i: usize = 0;
    while i < outputs.len()
        invariant
            i <= outputs@.len(),
            outs == outputs@.map_values(|o: TxOut| o@),
            first_paying(outs, script_pubkey@) == first_paying_from(outs, script_pubkey@, i as int),
            forall|k: int| 0 <= k < i ==> outs[k].script_pubkey != script_pubkey@,
        decreases outputs@.len() - i,
    {
        if bytes_equal(outputs[i].script_pubkey.as_slice(), script_pubkey.as_slice()) {
            return i;
        }
        i = i + 1;
    }
    i
}

/// Resolves the sat to inscribe, refuses one whose output holds an inscribed
/// sat, and derives from `secret_key` the reveal script for `inscription` and
/// the Taproot output that commits to it.
pub fn prepare_commit(
    satpoint: Option<SatPoint>,
    inscription: &Inscription,
    inscriptions: &Vec<(SatPoint, InscriptionId)>,
    utxos: &Vec<(OutPoint, u64)>,
    secret_key: [u8; 32],
) -> (r: Result<CommitPlan, InscribeError>)
    requires
        inscription.wf(),
    ensures
        satpoint is None && (forall|i: int| 0 <= i < utxos@.len() ==> is_inscribed(inscriptions@, utxos@[i].0@))
            ==> r == Err::<CommitPlan, InscribeError>(InscribeError::NoCardinalUtxos),
        satpoint is None && (exists|i: int| 0 <= i < utxos@.len() && !is_inscribed(inscriptions@, utxos@[i].0@))
            ==> !(r matches Err(e) && (e is NoCardinalUtxos || e is SatAlreadyInscribed
            || e is OutpointAlreadyInscribed)),
        forall|s: SatPoint|
            resolves_to(satpoint, utxos@, inscriptions@, s) && is_inscribed(inscriptions@, s@.outpoint) ==> (
            r matches Err(e) && exists|j: int|
                is_first_collision(inscriptions@, s, j) && if inscriptions@[j].0@ == s@ {
                    e == (InscribeError::SatAlreadyInscribed { satpoint: s })
                } else {
                    e == (InscribeError::OutpointAlreadyInscribed {
                        outpoint: s.outpoint,
                        inscription: inscriptions@[j].1,
                        satpoint: inscriptions@[j].0,
                    })
                }),
        forall|s: SatPoint|
            resolves_to(satpoint, utxos@, inscriptions@, s) && !is_inscribed(inscriptions@, s@.outpoint) ==> (
            (r is Ok <==> valid_secret_key(secret_key@)) && (r matches Err(e) ==> e is KeyFailure)),
        r matches Ok(plan) ==> {
            &&& resolves_to(satpoint, utxos@, inscriptions@, plan.satpoint)
            &&& !is_inscribed(inscriptions@, plan.satpoint@.outpoint)
            &&& plan.wf()
            &&& plan.secret_key == secret_key
            &&& plan.reveal_script@ == reveal_script_spec(
                plan.internal_key@,
                inscription.content_type_view(),
                inscription.body_view(),
            )
        },
        r matches Err(e) ==> (e is NoCardinalUtxos || e is SatAlreadyInscribed || e is OutpointAlreadyInscribed
            || e is KeyFailure),
{
    let resolved = resolve_satpoint(satpoint, utxos, inscriptions);
    let s = match resolved {
        Ok(s) => s,
        Err(e) => {
            return Err(e);
        },
    };
    assert(resolves_to(satpoint, utxos@, inscriptions@, s));
    assert forall|t: SatPoint| resolves_to(satpoint, utxos@, inscriptions@, t) implies t == s by {
        if satpoint is None {
            let i = choose|i: int| is_first_cardinal(utxos@, inscriptions@, i) && t == (SatPoint { outpoint: utxos@[i].0, offset: 0 });
            let i2 = choose|i: int| is_first_cardinal(utxos@, inscriptions@, i) && s == (SatPoint { outpoint: utxos@[i].0, offset: 0 });
            if i < i2 {
                assert(is_inscribed(inscriptions@, utxos@[i].0@));
            } else if i2 < i {
                assert(is_inscribed(inscriptions@, utxos@[i2].0@));
            }
        }
    }
    assert(satpoint is None && (exists|i: int| 0 <= i < utxos@.len() && !is_inscribed(inscriptions@, utxos@[i].0@))
        ==> !is_inscribed(inscriptions@, s@.outpoint));
    match check_collisions(&s, inscriptions) {
        Ok(()) => {},
        Err(e) => {
            return Err(e);
        },
    }
    let internal_key = match xonly_public_key(&secret_key) {
        Some(k) => k,
        None => {
            return Err(InscribeError::KeyFailure);
        },
    };
    let script = reveal_script(&internal_key, inscription);
    assert(valid_secret_key(secret_key@) && xonly_of(secret_key@) == internal_key@);
    let leaf = match taproot_single_leaf(&internal_key, &script) {
        Some(c) => c,
        None => {
            return Err(InscribeError::KeyFailure);
        },
    };
    let commit_script_pubkey = p2tr_script(&leaf.output_key);
    Ok(CommitPlan {
        satpoint: s,
        secret_key,
        internal_key,
        reveal_script: script,
        output_key: leaf.output_key,
        control_block: leaf.control_block,
        commit_script_pubkey,
    })
}

/// The number of outputs that pay `script_pubkey`.
pub fn count_outputs_paying(outputs: &Vec<TxOut>, script_pubkey: &Vec<u8>) -> (r: usize)
    ensures
        r == count_paying(outputs@.map_values(|o: TxOut| o@), script_pubkey@, outputs@.len() as int),
{
    let ghost outs = outputs@.map_values(|o: TxOut| o@);
    let mut n: usize = 0;
    let mut i: usize = 0;
    while i < outputs.len()
        invariant
            i <= outputs@.len(),
            outs == outputs@.map_values(|o: TxOut| o@),
            n == count_paying(outs, script_pubkey@, i as int),
            n <= i,
        decreases outputs@.len() - i,
    {
        if bytes_equal(outputs[i].script_pubkey.as_slice(), script_pubkey.as_slice()) {
            n = n + 1;
        }
        i = i + 1;
    }
    n
}

/// A signature-sized string of zero bytes.
pub fn zero_signature_bytes() -> (r: Vec<u8>)
    ensures
        r@ == zero_signature(),
{
    let mut out: Vec<u8> = Vec::new();
    let mut i: usize = 0;
    while i < SIGNATURE_SIZE
        invariant
            i <= SIGNATURE_SIZE,
            out@ == Seq::new(i as nat, |k: int| 0u8),
        decreases SIGNATURE_SIZE - i,
    {
        out.push(0);
        assert(out@ =~= Seq::new((i + 1) as nat, |k: int| 0u8));
        i = i + 1;
    }
    out
}

/// Builds and signs the reveal transaction that spends the commit output of
/// `commit_tx` by the script path and pays what is left after the fee to
/// `destination`, and derives the recovery key.
pub fn create_reveal(
    plan: &CommitPlan,
    commit_tx: &Transaction,
    destination: &Vec<u8>,
    fee_rate: &FeeRate,
) -> (r: Result<Reveal, InscribeError>)
    requires
        plan.wf(),
        fee_rate.wf(),
        count_paying(commit_tx@.output, plan.commit_script_pubkey@, commit_tx@.output.len() as int) == 1,
        commit_tx@.output.len() <= u32::MAX,
    ensures
        ({
            let fee = plan.reveal_fee(commit_tx@, destination@, *fee_rate);
            let value = plan.commit_value(commit_tx@);
            &&& (r matches Err(e) && e is InsufficientCommitValue) <==> fee > value
            &&& (r matches Err(e) && e is RevealWouldBeDust) <==> (fee <= value && value - fee < dust_spec(destination@))
            &&& r is Ok <==> (fee <= value && value - fee >= dust_spec(destination@))
            &&& r matches Err(e) ==> (e is InsufficientCommitValue || e is RevealWouldBeDust)
            &&& r matches Ok(reveal) ==> {
                let tx = reveal.reveal_tx@;
                &&& fee <= value
                &&& tx == reveal_tx_spec(
                    plan.reveal_input(commit_tx@),
                    destination@,
                    (value - fee) as u64,
                    seq![tx.input[0].witness[0], plan.reveal_script@, plan.control_block@],
                )
                &&& tx.input[0].witness[0].len() == SIGNATURE_SIZE
                &&& fee == fee_rate.fee_of(vsize_spec(tx))
                &&& signals_rbf(tx)
                &&& reveal.signed_digest@ == script_spend_sighash_of(
                    single_spend_view(
                        1,
                        0,
                        plan.reveal_input(commit_tx@),
                        SEQUENCE_RBF,
                        TxOutView { value: (value - fee) as u64, script_pubkey: destination@ },
                    ),
                    TxOutView { value, script_pubkey: plan.commit_script_pubkey@ },
                    plan.reveal_script@,
                )
                &&& reveal.recovery_key@ == tap_tweaked_secret_of(plan.secret_key@, plan.reveal_script@)
                &&& xonly_of(reveal.recovery_key@) == plan.output_key@
            }
        }),
{
    let ghost outs = commit_tx@.output;
    let vout = find_output(&commit_tx.output, &plan.commit_script_pubkey);
    proof {
        lemma_count_positive_pays(outs, plan.commit_script_pubkey@, outs.len() as int);
    }
    let commit_value = commit_tx.output[vout].value;
    let previous_output = OutPoint { txid: commit_tx.txid(), vout: vout as u32 };
    assert(previous_output@ == plan.reveal_input(commit_tx@));
    let measure = reveal_transaction(
        previous_output,
        destination,
        commit_value,
        witness_stack(zero_signature_bytes(), &plan.reveal_script, &plan.control_block),
    );
    let fee = match fee_rate.fee(measure.vsize()) {
        Some(f) => f,
        None => {
            return Err(InscribeError::InsufficientCommitValue);
        },
    };
    if fee > commit_value {
        return Err(InscribeError::InsufficientCommitValue);
    }
    let value = commit_value - fee;
    if value < dust_value(destination) {
        return Err(InscribeError::RevealWouldBeDust);
    }
    let payment = TxOut { value, script_pubkey: copy_bytes(destination) };
    let prevout = TxOut { value: commit_value, script_pubkey: copy_bytes(&plan.commit_script_pubkey) };
    let sighash = match script_spend_sighash(
        1,
        0,
        &previous_output,
        SEQUENCE_RBF,
        &payment,
        &prevout,
        &plan.reveal_script,
    ) {
        Some(h) => h,
        None => {
            return Err(InscribeError::KeyFailure);
        },
    };
    let signature = match schnorr_sign(&plan.secret_key, &sighash) {
        Some(s) => s,
        None => {
            return Err(InscribeError::KeyFailure);
        },
    };
    let reveal_tx = reveal_transaction(
        previous_output,
        destination,
        value,
        witness_stack(signature, &plan.reveal_script, &plan.control_block),
    );
    let recovery_key = match tap_tweak_secret(&plan.secret_key, &plan.reveal_script) {
        Some(k) => k,
        None => {
            return Err(InscribeError::KeyFailure);
        },
    };
    proof {
        lemma_reveal_vsize(
            previous_output@,
            destination@,
            commit_value,
            value,
            measure@.input[0].witness,
            reveal_tx@.input[0].witness,
        );
    }
    assert(signals_rbf(reveal_tx@)) by {
        assert(reveal_tx@.input[0].sequence < crate::model::SEQUENCE_RBF_LIMIT);
    }
    Ok(Reveal { reveal_tx, recovery_key, signed_digest: sighash })
}

/// With at least one output paying `script_pubkey` among the first `n`, the
/// first paying output lies among them.
pub proof fn lemma_count_positive_pays(outputs: Seq<TxOutView>, script_pubkey: Seq<u8>, n: int)
    requires
        0 <= n <= outputs.len(),
        count_paying(outputs, script_pubkey, n) > 0,
    ensures
        0 <= first_paying(outputs, script_pubkey) < n,
        outputs[first_paying(outputs, script_pubkey)].script_pubkey == script_pubkey,
    decreases n,
{
    if count_paying(outputs, script_pubkey, n - 1) > 0 {
        lemma_count_positive_pays(outputs, script_pubkey, n - 1);
    } else {
        lemma_first_paying_from(outputs, script_pubkey, 0, n - 1);
    }
}

/// If no output before `target` pays `script_pubkey` and `target` does, the
/// search from `i` finds `target`.
pub proof fn lemma_first_paying_from(outputs: Seq<TxOutView>, script_pubkey: Seq<u8>, i: int, target: int)
    requires
        0 <= i <= target < outputs.len(),
        outputs[target].script_pubkey == script_pubkey,
        count_paying(outputs, script_pubkey, target) == 0,
    ensures
        first_paying_from(outputs, script_pubkey, i) == target,
    decreases target - i,
{
    if i < target {
        lemma_count_zero(outputs, script_pubkey, target, i);
        lemma_first_paying_from(outputs, script_pubkey, i + 1, target);
    }
}

/// No output among the first `n` pays when the count there is zero.
pub proof fn lemma_count_zero(outputs: Seq<TxOutView>, script_pubkey: Seq<u8>, n: int, k: int)
    requires
        0 <= k < n,
        count_paying(outputs, script_pubkey, n) == 0,
    ensures
        outputs[k].script_pubkey != script_pubkey,
    decreases n,
{
    if k < n - 1 {
        lemma_count_zero(outputs, script_pubkey, n - 1, k);
    }
}

/// A paying output among the first `n` makes the count there positive.
pub proof fn lemma_count_one(outputs: Seq<TxOutView>, script_pubkey: Seq<u8>, n: int, a: int)
    requires
        0 <= a < n <= outputs.len(),
        outputs[a].script_pubkey == script_pubkey,
    ensures
        count_paying(outputs, script_pubkey, n) >= 1,
    decreases n,
{
    if a < n - 1 {
        lemma_count_one(outputs, script_pubkey, n - 1, a);
    }
}

/// Two paying outputs among the first `n` make the count there at least two.
pub proof fn lemma_count_two(outputs: Seq<TxOutView>, script_pubkey: Seq<u8>, n: int, a: int, b: int)
    requires
        0 <= a < b < n <= outputs.len(),
        outputs[a].script_pubkey == script_pubkey,
        outputs[b].script_pubkey == script_pubkey,
    ensures
        count_paying(outputs, script_pubkey, n) >= 2,
    decreases n,
{
    if b < n - 1 {
        lemma_count_two(outputs, script_pubkey, n - 1, a, b);
    } else {
        lemma_count_one(outputs, script_pubkey, n - 1, a);
    }
}

/// When exactly one output of the commit transaction pays the commit script,
/// the reveal transaction spends that output, and no other output pays it.
pub proof fn law_reveal_spends_the_commit_output(plan: CommitPlan, commit: TransactionView)
    requires
        count_paying(commit.output, plan.commit_script_pubkey@, commit.output.len() as int) == 1,
    ensures
        ({
            let vout = first_paying(commit.output, plan.commit_script_pubkey@);
            &&& 0 <= vout < commit.output.len()
            &&& commit.output[vout].script_pubkey == plan.commit_script_pubkey@
            &&& plan.commit_value(commit) == commit.output[vout].value
            &&& forall|j: int|
                0 <= j < commit.output.len() && commit.output[j].script_pubkey == plan.commit_script_pubkey@
                    ==> j == vout
        }),
{
    let spk = plan.commit_script_pubkey@;
    let n = commit.output.len() as int;
    lemma_count_positive_pays(commit.output, spk, n);
    let vout = first_paying(commit.output, spk);
    assert forall|j: int| 0 <= j < n && commit.output[j].script_pubkey == spk implies j == vout by {
        if j < vout {
            lemma_count_two(commit.output, spk, n, j, vout);
        } else if vout < j {
            lemma_count_two(commit.output, spk, n, vout, j);
        }
    }
}

/// Accepts the node's answer to the recovery key import only when every
/// result reports success.
pub fn check_recovery_import(successes: &Vec<bool>) -> (r: Result<(), InscribeError>)
    ensures
        r is Ok <==> forall|i: int| 0 <= i < successes@.len() ==> successes@[i],
        r matches Err(e) ==> e is RecoveryKeyImportFailed,
{
    let mut i: usize = 0;
    while i < successes.len()
        invariant
            i <= successes@.len(),
            forall|k: int| 0 <= k < i ==> successes@[k],
        decreases successes@.len() - i,
    {
        if !successes[i] {
            return Err(InscribeError::RecoveryKeyImportFailed);
        }
        i = i + 1;
    }
    Ok(())
}

/// Two reveal transactions whose witness items have the same lengths have
/// the same virtual size, whatever the values they pay.
pub proof fn lemma_reveal_vsize(
    previous_output: OutPointView,
    destination: Seq<u8>,
    a: u64,
    b: u64,
    wa: Seq<Seq<u8>>,
    wb: Seq<Seq<u8>>,
)
    requires
        wa.len() == wb.len(),
        forall|i: int| 0 <= i < wa.len() ==> wa[i].len() == wb[i].len(),
    ensures
        vsize_spec(reveal_tx_spec(previous_output, destination, a, wa)) == vsize_spec(
            reveal_tx_spec(previous_output, destination, b, wb),
        ),
{
    let ta = reveal_tx_spec(previous_output, destination, a, wa);
    let tb = reveal_tx_spec(previous_output, destination, b, wb);
    lemma_witness_len_by_lengths(wa, wb);
    assert(ta.input.drop_last() =~= Seq::<TxInView>::empty());
    assert(tb.input.drop_last() =~= Seq::<TxInView>::empty());
    assert(ta.output.drop_last() =~= Seq::<TxOutView>::empty());
    assert(tb.output.drop_last() =~= Seq::<TxOutView>::empty());
}

} // verus!
