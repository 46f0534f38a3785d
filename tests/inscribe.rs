use inscribe::crypto::xonly_public_key;
use inscribe::error::InscribeError;
use inscribe::fee::{dust_value, FeeRate};
use inscribe::inscribe::{
    check_recovery_import, count_outputs_paying, create_reveal, prepare_commit, CommitPlan, Reveal,
};
use inscribe::model::{InscriptionId, OutPoint, SatPoint, Transaction, TxIn, TxOut, SEQUENCE_RBF};
use inscribe::script::{p2tr_script, reveal_script, Inscription};
use inscribe::select::{check_collisions, resolve_satpoint};

const SECRET: [u8; 32] = [7; 32];

fn outpoint(n: u8) -> OutPoint {
    OutPoint { txid: [n.wrapping_mul(0x11); 32], vout: n as u32 }
}

fn satpoint(n: u8, offset: u64) -> SatPoint {
    SatPoint { outpoint: outpoint(n), offset }
}

fn inscription_id(n: u8) -> InscriptionId {
    InscriptionId { txid: [n.wrapping_mul(0x11); 32] }
}

fn inscription(content_type: &str, body: &[u8]) -> Inscription {
    Inscription::new(content_type.as_bytes().to_vec(), body.to_vec())
}

fn p2wpkh(n: u8) -> Vec<u8> {
    let mut script = vec![0x00, 0x14];
    script.extend_from_slice(&[n; 20]);
    script
}

fn change(n: u8) -> Vec<u8> {
    p2wpkh(0x20 + n)
}

fn recipient() -> Vec<u8> {
    p2wpkh(0xd6)
}

fn fee_rate(numerator: u64, denominator: u64) -> FeeRate {
    FeeRate::new(numerator, denominator).unwrap()
}

/// Spends the whole utxo of `plan.satpoint` into the commit output, less the
/// commit fee measured with a stand-in key-hash witness.
fn fund(plan: &CommitPlan, utxos: &[(OutPoint, u64)], rate: &FeeRate) -> Transaction {
    let value = utxos.iter().find(|(o, _)| *o == plan.satpoint.outpoint).unwrap().1;
    let mut tx = Transaction {
        version: 2,
        lock_time: 0,
        input: vec![TxIn {
            previous_output: plan.satpoint.outpoint,
            script_sig: Vec::new(),
            sequence: SEQUENCE_RBF,
            witness: vec![vec![0; 71], vec![0; 33]],
        }],
        output: vec![TxOut { value, script_pubkey: plan.commit_script_pubkey.clone() }],
    };
    let fee = rate.fee(tx.vsize()).unwrap();
    tx.output[0].value = value - fee;
    tx.input[0].witness = Vec::new();
    tx
}

fn run(
    satpoint: Option<SatPoint>,
    inscription: Inscription,
    inscriptions: Vec<(SatPoint, InscriptionId)>,
    utxos: Vec<(OutPoint, u64)>,
    _change: Vec<Vec<u8>>,
    destination: Vec<u8>,
    rate: FeeRate,
) -> Result<(Transaction, Reveal, CommitPlan), InscribeError> {
    let plan = prepare_commit(satpoint, &inscription, &inscriptions, &utxos, SECRET)?;
    let commit_tx = fund(&plan, &utxos, &rate);
    assert_eq!(count_outputs_paying(&commit_tx.output, &plan.commit_script_pubkey), 1);
    let reveal = create_reveal(&plan, &commit_tx, &destination, &rate)?;
    Ok((commit_tx, reveal, plan))
}

#[test]
fn reveal_transaction_pays_fee() {
    let utxos = vec![(outpoint(1), 5000)];
    let (commit_tx, reveal, _plan) = run(
        Some(satpoint(1, 0)),
        inscription("text/plain", b"ord"),
        Vec::new(),
        utxos,
        vec![change(0), change(1)],
        recipient(),
        fee_rate(1, 1),
    )
    .unwrap();
    let reveal_tx = reveal.reveal_tx;
    let fee = reveal_tx.vsize();
    assert_eq!(reveal_tx.output[0].value, 5000 - fee - (5000 - commit_tx.output[0].value));
}

#[test]
fn reveal_transaction_value_insufficient_to_pay_fee() {
    let utxos = vec![(outpoint(1), 1000)];
    let error = run(
        Some(satpoint(1, 0)),
        inscription("image/png", &[1; 10_000]),
        Vec::new(),
        utxos,
        vec![change(0), change(1)],
        recipient(),
        fee_rate(1, 1),
    )
    .err()
    .unwrap();
    assert!(error
        .message()
        .contains("commit transaction output value insufficient to pay transaction fee"));
}

#[test]
fn reveal_transaction_would_create_dust() {
    let utxos = vec![(outpoint(1), 500)];
    let error = run(
        Some(satpoint(1, 0)),
        inscription("text/plain", b"ord"),
        Vec::new(),
        utxos,
        vec![change(0), change(1)],
        recipient(),
        fee_rate(1, 1),
    )
    .err()
    .unwrap()
    .message();
    assert!(error.contains("commit transaction output would be dust"), "{}", error);
}

#[test]
fn inscript_tansactions_opt_in_to_rbf() {
    let utxos = vec![(outpoint(1), 5000)];
    let (commit_tx, reveal, _plan) = run(
        Some(satpoint(1, 0)),
        inscription("text/plain", b"ord"),
        Vec::new(),
        utxos,
        vec![change(0), change(1)],
        recipient(),
        fee_rate(1, 1),
    )
    .unwrap();
    assert!(commit_tx.is_explicitly_rbf());
    assert!(reveal.reveal_tx.is_explicitly_rbf());
}

#[test]
fn inscribe_with_no_satpoint_and_no_cardinal_utxos() {
    let utxos = vec![(outpoint(1), 1000)];
    let inscriptions = vec![(SatPoint { outpoint: outpoint(1), offset: 0 }, inscription_id(1))];
    let error = run(
        None,
        inscription("text/plain", b"ord"),
        inscriptions,
        utxos,
        vec![change(0), change(1)],
        recipient(),
        fee_rate(1, 1),
    )
    .err()
    .unwrap()
    .message();
    assert!(error.contains("wallet contains no cardinal utxos"), "{}", error);
}

#[test]
fn inscribe_with_no_satpoint_and_enough_cardinal_utxos() {
    let utxos = vec![(outpoint(1), 1000), (outpoint(2), 1000)];
    let inscriptions = vec![(SatPoint { outpoint: outpoint(1), offset: 0 }, inscription_id(1))];
    let result = run(
        None,
        inscription("text/plain", b"ord"),
        inscriptions,
        utxos,
        vec![change(0), change(1)],
        recipient(),
        fee_rate(1, 1),
    );
    assert!(result.is_ok());
    assert_eq!(result.unwrap().2.satpoint, satpoint(2, 0));
}

#[test]
fn inscribe_with_custom_fee_rate() {
    let utxos = vec![(outpoint(1), 10_000), (outpoint(2), 10_000)];
    let inscriptions = vec![(SatPoint { outpoint: outpoint(1), offset: 0 }, inscription_id(1))];
    let (commit_tx, reveal, _plan) = run(
        None,
        inscription("text/plain", b"ord"),
        inscriptions,
        utxos,
        vec![change(0), change(1)],
        recipient(),
        fee_rate(33, 10),
    )
    .unwrap();
    let reveal_tx = reveal.reveal_tx;
    let fee = fee_rate(33, 10).fee(reveal_tx.vsize()).unwrap();
    assert_eq!(reveal_tx.output[0].value, 10_000 - fee - (10_000 - commit_tx.output[0].value));
}
