use bitcoin::hashes::Hash as _;
use bitcoin::schnorr::TapTweak;
use bitcoin::secp256k1::{schnorr, KeyPair, Message, Secp256k1, XOnlyPublicKey};
use bitcoin::util::sighash::{Prevouts, SighashCache};
use bitcoin::util::taproot::{LeafVersion, TapLeafHash};
use inscribe::crypto::{tap_tweak_secret, xonly_public_key};
use inscribe::error::InscribeError;
use inscribe::fee::{dust_value, FeeRate};
use inscribe::inscribe::{
    check_recovery_import, count_outputs_paying, create_reveal, find_output, prepare_commit,
    CommitPlan,
};
use inscribe::model::{InscriptionId, OutPoint, SatPoint, Transaction, TxIn, TxOut, SEQUENCE_RBF};
use inscribe::script::{p2tr_script, reveal_script, Inscription};
use inscribe::select::{check_collisions, resolve_satpoint};

const KEY: [u8; 32] = [9; 32];

fn op(n: u8) -> OutPoint {
    OutPoint { txid: [n; 32], vout: n as u32 }
}

fn sp(n: u8, offset: u64) -> SatPoint {
    SatPoint { outpoint: op(n), offset }
}

fn id(n: u8) -> InscriptionId {
    InscriptionId { txid: [n; 32] }
}

fn wpkh(n: u8) -> Vec<u8> {
    let mut s = vec![0x00, 0x14];
    s.extend_from_slice(&[n; 20]);
    s
}

fn commit_for(plan: &CommitPlan, value: u64) -> Transaction {
    Transaction {
        version: 2,
        lock_time: 0,
        input: vec![TxIn {
            previous_output: plan.satpoint.outpoint,
            script_sig: Vec::new(),
            sequence: SEQUENCE_RBF,
            witness: Vec::new(),
        }],
        output: vec![
            TxOut { value: 1000, script_pubkey: wpkh(3) },
            TxOut { value, script_pubkey: plan.commit_script_pubkey.clone() },
        ],
    }
}

fn to_bitcoin(tx: &Transaction) -> bitcoin::Transaction {
    bitcoin::Transaction {
        version: tx.version,
        lock_time: bitcoin::PackedLockTime(tx.lock_time),
        input: tx
            .input
            .iter()
            .map(|i| bitcoin::TxIn {
                previous_output: bitcoin::OutPoint::new(
                    bitcoin::Txid::from_inner(i.previous_output.txid),
                    i.previous_output.vout,
                ),
                script_sig: bitcoin::Script::from(i.script_sig.clone()),
                sequence: bitcoin::Sequence(i.sequence),
                witness: bitcoin::Witness::from_vec(i.witness.clone()),
            })
            .collect(),
        output: tx
            .output
            .iter()
            .map(|o| bitcoin::TxOut {
                value: o.value,
                script_pubkey: bitcoin::Script::from(o.script_pubkey.clone()),
            })
            .collect(),
    }
}

#[test]
fn explicit_satpoint_is_kept() {
    let utxos = vec![(op(1), 1000)];
    let r = resolve_satpoint(Some(sp(5, 7)), &utxos, &vec![(sp(1, 0), id(1))]).unwrap();
    assert_eq!(r, sp(5, 7));
}

#[test]
fn first_cardinal_utxo_in_wallet_order() {
    let utxos = vec![(op(3), 1), (op(1), 1), (op(2), 1), (op(4), 1)];
    let inscriptions = vec![(sp(3, 9), id(1)), (sp(1, 0), id(2))];
    assert_eq!(resolve_satpoint(None, &utxos, &inscriptions).unwrap(), sp(2, 0));
}

#[test]
fn no_utxos_is_no_cardinal() {
    let r = resolve_satpoint(None, &Vec::new(), &Vec::new());
    assert!(matches!(r, Err(InscribeError::NoCardinalUtxos)));
}

#[test]
fn inscribed_sat_is_refused() {
    let r = check_collisions(&sp(1, 4), &vec![(sp(2, 0), id(2)), (sp(1, 4), id(1))]);
    match r {
        Err(e) => {
            assert!(matches!(e, InscribeError::SatAlreadyInscribed { satpoint } if satpoint == sp(1, 4)));
            let mut txid = [1u8; 32];
            txid[0] = 0xab;
            let shown = bitcoin::Txid::from_inner(txid).to_string();
            let e = InscribeError::SatAlreadyInscribed {
                satpoint: SatPoint { outpoint: OutPoint { txid, vout: 1234 }, offset: 5_000_000_000 },
            };
            assert_eq!(e.message(), format!("sat at {shown}:1234:5000000000 already inscribed"));
        }
        other => panic!("{:?}", other),
    }
}

#[test]
fn sat_sharing_an_inscribed_output_is_refused() {
    let r = check_collisions(&sp(1, 0), &vec![(sp(1, 8), id(7)), (sp(1, 0), id(1))]);
    match r {
        Err(InscribeError::OutpointAlreadyInscribed { outpoint, inscription, satpoint }) => {
            assert_eq!(outpoint, op(1));
            assert_eq!(inscription, id(7));
            assert_eq!(satpoint, sp(1, 8));
        }
        other => panic!("{:?}", other),
    }
    assert!(check_collisions(&sp(1, 0), &vec![(sp(2, 0), id(2))]).is_ok());
}

#[test]
fn prepare_refuses_inscribed_output_before_anything_else() {
    let utxos = vec![(op(1), 5000)];
    let ins = Inscription::new(b"text/plain".to_vec(), b"ord".to_vec());
    let r = prepare_commit(Some(sp(1, 3)), &ins, &vec![(sp(1, 0), id(1))], &utxos, KEY);
    assert!(matches!(r, Err(InscribeError::OutpointAlreadyInscribed { .. })));
    let txid = "01".repeat(32);
    assert_eq!(
        r.err().unwrap().message(),
        format!("utxo {txid}:1 already inscribed with inscription {txid} on sat {txid}:1:0")
    );
}

#[test]
fn reveal_script_bytes() {
    let key = [0xab; 32];
    let ins = Inscription::new(b"text/plain".to_vec(), b"ord".to_vec());
    let mut expected = vec![0x20];
    expected.extend_from_slice(&key);
    expected.push(0xac);
    expected.extend_from_slice(&[0x00, 0x63, 0x03, b'o', b'r', b'd', 0x01, 0x01, 0x0a]);
    expected.extend_from_slice(b"text/plain");
    expected.extend_from_slice(&[0x00, 0x03, b'o', b'r', b'd', 0x68]);
    assert_eq!(reveal_script(&key, &ins), expected);
}

#[test]
fn reveal_script_chunks_large_bodies() {
    let key = [1; 32];
    let body = vec![5u8; 521];
    let ins = Inscription { content_type: None, body: Some(body) };
    let script = reveal_script(&key, &ins);
    let tail = &script[34..];
    assert_eq!(&tail[..7], &[0x00, 0x63, 0x03, b'o', b'r', b'd', 0x00]);
    assert_eq!(&tail[7..10], &[0x4d, 0x08, 0x02]);
    assert_eq!(&tail[10 + 520..], &[0x01, 5, 0x68]);
    let ins = Inscription { content_type: Some(vec![b'x'; 76]), body: None };
    let script = reveal_script(&key, &ins);
    assert_eq!(&script[34 + 6..34 + 10], &[0x01, 0x01, 0x4c, 76]);
    assert_eq!(script.len(), 34 + 6 + 2 + 2 + 76 + 1);
    let ins = Inscription { content_type: None, body: Some(vec![0; 256]) };
    let script = reveal_script(&key, &ins);
    assert_eq!(&script[34 + 7..34 + 10], &[0x4d, 0x00, 0x01]);
    let ins = Inscription { content_type: None, body: Some(Vec::new()) };
    assert_eq!(&reveal_script(&key, &ins)[34..], &[0x00, 0x63, 0x03, b'o', b'r', b'd', 0x00, 0x68]);
}

#[test]
fn p2tr_script_bytes() {
    let key = [0x42; 32];
    let s = p2tr_script(&key);
    assert_eq!(&s[..2], &[0x51, 0x20]);
    assert_eq!(&s[2..], &key);
    let addr = bitcoin::Script::new_v1_p2tr_tweaked(
        bitcoin::schnorr::TweakedPublicKey::dangerous_assume_tweaked(
            XOnlyPublicKey::from_slice(&xonly_public_key(&KEY).unwrap()).unwrap(),
        ),
    );
    assert_eq!(p2tr_script(&xonly_public_key(&KEY).unwrap()), addr.to_bytes());
}

#[test]
fn fee_rounds_up() {
    let rate = FeeRate::new(33, 10).unwrap();
    assert_eq!(rate.fee(7), Some(24));
    assert_eq!(rate.fee(10), Some(33));
    assert_eq!(rate.fee(0), Some(0));
    assert_eq!(FeeRate::new(1, 1).unwrap().fee(123), Some(123));
    assert_eq!(FeeRate::new(u64::MAX, 1).unwrap().fee(2), None);
    assert_eq!(FeeRate::new(u64::MAX, 2).unwrap().fee(2), Some(u64::MAX));
    assert!(FeeRate::new(1, 0).is_none());
}

#[test]
fn fee_rate_from_decimal_text() {
    let parse = |s: &str| FeeRate::from_decimal(s.as_bytes()).map(|f| (f.numerator, f.denominator));
    assert_eq!(parse("1.0"), Some((10, 10)));
    assert_eq!(parse("3.3"), Some((33, 10)));
    assert_eq!(parse("5"), Some((5, 1)));
    assert_eq!(parse("0.25"), Some((25, 100)));
    assert_eq!(parse("18446744073709551615"), Some((u64::MAX, 1)));
    assert_eq!(parse("18446744073709551616"), None);
    assert_eq!(parse("0.0000000000000000001"), Some((1, 10_000_000_000_000_000_000)));
    assert_eq!(parse("0.00000000000000000001"), None);
    for bad in ["", ".", "1.", ".5", "1.2.3", "a", "1a", "-1", "1..2"] {
        assert_eq!(parse(bad), None, "{}", bad);
    }
}

#[test]
fn dust_thresholds() {
    assert_eq!(dust_value(&wpkh(1)), 294);
    let mut p2tr = vec![0x51, 0x20];
    p2tr.extend_from_slice(&[1; 32]);
    assert_eq!(dust_value(&p2tr), 330);
    let mut p2pkh = vec![0x76, 0xa9, 0x14];
    p2pkh.extend_from_slice(&[1; 20]);
    p2pkh.extend_from_slice(&[0x88, 0xac]);
    assert_eq!(dust_value(&p2pkh), 546);
    assert_eq!(dust_value(&vec![0x6a, 0x01, 0x00]), 0);
}

#[test]
fn recovery_import_needs_every_success() {
    assert!(check_recovery_import(&vec![true, true]).is_ok());
    assert!(check_recovery_import(&Vec::new()).is_ok());
    let e = check_recovery_import(&vec![true, false]).err().unwrap();
    assert!(matches!(e, InscribeError::RecoveryKeyImportFailed));
    assert_eq!(e.message(), "commit tx recovery key import failed");
}

#[test]
fn commit_output_is_found_by_script() {
    let utxos = vec![(op(1), 5000)];
    let ins = Inscription::new(b"text/plain".to_vec(), b"ord".to_vec());
    let plan = prepare_commit(None, &ins, &Vec::new(), &utxos, KEY).unwrap();
    let mut commit = commit_for(&plan, 4000);
    assert_eq!(find_output(&commit.output, &plan.commit_script_pubkey), 1);
    assert_eq!(count_outputs_paying(&commit.output, &plan.commit_script_pubkey), 1);
    commit.output.push(TxOut { value: 5, script_pubkey: plan.commit_script_pubkey.clone() });
    assert_eq!(count_outputs_paying(&commit.output, &plan.commit_script_pubkey), 2);
    assert_eq!(find_output(&commit.output, &wpkh(9)), 3);
}

#[test]
fn reveal_is_signed_and_recovery_key_matches_output_key() {
    let utxos = vec![(op(1), 5000)];
    let ins = Inscription::new(b"text/plain".to_vec(), b"ord".to_vec());
    let plan = prepare_commit(None, &ins, &Vec::new(), &utxos, KEY).unwrap();
    let commit = commit_for(&plan, 4000);
    let destination = wpkh(8);
    let rate = FeeRate::new(2, 1).unwrap();
    let reveal = create_reveal(&plan, &commit, &destination, &rate).unwrap();
    let tx = &reveal.reveal_tx;

    assert_eq!(tx.version, 1);
    assert_eq!(tx.lock_time, 0);
    assert_eq!(tx.input.len(), 1);
    assert_eq!(tx.input[0].previous_output, OutPoint { txid: commit.txid(), vout: 1 });
    assert_eq!(tx.input[0].sequence, 0xFFFF_FFFD);
    assert_eq!(tx.input[0].witness.len(), 3);
    assert_eq!(tx.input[0].witness[0].len(), 64);
    assert_eq!(tx.input[0].witness[1], plan.reveal_script);
    assert_eq!(tx.input[0].witness[2], plan.control_block);
    assert_eq!(tx.output[0].script_pubkey, destination);
    assert_eq!(tx.output[0].value, 4000 - 2 * tx.vsize());
    assert_eq!(tx.vsize(), 123);
    assert_eq!(commit.vsize(), 125);

    let btc = to_bitcoin(tx);
    assert_eq!(btc.vsize() as u64, tx.vsize());
    assert_eq!(btc.txid().into_inner(), tx.txid());
    assert_eq!(reveal.inscription_id().txid, tx.txid());

    let secp = Secp256k1::new();
    let prevout = bitcoin::TxOut {
        value: 4000,
        script_pubkey: bitcoin::Script::from(plan.commit_script_pubkey.clone()),
    };
    let leaf = TapLeafHash::from_script(&bitcoin::Script::from(plan.reveal_script.clone()), LeafVersion::TapScript);
    let sighash = SighashCache::new(&btc)
        .taproot_script_spend_signature_hash(0, &Prevouts::All(&[prevout]), leaf, bitcoin::SchnorrSighashType::Default)
        .unwrap();
    let signature = schnorr::Signature::from_slice(&tx.input[0].witness[0]).unwrap();
    let key = XOnlyPublicKey::from_slice(&plan.internal_key).unwrap();
    secp.verify_schnorr(&signature, &Message::from_slice(&sighash.into_inner()).unwrap(), &key).unwrap();

    assert_eq!(xonly_public_key(&reveal.recovery_key).unwrap(), plan.output_key);
    let spend_info = bitcoin::util::taproot::TaprootBuilder::new()
        .add_leaf(0, bitcoin::Script::from(plan.reveal_script.clone()))
        .unwrap()
        .finalize(&secp, key)
        .unwrap();
    assert_eq!(spend_info.output_key().to_inner().serialize(), plan.output_key);
    let tweaked = KeyPair::from_seckey_slice(&secp, &KEY).unwrap().tap_tweak(&secp, spend_info.merkle_root());
    assert_eq!(reveal.recovery_key, tweaked.to_inner().secret_bytes());
    assert_eq!(tap_tweak_secret(&KEY, &plan.reveal_script), Some(reveal.recovery_key));
    assert_eq!(reveal.signed_digest, sighash.into_inner());
    assert_eq!(plan.control_block.len(), 33);
    assert_eq!(&plan.control_block[1..], &plan.internal_key);
}

#[test]
fn fee_above_every_value_is_insufficient() {
    let utxos = vec![(op(1), 5000)];
    let ins = Inscription::new(b"text/plain".to_vec(), b"ord".to_vec());
    let plan = prepare_commit(None, &ins, &Vec::new(), &utxos, KEY).unwrap();
    let commit = commit_for(&plan, u64::MAX);
    let rate = FeeRate::new(u64::MAX, 1).unwrap();
    let r = create_reveal(&plan, &commit, &wpkh(8), &rate);
    assert!(matches!(r, Err(InscribeError::InsufficientCommitValue)));
}

#[test]
fn invalid_secret_key_is_refused() {
    let utxos = vec![(op(1), 5000)];
    let ins = Inscription::new(b"text/plain".to_vec(), b"ord".to_vec());
    let r = prepare_commit(None, &ins, &Vec::new(), &utxos, [0; 32]);
    assert!(matches!(r, Err(InscribeError::KeyFailure)));
    assert_eq!(r.err().unwrap().message(), "invalid secret key");
    let order: [u8; 32] = [
        0xff, 0xff, 0xff, 0xff, 0xff, 0xff, 0xff, 0xff, 0xff, 0xff, 0xff, 0xff, 0xff, 0xff, 0xff, 0xfe,
        0xba, 0xae, 0xdc, 0xe6, 0xaf, 0x48, 0xa0, 0x3b, 0xbf, 0xd2, 0x5e, 0x8c, 0xd0, 0x36, 0x41, 0x41,
    ];
    assert!(xonly_public_key(&order).is_none());
    let mut below = order;
    below[31] = 0x40;
    assert!(xonly_public_key(&below).is_some());
    assert!(prepare_commit(None, &ins, &Vec::new(), &utxos, below).is_ok());
}
