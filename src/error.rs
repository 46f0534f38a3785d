use vstd::prelude::*;
use vstd::string::*;
use crate::model::{InscriptionId, OutPoint, SatPoint};

verus! {

/// Why an inscription could not be prepared or completed.
#[derive(Clone, Debug)]
pub enum InscribeError {
    /// Every wallet output already holds an inscribed sat.
    NoCardinalUtxos,
    /// The chosen sat is itself inscribed.
    SatAlreadyInscribed { satpoint: SatPoint },
    /// Another sat of the chosen output is inscribed.
    OutpointAlreadyInscribed { outpoint: OutPoint, inscription: InscriptionId, satpoint: SatPoint },
    /// The commit output cannot pay the reveal fee.
    InsufficientCommitValue,
    /// What the reveal output keeps after the fee is below the dust threshold.
    RevealWouldBeDust,
    /// The ephemeral secret key is no secp256k1 secret key.
    KeyFailure,
    /// The node did not accept the recovery key.
    RecoveryKeyImportFailed,
}

pub open spec fn digit_chars() -> Seq<char> {
    seq!['0', '1', '2', '3', '4', '5', '6', '7', '8', '9', 'a', 'b', 'c', 'd', 'e', 'f']
}

/// Decimal digits of `n`, most significant first.
pub open spec fn decimal_text(n: nat) -> Seq<char>
    decreases n,
{
    if n < 10 {
        seq![digit_chars()[n as int]]
    } else {
        decimal_text(n / 10) + seq![digit_chars()[(n % 10) as int]]
    }
}

/// Two lowercase hex digits of a byte.
pub open spec fn byte_text(b: u8) -> Seq<char> {
    seq![digit_chars()[(b / 16) as int], digit_chars()[(b % 16) as int]]
}

/// A hash in hex, last byte first, as transaction ids are shown.
pub open spec fn hash_text(h: Seq<u8>) -> Seq<char>
    decreases h.len(),
{
    if h.len() == 0 {
        seq![]
    } else {
        byte_text(h.last()) + hash_text(h.drop_last())
    }
}

pub open spec fn outpoint_text(o: OutPoint) -> Seq<char> {
    hash_text(o.txid@) + seq![':'] + decimal_text(o.vout as nat)
}

pub open spec fn satpoint_text(s: SatPoint) -> Seq<char> {
    outpoint_text(s.outpoint) + seq![':'] + decimal_text(s.offset as nat)
}

/// The sentence that describes an error.
pub open spec fn message_spec(e: InscribeError) -> Seq<char> {
    match e {
        InscribeError::NoCardinalUtxos => "wallet contains no cardinal utxos"@,
        InscribeError::SatAlreadyInscribed { satpoint } => "sat at "@ + satpoint_text(satpoint)
            + " already inscribed"@,
        InscribeError::OutpointAlreadyInscribed { outpoint, inscription, satpoint } => "utxo "@
            + outpoint_text(outpoint) + " already inscribed with inscription "@ + hash_text(
            inscription.txid@,
        ) + " on sat "@ + satpoint_text(satpoint),
        InscribeError::InsufficientCommitValue =>
            "commit transaction output value insufficient to pay transaction fee"@,
        InscribeError::RevealWouldBeDust => "commit transaction output would be dust"@,
        InscribeError::KeyFailure => "invalid secret key"@,
        InscribeError::RecoveryKeyImportFailed => "commit tx recovery key import failed"@,
    }
}

/// The one-character text of digit `d`.
pub fn digit_str(d: u8) -> (r: &'static str)
    requires
        d < 16,
    ensures
        r@ == seq![digit_chars()[d as int]],
{
    match d {
        0 => { proof { reveal_strlit("0"); } "0" },
        1 => { proof { reveal_strlit("1"); } "1" },
        2 => { proof { reveal_strlit("2"); } "2" },
        3 => { proof { reveal_strlit("3"); } "3" },
        4 => { proof { reveal_strlit("4"); } "4" },
        5 => { proof { reveal_strlit("5"); } "5" },
        6 => { proof { reveal_strlit("6"); } "6" },
        7 => { proof { reveal_strlit("7"); } "7" },
        8 => { proof { reveal_strlit("8"); } "8" },
        9 => { proof { reveal_strlit("9"); } "9" },
        10 => { proof { reveal_strlit("a"); } "a" },
        11 => { proof { reveal_strlit("b"); } "b" },
        12 => { proof { reveal_strlit("c"); } "c" },
        13 => { proof { reveal_strlit("d"); } "d" },
        14 => { proof { reveal_strlit("e"); } "e" },
        _ => { proof { reveal_strlit("f"); } "f" },
    }
}

/// Appends the decimal digits of `n`.
pub fn append_decimal(s: &mut String, n: u64)
    ensures
        final(s)@ == old(s)@ + decimal_text(n as nat),
    decreases n,
{
    if n >= 10 {
        append_decimal(s, n / 10);
    }
    s.append(digit_str((n % 10) as u8));
    assert(final(s)@ =~= old(s)@ + decimal_text(n as nat));
}

/// Appends a hash in hex, last byte first.
pub fn append_hash(s: &mut String, h: &[u8; 32])
    ensures
        final(s)@ == old(s)@ + hash_text(h@),
{
    let ghost start = old(s)@;
    let mut k: usize = 32;
    assert(h@.take(32) =~= h@);
    while k > 0
        invariant
            k <= 32,
            start + hash_text(h@) == s@ + hash_text(h@.take(k as int)),
        decreases k,
    {
        let b = h[k - 1];
        assert(h@.take(k as int).drop_last() =~= h@.take(k - 1));
        s.append(digit_str(b / 16));
        s.append(digit_str(b % 16));
        k = k - 1;
        assert(start + hash_text(h@) =~= s@ + hash_text(h@.take(k as int)));
    }
    assert(h@.take(0) =~= Seq::<u8>::empty());
    assert(s@ =~= start + hash_text(h@));
}

pub fn append_outpoint(s: &mut String, o: &OutPoint)
    ensures
        final(s)@ == old(s)@ + outpoint_text(*o),
{
    append_hash(s, &o.txid);
    proof { reveal_strlit(":"); }
    s.append(":");
    append_decimal(s, o.vout as u64);
    assert(final(s)@ =~= old(s)@ + outpoint_text(*o));
}

pub fn append_satpoint(s: &mut String, p: &SatPoint)
    ensures
        final(s)@ == old(s)@ + satpoint_text(*p),
{
    append_outpoint(s, &p.outpoint);
    proof { reveal_strlit(":"); }
    s.append(":");
    append_decimal(s, p.offset);
    assert(final(s)@ =~= old(s)@ + satpoint_text(*p));
}

impl InscribeError {
    /// A sentence that describes the error, naming the sats and outputs involved.
    pub fn message(&self) -> (r: String)
        ensures
            r@ == message_spec(*self),
    {
        match self {
            InscribeError::NoCardinalUtxos => String::from_str("wallet contains no cardinal utxos"),
            InscribeError::SatAlreadyInscribed { satpoint } => {
                let mut s = String::from_str("sat at ");
                append_satpoint(&mut s, satpoint);
                s.append(" already inscribed");
                s
            },
            InscribeError::OutpointAlreadyInscribed { outpoint, inscription, satpoint } => {
                let mut s = String::from_str("utxo ");
                append_outpoint(&mut s, outpoint);
                s.append(" already inscribed with inscription ");
                append_hash(&mut s, &inscription.txid);
                s.append(" on sat ");
                append_satpoint(&mut s, satpoint);
                s
            },
            InscribeError::InsufficientCommitValue => String::from_str(
                "commit transaction output value insufficient to pay transaction fee",
            ),
            InscribeError::RevealWouldBeDust => String::from_str(
                "commit transaction output would be dust",
            ),
            InscribeError::KeyFailure => String::from_str("invalid secret key"),
            InscribeError::RecoveryKeyImportFailed => String::from_str(
                "commit tx recovery key import failed",
            ),
        }
    }
}

} // verus!
