use vstd::prelude::*;
use crate::error::InscribeError;
use crate::model::{InscriptionId, OutPoint, OutPointView, SatPoint};

verus! {

/// Some entry of the index is a sat of `outpoint`.
pub open spec fn is_inscribed(inscriptions: Seq<(SatPoint, InscriptionId)>, outpoint: OutPointView) -> bool {
    exists|j: int| 0 <= j < inscriptions.len() && inscriptions[j].0@.outpoint == outpoint
}

/// `i` is the first wallet output, in the wallet's order, with no inscribed sat.
pub open spec fn is_first_cardinal(
    utxos: Seq<(OutPoint, u64)>,
    inscriptions: Seq<(SatPoint, InscriptionId)>,
    i: int,
) -> bool {
    &&& 0 <= i < utxos.len()
    &&& !is_inscribed(inscriptions, utxos[i].0@)
    &&& forall|k: int| 0 <= k < i ==> is_inscribed(inscriptions, utxos[k].0@)
}

/// `j` is the first index entry that shares the outpoint of `satpoint`.
pub open spec fn is_first_collision(
    inscriptions: Seq<(SatPoint, InscriptionId)>,
    satpoint: SatPoint,
    j: int,
) -> bool {
    &&& 0 <= j < inscriptions.len()
    &&& inscriptions[j].0@.outpoint == satpoint@.outpoint
    &&& forall|k: int| 0 <= k < j ==> inscriptions[k].0@.outpoint != satpoint@.outpoint
}

/// Whether some entry of the index is a sat of `outpoint`.
pub fn outpoint_inscribed(inscriptions: &Vec<(SatPoint, InscriptionId)>, outpoint: &OutPoint) -> (r: bool)
    ensures
        r == is_inscribed(inscriptions@, outpoint@),
{
    let mut j: usize = 0;
    while j < inscriptions.len()
        invariant
            j <= inscriptions@.len(),
            forall|k: int| 0 <= k < j ==> inscriptions@[k].0@.outpoint != outpoint@,
        decreases inscriptions@.len() - j,
    {
        if inscriptions[j].0.outpoint.same_as(outpoint) {
            return true;
        }
        j = j + 1;
    }
    false
}

/// The sat to inscribe: the one given, or else the first sat of the first
/// wallet output that holds no inscribed sat.
pub fn resolve_satpoint(
    satpoint: Option<SatPoint>,
    utxos: &Vec<(OutPoint, u64)>,
    inscriptions: &Vec<(SatPoint, InscriptionId)>,
) -> (r: Result<SatPoint, InscribeError>)
    ensures
        satpoint is Some ==> r == Ok::<SatPoint, InscribeError>(satpoint->Some_0),
        satpoint is None ==> (r is Ok <==> exists|i: int| 0 <= i < utxos@.len() && !is_inscribed(inscriptions@, utxos@[i].0@)),
        satpoint is None && r is Ok ==> exists|i: int|
            is_first_cardinal(utxos@, inscriptions@, i) && r->Ok_0 == (SatPoint { outpoint: utxos@[i].0, offset: 0 }),
        r is Err ==> r->Err_0 is NoCardinalUtxos,
{
    if let Some(s) = satpoint {
        return Ok(s);
    }
    let mut i: usize = 0;
    while i < utxos.len()
        invariant
            satpoint is None,
            i <= utxos@.len(),
            forall|k: int| 0 <= k < i ==> is_inscribed(inscriptions@, utxos@[k].0@),
        decreases utxos@.len() - i,
    {
        if !outpoint_inscribed(inscriptions, &utxos[i].0) {
            let s = SatPoint { outpoint: utxos[i].0, offset: 0 };
            assert(is_first_cardinal(utxos@, inscriptions@, i as int));
            return Ok(s);
        }
        i = i + 1;
    }
    Err(InscribeError::NoCardinalUtxos)
}

/// Refuses a sat that is inscribed, or that shares its output with an
/// inscribed sat; the first such index entry decides the error.
pub fn check_collisions(satpoint: &SatPoint, inscriptions: &Vec<(SatPoint, InscriptionId)>) -> (r: Result<(), InscribeError>)
    ensures
        r is Ok <==> !is_inscribed(inscriptions@, satpoint@.outpoint),
        r is Err ==> exists|j: int|
            is_first_collision(inscriptions@, *satpoint, j) && if inscriptions@[j].0@ == satpoint@ {
                r->Err_0 == (InscribeError::SatAlreadyInscribed { satpoint: *satpoint })
            } else {
                r->Err_0 == (InscribeError::OutpointAlreadyInscribed {
                    outpoint: satpoint.outpoint,
                    inscription: inscriptions@[j].1,
                    satpoint: inscriptions@[j].0,
                })
            },
{
    let mut j: usize = 0;
    while j < inscriptions.len()
        invariant
            j <= inscriptions@.len(),
            forall|k: int| 0 <= k < j ==> inscriptions@[k].0@.outpoint != satpoint@.outpoint,
        decreases inscriptions@.len() - j,
    {
        let (inscribed, id) = inscriptions[j];
        if inscribed.same_as(satpoint) {
            assert(is_first_collision(inscriptions@, *satpoint, j as int));
            return Err(InscribeError::SatAlreadyInscribed { satpoint: *satpoint });
        }
        if inscribed.outpoint.same_as(&satpoint.outpoint) {
            assert(is_first_collision(inscriptions@, *satpoint, j as int));
            return Err(InscribeError::OutpointAlreadyInscribed {
                outpoint: satpoint.outpoint,
                inscription: id,
                satpoint: inscribed,
            });
        }
        j = j + 1;
    }
    Ok(())
}

} // verus!
