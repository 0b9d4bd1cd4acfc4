//! The provenance attestation statement: an authorized issuer (a leaf of
//! the issuer tree) made the attestation commitment for a subject.

use vstd::prelude::*;

use crate::error::HushError;
use crate::m31::{freduce, m31_from_u32};
use crate::merkle::{hashout_eq, spec_words_path_root, verify_words_path};
use crate::poseidon2::{
    attestation_commitment, derive_issuer_id, spec_sponge, spec_to_hashout, u32_array_to_hashout,
    DOMAIN_CRED_CM, DOMAIN_ISSUER_ID,
};
use crate::types::MERKLE_DEPTH;

verus! {

#[derive(Clone, Copy, Debug)]
pub struct AttestationWitness {
    pub issuer_root: [u32; 4],
    pub attestation_commitment: [u32; 4],
    pub issuer_key: u32,
    /// The subject's owner hash.
    pub subject: [u32; 4],
    pub expiry: u32,
    pub secret: u32,
    pub issuer_path: [([u32; 4], u32); MERKLE_DEPTH],
}

/// The public data an attestation proof is bound to.
#[derive(Clone, Copy, Debug, PartialEq, Eq)]
pub struct IssuancePublicData {
    pub issuer_root: [u32; 4],
    pub attestation_commitment: [u32; 4],
}

/// The identity of the witness's issuer key.
pub open spec fn spec_issuer_id(w: AttestationWitness) -> Seq<u32> {
    spec_sponge(seq![freduce(w.issuer_key as int), 0], DOMAIN_ISSUER_ID)
}

/// The attestation statement: the public data, or the first part the
/// witness breaks: the commitment is the issuer's over the subject, expiry
/// and secret; the issuer is a leaf of the issuer tree.
pub open spec fn spec_attestation_statement(w: AttestationWitness) -> Result<
    IssuancePublicData,
    HushError,
> {
    if spec_sponge(
        spec_issuer_id(w) + spec_to_hashout(w.subject@) + seq![
            freduce(w.expiry as int),
            freduce(w.secret as int),
        ],
        DOMAIN_CRED_CM,
    ) != spec_to_hashout(w.attestation_commitment@) {
        Err(HushError::AttestationCommitmentMismatch)
    } else if spec_words_path_root(spec_issuer_id(w), w.issuer_path@) != spec_to_hashout(
        w.issuer_root@,
    ) {
        Err(HushError::IssuerNotAuthorized)
    } else {
        Ok(
            IssuancePublicData {
                issuer_root: w.issuer_root,
                attestation_commitment: w.attestation_commitment,
            },
        )
    }
}

/// Checks the attestation statement on a witness and gives the public data
/// the proof will be bound to.
pub fn validate_witness(witness: &AttestationWitness) -> (r: Result<IssuancePublicData, HushError>)
    ensures
        r == spec_attestation_statement(*witness),
{
    let issuer_id = derive_issuer_id(m31_from_u32(witness.issuer_key));
    let computed = attestation_commitment(
        issuer_id,
        u32_array_to_hashout(witness.subject),
        m31_from_u32(witness.expiry),
        m31_from_u32(witness.secret),
    );
    let expected = u32_array_to_hashout(witness.attestation_commitment);
    if !hashout_eq(&computed, &expected) {
        return Err(HushError::AttestationCommitmentMismatch);
    }
    if !verify_words_path(issuer_id, &witness.issuer_path, witness.issuer_root) {
        return Err(HushError::IssuerNotAuthorized);
    }
    Ok(
        IssuancePublicData {
            issuer_root: witness.issuer_root,
            attestation_commitment: witness.attestation_commitment,
        },
    )
}

} // verus!
