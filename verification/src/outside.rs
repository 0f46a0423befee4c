//! Declarations of the types of field-cat, plonkish-cat, proof-cat and
//! proof-cat-core that pass through this crate's verified code.

use vstd::prelude::*;
use proof_cat::Error as ProofCatError;
use proof_cat_core::Error as ProofCatCoreError;
use plonkish_cat::Error as PlonkishError;
use field_cat::Error as FieldCatError;

verus! {

/// The error type of proof-cat.
#[verifier::external_type_specification]
#[verifier::external_body]
pub struct ExProofCatError(ProofCatError);

/// The error type of proof-cat-core (transcript, sumcheck, Merkle tree, multilinear polynomial).
#[verifier::external_type_specification]
#[verifier::external_body]
pub struct ExProofCatCoreError(ProofCatCoreError);

/// The error type of plonkish-cat.
#[verifier::external_type_specification]
#[verifier::external_body]
pub struct ExPlonkishError(PlonkishError);

/// The error type of field-cat.
#[verifier::external_type_specification]
#[verifier::external_body]
pub struct ExFieldCatError(FieldCatError);

} // verus!
