//! The field of integers modulo `2^64 - 2^32 + 1` (field-cat's `BFieldElement`), as a [`PrimeField`].
//!
//! An element is held by its canonical value in `[0, BFIELD_MODULUS)`.  The
//! arithmetic and the proof-system primitives are field-cat's and
//! proof-cat-core's, called on `field_cat::BFieldElement` through trusted
//! wrappers.

use vstd::prelude::*;
use field_cat::Field;
use proof_cat_core::commit::merkle::{MerkleProof, MerkleRoot, MerkleTree};
use proof_cat_core::poly::MultilinearPoly;
use proof_cat_core::transcript::Transcript;
use proof_cat_core::Error as CoreError;
use crate::field::{PrimeField, add_mod, mul_mod, neg_mod};
use crate::pow2::{is_pow2, log2, next_pow2, pow2};
use crate::primitives::{
    RoundPoly, all_zero, all_zero_rounds, merkle_leaf_hash, merkle_path_root, merkle_proof_siblings,
    merkle_root_bytes, merkle_tree_leaf_count, merkle_commitment_root, merkle_tree_nodes, multilinear_value,
    sumcheck_prover_rounds, sumcheck_verdict, transcript_digest, transcript_state, usize_le_bytes,
    le_bytes, le_value,
};

verus! {

/// The modulus of the field: `2^64 - 2^32 + 1`.
pub const BFIELD_MODULUS: u64 = 0xFFFF_FFFF_0000_0001;

/// An element of the field of integers modulo `2^64 - 2^32 + 1`, held by its
/// canonical value in `[0, BFIELD_MODULUS)`.
#[derive(Debug, Clone, Copy, PartialEq, Eq, Hash, Structural)]
pub struct BFieldElement {
    value: u64,
}

impl View for BFieldElement {
    type V = nat;

    closed spec fn view(&self) -> nat {
        self.value as nat
    }
}

/// The bytes that field-cat serializes a `BFieldElement` value to: its
/// 8 little-endian bytes.
pub open spec fn bfield_encoding(v: nat) -> Seq<u8> {
    le_bytes(v % (BFIELD_MODULUS as nat), 8)
}

/// The value field-cat reads from bytes for `BFieldElement`: the first
/// 8 bytes, little-endian, reduced modulo the field's modulus.
pub open spec fn bfield_decoding(bytes: Seq<u8>) -> nat {
    le_value(bytes.subrange(0, 8)) % (BFIELD_MODULUS as nat)
}

/// The values of a sequence of elements.
pub open spec fn bfield_values(s: Seq<BFieldElement>) -> Seq<nat> {
    s.map_values(|x: BFieldElement| x@)
}

/// The byte encodings of a sequence of elements.
pub open spec fn bfield_encodings(s: Seq<BFieldElement>) -> Seq<Seq<u8>> {
    s.map_values(|x: BFieldElement| bfield_encoding(x@))
}

/// Round polynomials as pairs of values.
pub open spec fn bfield_rounds(s: Seq<RoundPoly<BFieldElement>>) -> Seq<(nat, nat)> {
    s.map_values(|rp: RoundPoly<BFieldElement>| (rp.eval_zero@, rp.eval_one@))
}

impl BFieldElement {
    #[verifier::type_invariant]
    spec fn canonical(self) -> bool {
        self.value < BFIELD_MODULUS
    }

    /// Create a field element, reducing `value` modulo the field's modulus, as
    /// field-cat's `BFieldElement::new` does.
    pub fn new(value: u64) -> (r: BFieldElement)
        ensures
            r@ == value % BFIELD_MODULUS,
    {
        BFieldElement { value: value % BFIELD_MODULUS }
    }

    /// The underlying value in `[0, BFIELD_MODULUS)`.
    pub fn value(self) -> (v: u64)
        ensures
            v == self@,
            v < BFIELD_MODULUS,
    {
        proof { use_type_invariant(&self); }
        self.value
    }
}

/// field-cat's `Field::zero` for `BFieldElement`.
#[verifier::external_body]
fn bfield_zero() -> (r: BFieldElement)
    ensures
        r@ == 0,
{
    BFieldElement { value: <field_cat::BFieldElement as Field>::zero().value() }
}

/// field-cat's `Add` for `BFieldElement`.
#[verifier::external_body]
fn bfield_add(a: BFieldElement, b: BFieldElement) -> (r: BFieldElement)
    ensures
        r@ == add_mod((BFIELD_MODULUS as nat), a@, b@),
{
    BFieldElement { value: (field_cat::BFieldElement::new(a.value) + field_cat::BFieldElement::new(b.value)).value() }
}

/// field-cat's `Mul` for `BFieldElement`.
#[verifier::external_body]
fn bfield_mul(a: BFieldElement, b: BFieldElement) -> (r: BFieldElement)
    ensures
        r@ == mul_mod((BFIELD_MODULUS as nat), a@, b@),
{
    BFieldElement { value: (field_cat::BFieldElement::new(a.value) * field_cat::BFieldElement::new(b.value)).value() }
}

/// field-cat's `Neg` for `BFieldElement`.
#[verifier::external_body]
fn bfield_neg(a: BFieldElement) -> (r: BFieldElement)
    ensures
        r@ == neg_mod((BFIELD_MODULUS as nat), a@),
{
    BFieldElement { value: (-field_cat::BFieldElement::new(a.value)).value() }
}

/// proof-cat-core's `MerkleTree::from_field_values` over `BFieldElement`: the
/// tree has `next_pow2(n)` leaf slots (stored at `nodes[m..2m)` for
/// `m = next_pow2(n)`), the first `n` holding the hashes of the values
/// with their indices.
#[verifier::external_body]
fn bfield_merkle_commit(values: &[BFieldElement]) -> (tree: MerkleTree)
    requires
        2 * next_pow2(values@.len()) <= usize::MAX,
    ensures
        merkle_tree_leaf_count(tree) == values@.len(),
        merkle_tree_nodes(tree).len() == 2 * next_pow2(values@.len()),
        forall|i: int| 0 <= i < values@.len() ==>
            #[trigger] merkle_tree_nodes(tree)[next_pow2(values@.len()) + i]
                == merkle_leaf_hash(usize_le_bytes(i as nat), bfield_encoding(values@[i]@)),
        merkle_tree_nodes(tree)[1] == merkle_commitment_root(bfield_encodings(values@)),
{
    let converted: Vec<field_cat::BFieldElement> = values.iter().map(|v| field_cat::BFieldElement::new(v.value)).collect();
    MerkleTree::from_field_values(&converted)
}

/// proof-cat-core's `MerkleTree::verify_opening` over `BFieldElement`: whether
/// the root recomputed from the hash of `value` at `index` and the
/// opening's siblings is `root`.  (It computes `2^siblings + index`,
/// which must fit in a `usize`.)
#[verifier::external_body]
fn bfield_merkle_verify(root: &MerkleRoot, index: usize, value: BFieldElement, proof: &MerkleProof) -> (ok: bool)
    requires
        pow2(merkle_proof_siblings(*proof).len()) + index <= usize::MAX,
    ensures
        ok == (merkle_path_root(
            merkle_leaf_hash(usize_le_bytes(index as nat), bfield_encoding(value@)),
            index as nat,
            merkle_proof_siblings(*proof),
        ) == merkle_root_bytes(*root)),
{
    MerkleTree::verify_opening(root, index, &field_cat::BFieldElement::new(value.value), proof)
}

/// proof-cat-core's `Transcript::squeeze_challenge` for `BFieldElement`: the
/// challenge is read from the first 8 bytes of the SHA-256 digest of the state,
/// reduced modulo the field's modulus, and the digest is appended to the state.  It
/// never fails: the 32-byte digest holds more than 8 bytes.
#[verifier::external_body]
fn bfield_squeeze(t: Transcript) -> (r: Result<(BFieldElement, Transcript), CoreError>)
    ensures
        r is Ok,
        r is Ok ==> r->Ok_0.0@ == bfield_decoding(transcript_digest(transcript_state(t))),
        r is Ok ==> transcript_state(r->Ok_0.1) == transcript_state(t) + transcript_digest(transcript_state(t)),
{
    t.squeeze_challenge::<field_cat::BFieldElement>().map(|(c, t2)| (BFieldElement { value: c.value() }, t2))
}

/// proof-cat-core's `MultilinearPoly::from_evals` followed by
/// `MultilinearPoly::evaluate` over `BFieldElement` (the polynomial type cannot
/// stand in verified code: its field parameter is bound by a trait of
/// field-cat).  Succeeds exactly when the table's length is a power of
/// two and the point has one coordinate per variable; the extension of
/// an all-zero table is zero everywhere.
#[verifier::external_body]
fn bfield_multilinear_evaluate(evals: Vec<BFieldElement>, point: &[BFieldElement]) -> (r: Result<BFieldElement, CoreError>)
    ensures
        (r is Ok) <==> (is_pow2(evals@.len()) && point@.len() == log2(evals@.len())),
        r is Ok ==> r->Ok_0@ == multilinear_value((BFIELD_MODULUS as nat), bfield_values(evals@), bfield_values(point@)),
        r is Ok && all_zero(bfield_values(evals@)) ==> r->Ok_0@ == 0,
{
    let table: Vec<field_cat::BFieldElement> = evals.iter().map(|v| field_cat::BFieldElement::new(v.value)).collect();
    let converted: Vec<field_cat::BFieldElement> = point.iter().map(|v| field_cat::BFieldElement::new(v.value)).collect();
    MultilinearPoly::from_evals(table)
        .and_then(|p| p.evaluate(&converted))
        .map(|v| BFieldElement { value: v.value() })
}

/// proof-cat-core's `MultilinearPoly::from_evals` and `sumcheck_prove`
/// over `BFieldElement`, on the claim that the table sums to `claimed`.  Fails
/// exactly when the table's length is not a power of two (proving
/// itself never fails); one round per variable; an all-zero table
/// gives all-zero rounds.
#[verifier::external_body]
fn bfield_sumcheck_prove(evals: Vec<BFieldElement>, claimed: BFieldElement, t: Transcript) -> (r: Result<Vec<RoundPoly<BFieldElement>>, CoreError>)
    ensures
        (r is Ok) <==> is_pow2(evals@.len()),
        r is Ok ==> bfield_rounds(r->Ok_0@) == sumcheck_prover_rounds((BFIELD_MODULUS as nat), bfield_values(evals@), transcript_state(t)),
        r is Ok ==> r->Ok_0@.len() == log2(evals@.len()),
        r is Ok && all_zero(bfield_values(evals@)) ==> all_zero_rounds(bfield_rounds(r->Ok_0@)),
{
    let table: Vec<field_cat::BFieldElement> = evals.iter().map(|v| field_cat::BFieldElement::new(v.value)).collect();
    MultilinearPoly::from_evals(table).and_then(|p| {
        let claim = proof_cat_core::SumcheckClaim::new(p, field_cat::BFieldElement::new(claimed.value));
        proof_cat_core::sumcheck_prove(&claim, t)
    }).map(|(proof, _challenges, _t)| proof.round_polys().iter().map(|rp| RoundPoly {
        eval_zero: BFieldElement { value: rp.eval_zero().value() },
        eval_one: BFieldElement { value: rp.eval_one().value() },
    }).collect())
}

/// proof-cat-core's `sumcheck_verify` over `BFieldElement`, on the proof with
/// the given round polynomials: succeeds exactly when the verdict is
/// an acceptance, returning the final claim and one challenge per
/// round.  It rejects a proof with the wrong number of rounds;
/// all-zero rounds of the right number are accepted for the claim
/// zero, with final claim zero.
#[verifier::external_body]
fn bfield_sumcheck_verify(rounds: &[RoundPoly<BFieldElement>], claimed: BFieldElement, num_vars: usize, t: Transcript)
    -> (r: Result<(BFieldElement, Vec<BFieldElement>), CoreError>)
    ensures
        (r is Ok) <==> sumcheck_verdict((BFIELD_MODULUS as nat), bfield_rounds(rounds@), claimed@, num_vars as nat, transcript_state(t)) is Some,
        r is Ok ==> sumcheck_verdict((BFIELD_MODULUS as nat), bfield_rounds(rounds@), claimed@, num_vars as nat, transcript_state(t))
            == Some((r->Ok_0.0@, bfield_values(r->Ok_0.1@))),
        r is Ok ==> r->Ok_0.1@.len() == num_vars,
        rounds@.len() != num_vars ==> r is Err,
        rounds@.len() == num_vars && all_zero_rounds(bfield_rounds(rounds@)) && claimed@ == 0
            ==> r is Ok && r->Ok_0.0@ == 0,
{
    let proof = proof_cat_core::SumcheckProof::new(rounds.iter().map(|rp| proof_cat_core::sumcheck::RoundPoly::new(
        field_cat::BFieldElement::new(rp.eval_zero.value),
        field_cat::BFieldElement::new(rp.eval_one.value),
    )).collect());
    proof_cat_core::sumcheck_verify(&proof, &field_cat::BFieldElement::new(claimed.value), proof_cat_core::NumVars::new(num_vars), t)
        .map(|(f, ch, _t)| (BFieldElement { value: f.value() }, ch.iter().map(|c| BFieldElement { value: c.value() }).collect()))
}

impl PrimeField for BFieldElement {
    open spec fn modulus() -> nat {
        BFIELD_MODULUS as nat
    }

    open spec fn val(self) -> nat {
        self@
    }

    open spec fn encoding(v: nat) -> Seq<u8> {
        bfield_encoding(v)
    }

    open spec fn decoding(digest: Seq<u8>) -> nat {
        bfield_decoding(digest)
    }

    proof fn lemma_modulus() {
    }

    proof fn lemma_val_injective(a: BFieldElement, b: BFieldElement) {
    }

    fn zero() -> (r: BFieldElement) {
        bfield_zero()
    }

    fn plus(self, rhs: BFieldElement) -> (r: BFieldElement) {
        bfield_add(self, rhs)
    }

    fn times(self, rhs: BFieldElement) -> (r: BFieldElement) {
        bfield_mul(self, rhs)
    }

    fn negated(self) -> (r: BFieldElement) {
        bfield_neg(self)
    }

    fn is_zero(self) -> (b: bool) {
        self.value == 0
    }

    fn equals(self, rhs: BFieldElement) -> (b: bool) {
        self.value == rhs.value
    }

    fn merkle_commit(values: &[BFieldElement]) -> (tree: MerkleTree) {
        proof {
            assert(values@.map_values(|x: BFieldElement| BFieldElement::encoding(x.val())) =~= bfield_encodings(values@));
        }
        bfield_merkle_commit(values)
    }

    fn merkle_verify(root: &MerkleRoot, index: usize, value: BFieldElement, proof: &MerkleProof) -> (ok: bool) {
        bfield_merkle_verify(root, index, value, proof)
    }

    fn squeeze(t: Transcript) -> (r: Result<(BFieldElement, Transcript), CoreError>) {
        bfield_squeeze(t)
    }

    fn multilinear_evaluate(evals: Vec<BFieldElement>, point: &[BFieldElement]) -> (r: Result<BFieldElement, CoreError>) {
        proof {
            assert(evals@.map_values(|x: BFieldElement| x.val()) =~= bfield_values(evals@));
            assert(point@.map_values(|x: BFieldElement| x.val()) =~= bfield_values(point@));
        }
        bfield_multilinear_evaluate(evals, point)
    }

    fn sumcheck_prove(evals: Vec<BFieldElement>, claimed: BFieldElement, t: Transcript) -> (r: Result<Vec<RoundPoly<BFieldElement>>, CoreError>) {
        proof { assert(evals@.map_values(|x: BFieldElement| x.val()) =~= bfield_values(evals@)); }
        let r = bfield_sumcheck_prove(evals, claimed, t);
        proof {
            if r is Ok {
                assert(r->Ok_0@.map_values(|rp: RoundPoly<BFieldElement>| (rp.eval_zero.val(), rp.eval_one.val()))
                    =~= bfield_rounds(r->Ok_0@));
            }
        }
        r
    }

    fn sumcheck_verify(rounds: &[RoundPoly<BFieldElement>], claimed: BFieldElement, num_vars: usize, t: Transcript)
        -> (r: Result<(BFieldElement, Vec<BFieldElement>), CoreError>)
    {
        proof {
            assert(rounds@.map_values(|rp: RoundPoly<BFieldElement>| (rp.eval_zero.val(), rp.eval_one.val()))
                =~= bfield_rounds(rounds@));
        }
        let r = bfield_sumcheck_verify(rounds, claimed, num_vars, t);
        proof {
            if r is Ok {
                assert(r->Ok_0.1@.map_values(|x: BFieldElement| x.val()) =~= bfield_values(r->Ok_0.1@));
            }
        }
        r
    }
}

} // verus!
