//! The BabyBear field of integers modulo `2^31 - 1` (field-cat's `BabyBear`), as a [`PrimeField`].
//!
//! An element is held by its canonical value in `[0, BABY_BEAR_MODULUS)`.  The
//! arithmetic and the proof-system primitives are field-cat's and
//! proof-cat-core's, called on `field_cat::BabyBear` through trusted
//! wrappers.

use vstd::prelude::*;
use field_cat::Field;
use proof_cat_core::commit::merkle::{MerkleProof, MerkleRoot, MerkleTree};
use proof_cat_core::poly::MultilinearPoly;
use proof_cat_core::transcript::Transcript;
use proof_cat_core::Error as CoreError;
use crate::field::{PrimeField, add_mod, mul_mod, neg_mod};
use crate::pow2::{is_pow2, log2, next_pow2, pow2};
use crate::primitives::{
    RoundPoly, all_zero, all_zero_rounds, merkle_leaf_hash, merkle_path_root, merkle_proof_siblings,
    merkle_root_bytes, merkle_tree_leaf_count, merkle_commitment_root, merkle_tree_nodes, multilinear_value,
    sumcheck_prover_rounds, sumcheck_verdict, transcript_digest, transcript_state, usize_le_bytes,
    le_bytes, le_value,
};

verus! {

/// The modulus of the field: `2^31 - 1`.
pub const BABY_BEAR_MODULUS: u64 = 2_147_483_647;

/// An element of the field of integers modulo `2^31 - 1`, held by its
/// canonical value in `[0, BABY_BEAR_MODULUS)`.
#[derive(Debug, Clone, Copy, PartialEq, Eq, Hash, Structural)]
pub struct BabyBear {
    value: u64,
}

impl View for BabyBear {
    type V = nat;

    closed spec fn view(&self) -> nat {
        self.value as nat
    }
}

/// The bytes that field-cat serializes a `BabyBear` value to: its
/// 4 little-endian bytes.
pub open spec fn baby_bear_encoding(v: nat) -> Seq<u8> {
    le_bytes(v % (BABY_BEAR_MODULUS as nat), 4)
}

/// The value field-cat reads from bytes for `BabyBear`: the first
/// 4 bytes, little-endian, reduced modulo the field's modulus.
pub open spec fn baby_bear_decoding(bytes: Seq<u8>) -> nat {
    le_value(bytes.subrange(0, 4)) % (BABY_BEAR_MODULUS as nat)
}

/// The values of a sequence of elements.
pub open spec fn baby_bear_values(s: Seq<BabyBear>) -> Seq<nat> {
    s.map_values(|x: BabyBear| x@)
}

/// The byte encodings of a sequence of elements.
pub open spec fn baby_bear_encodings(s: Seq<BabyBear>) -> Seq<Seq<u8>> {
    s.map_values(|x: BabyBear| baby_bear_encoding(x@))
}

/// Round polynomials as pairs of values.
pub open spec fn baby_bear_rounds(s: Seq<RoundPoly<BabyBear>>) -> Seq<(nat, nat)> {
    s.map_values(|rp: RoundPoly<BabyBear>| (rp.eval_zero@, rp.eval_one@))
}

impl BabyBear {
    #[verifier::type_invariant]
    spec fn canonical(self) -> bool {
        self.value < BABY_BEAR_MODULUS
    }

    /// Create a field element, reducing `value` modulo the field's modulus, as
    /// field-cat's `BabyBear::new` does.
    pub fn new(value: u64) -> (r: BabyBear)
        ensures
            r@ == value % BABY_BEAR_MODULUS,
    {
        BabyBear { value: value % BABY_BEAR_MODULUS }
    }

    /// The underlying value in `[0, BABY_BEAR_MODULUS)`.
    pub fn value(self) -> (v: u64)
        ensures
            v == self@,
            v < BABY_BEAR_MODULUS,
    {
        proof { use_type_invariant(&self); }
        self.value
    }
}

/// field-cat's `Field::zero` for `BabyBear`.
#[verifier::external_body]
fn baby_bear_zero() -> (r: BabyBear)
    ensures
        r@ == 0,
{
    BabyBear { value: <field_cat::BabyBear as Field>::zero().value() }
}

/// field-cat's `Add` for `BabyBear`.
#[verifier::external_body]
fn baby_bear_add(a: BabyBear, b: BabyBear) -> (r: BabyBear)
    ensures
        r@ == add_mod((BABY_BEAR_MODULUS as nat), a@, b@),
{
    BabyBear { value: (field_cat::BabyBear::new(a.value) + field_cat::BabyBear::new(b.value)).value() }
}

/// field-cat's `Mul` for `BabyBear`.
#[verifier::external_body]
fn baby_bear_mul(a: BabyBear, b: BabyBear) -> (r: BabyBear)
    ensures
        r@ == mul_mod((BABY_BEAR_MODULUS as nat), a@, b@),
{
    BabyBear { value: (field_cat::BabyBear::new(a.value) * field_cat::BabyBear::new(b.value)).value() }
}

/// field-cat's `Neg` for `BabyBear`.
#[verifier::external_body]
fn baby_bear_neg(a: BabyBear) -> (r: BabyBear)
    ensures
        r@ == neg_mod((BABY_BEAR_MODULUS as nat), a@),
{
    BabyBear { value: (-field_cat::BabyBear::new(a.value)).value() }
}

/// proof-cat-core's `MerkleTree::from_field_values` over `BabyBear`: the
/// tree has `next_pow2(n)` leaf slots (stored at `nodes[m..2m)` for
/// `m = next_pow2(n)`), the first `n` holding the hashes of the values
/// with their indices.
#[verifier::external_body]
fn baby_bear_merkle_commit(values: &[BabyBear]) -> (tree: MerkleTree)
    requires
        2 * next_pow2(values@.len()) <= usize::MAX,
    ensures
        merkle_tree_leaf_count(tree) == values@.len(),
        merkle_tree_nodes(tree).len() == 2 * next_pow2(values@.len()),
        forall|i: int| 0 <= i < values@.len() ==>
            #[trigger] merkle_tree_nodes(tree)[next_pow2(values@.len()) + i]
                == merkle_leaf_hash(usize_le_bytes(i as nat), baby_bear_encoding(values@[i]@)),
        merkle_tree_nodes(tree)[1] == merkle_commitment_root(baby_bear_encodings(values@)),
{
    let converted: Vec<field_cat::BabyBear> = values.iter().map(|v| field_cat::BabyBear::new(v.value)).collect();
    MerkleTree::from_field_values(&converted)
}

/// proof-cat-core's `MerkleTree::verify_opening` over `BabyBear`: whether
/// the root recomputed from the hash of `value` at `index` and the
/// opening's siblings is `root`.  (It computes `2^siblings + index`,
/// which must fit in a `usize`.)
#[verifier::external_body]
fn baby_bear_merkle_verify(root: &MerkleRoot, index: usize, value: BabyBear, proof: &MerkleProof) -> (ok: bool)
    requires
        pow2(merkle_proof_siblings(*proof).len()) + index <= usize::MAX,
    ensures
        ok == (merkle_path_root(
            merkle_leaf_hash(usize_le_bytes(index as nat), baby_bear_encoding(value@)),
            index as nat,
            merkle_proof_siblings(*proof),
        ) == merkle_root_bytes(*root)),
{
    MerkleTree::verify_opening(root, index, &field_cat::BabyBear::new(value.value), proof)
}

/// proof-cat-core's `Transcript::squeeze_challenge` for `BabyBear`: the
/// challenge is read from the first 4 bytes of the SHA-256 digest of the state,
/// reduced modulo the field's modulus, and the digest is appended to the state.  It
/// never fails: the 32-byte digest holds more than 4 bytes.
#[verifier::external_body]
fn baby_bear_squeeze(t: Transcript) -> (r: Result<(BabyBear, Transcript), CoreError>)
    ensures
        r is Ok,
        r is Ok ==> r->Ok_0.0@ == baby_bear_decoding(transcript_digest(transcript_state(t))),
        r is Ok ==> transcript_state(r->Ok_0.1) == transcript_state(t) + transcript_digest(transcript_state(t)),
{
    t.squeeze_challenge::<field_cat::BabyBear>().map(|(c, t2)| (BabyBear { value: c.value() }, t2))
}

/// proof-cat-core's `MultilinearPoly::from_evals` followed by
/// `MultilinearPoly::evaluate` over `BabyBear` (the polynomial type cannot
/// stand in verified code: its field parameter is bound by a trait of
/// field-cat).  Succeeds exactly when the table's length is a power of
/// two and the point has one coordinate per variable; the extension of
/// an all-zero table is zero everywhere.
#[verifier::external_body]
fn baby_bear_multilinear_evaluate(evals: Vec<BabyBear>, point: &[BabyBear]) -> (r: Result<BabyBear, CoreError>)
    ensures
        (r is Ok) <==> (is_pow2(evals@.len()) && point@.len() == log2(evals@.len())),
        r is Ok ==> r->Ok_0@ == multilinear_value((BABY_BEAR_MODULUS as nat), baby_bear_values(evals@), baby_bear_values(point@)),
        r is Ok && all_zero(baby_bear_values(evals@)) ==> r->Ok_0@ == 0,
{
    let table: Vec<field_cat::BabyBear> = evals.iter().map(|v| field_cat::BabyBear::new(v.value)).collect();
    let converted: Vec<field_cat::BabyBear> = point.iter().map(|v| field_cat::BabyBear::new(v.value)).collect();
    MultilinearPoly::from_evals(table)
        .and_then(|p| p.evaluate(&converted))
        .map(|v| BabyBear { value: v.value() })
}

/// proof-cat-core's `MultilinearPoly::from_evals` and `sumcheck_prove`
/// over `BabyBear`, on the claim that the table sums to `claimed`.  Fails
/// exactly when the table's length is not a power of two (proving
/// itself never fails); one round per variable; an all-zero table
/// gives all-zero rounds.
#[verifier::external_body]
fn baby_bear_sumcheck_prove(evals: Vec<BabyBear>, claimed: BabyBear, t: Transcript) -> (r: Result<Vec<RoundPoly<BabyBear>>, CoreError>)
    ensures
        (r is Ok) <==> is_pow2(evals@.len()),
        r is Ok ==> baby_bear_rounds(r->Ok_0@) == sumcheck_prover_rounds((BABY_BEAR_MODULUS as nat), baby_bear_values(evals@), transcript_state(t)),
        r is Ok ==> r->Ok_0@.len() == log2(evals@.len()),
        r is Ok && all_zero(baby_bear_values(evals@)) ==> all_zero_rounds(baby_bear_rounds(r->Ok_0@)),
{
    let table: Vec<field_cat::BabyBear> = evals.iter().map(|v| field_cat::BabyBear::new(v.value)).collect();
    MultilinearPoly::from_evals(table).and_then(|p| {
        let claim = proof_cat_core::SumcheckClaim::new(p, field_cat::BabyBear::new(claimed.value));
        proof_cat_core::sumcheck_prove(&claim, t)
    }).map(|(proof, _challenges, _t)| proof.round_polys().iter().map(|rp| RoundPoly {
        eval_zero: BabyBear { value: rp.eval_zero().value() },
        eval_one: BabyBear { value: rp.eval_one().value() },
    }).collect())
}

/// proof-cat-core's `sumcheck_verify` over `BabyBear`, on the proof with
/// the given round polynomials: succeeds exactly when the verdict is
/// an acceptance, returning the final claim and one challenge per
/// round.  It rejects a proof with the wrong number of rounds;
/// all-zero rounds of the right number are accepted for the claim
/// zero, with final claim zero.
#[verifier::external_body]
fn baby_bear_sumcheck_verify(rounds: &[RoundPoly<BabyBear>], claimed: BabyBear, num_vars: usize, t: Transcript)
    -> (r: Result<(BabyBear, Vec<BabyBear>), CoreError>)
    ensures
        (r is Ok) <==> sumcheck_verdict((BABY_BEAR_MODULUS as nat), baby_bear_rounds(rounds@), claimed@, num_vars as nat, transcript_state(t)) is Some,
        r is Ok ==> sumcheck_verdict((BABY_BEAR_MODULUS as nat), baby_bear_rounds(rounds@), claimed@, num_vars as nat, transcript_state(t))
            == Some((r->Ok_0.0@, baby_bear_values(r->Ok_0.1@))),
        r is Ok ==> r->Ok_0.1@.len() == num_vars,
        rounds@.len() != num_vars ==> r is Err,
        rounds@.len() == num_vars && all_zero_rounds(baby_bear_rounds(rounds@)) && claimed@ == 0
            ==> r is Ok && r->Ok_0.0@ == 0,
{
    let proof = proof_cat_core::SumcheckProof::new(rounds.iter().map(|rp| proof_cat_core::sumcheck::RoundPoly::new(
        field_cat::BabyBear::new(rp.eval_zero.value),
        field_cat::BabyBear::new(rp.eval_one.value),
    )).collect());
    proof_cat_core::sumcheck_verify(&proof, &field_cat::BabyBear::new(claimed.value), proof_cat_core::NumVars::new(num_vars), t)
        .map(|(f, ch, _t)| (BabyBear { value: f.value() }, ch.iter().map(|c| BabyBear { value: c.value() }).collect()))
}

impl PrimeField for BabyBear {
    open spec fn modulus() -> nat {
        BABY_BEAR_MODULUS as nat
    }

    open spec fn val(self) -> nat {
        self@
    }

    open spec fn encoding(v: nat) -> Seq<u8> {
        baby_bear_encoding(v)
    }

    open spec fn decoding(digest: Seq<u8>) -> nat {
        baby_bear_decoding(digest)
    }

    proof fn lemma_modulus() {
    }

    proof fn lemma_val_injective(a: BabyBear, b: BabyBear) {
    }

    fn zero() -> (r: BabyBear) {
        baby_bear_zero()
    }

    fn plus(self, rhs: BabyBear) -> (r: BabyBear) {
        baby_bear_add(self, rhs)
    }

    fn times(self, rhs: BabyBear) -> (r: BabyBear) {
        baby_bear_mul(self, rhs)
    }

    fn negated(self) -> (r: BabyBear) {
        baby_bear_neg(self)
    }

    fn is_zero(self) -> (b: bool) {
        self.value == 0
    }

    fn equals(self, rhs: BabyBear) -> (b: bool) {
        self.value == rhs.value
    }

    fn merkle_commit(values: &[BabyBear]) -> (tree: MerkleTree) {
        proof {
            assert(values@.map_values(|x: BabyBear| BabyBear::encoding(x.val())) =~= baby_bear_encodings(values@));
        }
        baby_bear_merkle_commit(values)
    }

    fn merkle_verify(root: &MerkleRoot, index: usize, value: BabyBear, proof: &MerkleProof) -> (ok: bool) {
        baby_bear_merkle_verify(root, index, value, proof)
    }

    fn squeeze(t: Transcript) -> (r: Result<(BabyBear, Transcript), CoreError>) {
        baby_bear_squeeze(t)
    }

    fn multilinear_evaluate(evals: Vec<BabyBear>, point: &[BabyBear]) -> (r: Result<BabyBear, CoreError>) {
        proof {
            assert(evals@.map_values(|x: BabyBear| x.val()) =~= baby_bear_values(evals@));
            assert(point@.map_values(|x: BabyBear| x.val()) =~= baby_bear_values(point@));
        }
        baby_bear_multilinear_evaluate(evals, point)
    }

    fn sumcheck_prove(evals: Vec<BabyBear>, claimed: BabyBear, t: Transcript) -> (r: Result<Vec<RoundPoly<BabyBear>>, CoreError>) {
        proof { assert(evals@.map_values(|x: BabyBear| x.val()) =~= baby_bear_values(evals@)); }
        let r = baby_bear_sumcheck_prove(evals, claimed, t);
        proof {
            if r is Ok {
                assert(r->Ok_0@.map_values(|rp: RoundPoly<BabyBear>| (rp.eval_zero.val(), rp.eval_one.val()))
                    =~= baby_bear_rounds(r->Ok_0@));
            }
        }
        r
    }

    fn sumcheck_verify(rounds: &[RoundPoly<BabyBear>], claimed: BabyBear, num_vars: usize, t: Transcript)
        -> (r: Result<(BabyBear, Vec<BabyBear>), CoreError>)
    {
        proof {
            assert(rounds@.map_values(|rp: RoundPoly<BabyBear>| (rp.eval_zero.val(), rp.eval_one.val()))
                =~= baby_bear_rounds(rounds@));
        }
        let r = baby_bear_sumcheck_verify(rounds, claimed, num_vars, t);
        proof {
            if r is Ok {
                assert(r->Ok_0.1@.map_values(|x: BabyBear| x.val()) =~= baby_bear_values(r->Ok_0.1@));
            }
        }
        r
    }
}

} // verus!
