//! The field of integers modulo 101 (field-cat's `F101`), as a
//! [`PrimeField`].
//!
//! An element is held by its canonical value in `[0, 101)`.  The
//! arithmetic and the proof-system primitives are field-cat's and
//! proof-cat-core's, called on `field_cat::F101` through trusted
//! wrappers.

use vstd::prelude::*;
use field_cat::Field;
use proof_cat_core::commit::merkle::{MerkleProof, MerkleRoot, MerkleTree};
use proof_cat_core::poly::MultilinearPoly;
use proof_cat_core::transcript::Transcript;
use proof_cat_core::Error as CoreError;
use crate::field::{PrimeField, add_mod, mul_mod, neg_mod};
use crate::pow2::{is_pow2, log2, next_pow2, pow2};
use crate::primitives::{
    RoundPoly, all_zero, all_zero_rounds, merkle_leaf_hash, merkle_path_root, merkle_proof_siblings,
    merkle_root_bytes, merkle_tree_leaf_count, merkle_commitment_root, merkle_tree_nodes, multilinear_value,
    sumcheck_prover_rounds, sumcheck_verdict, transcript_digest, transcript_state, usize_le_bytes,
};

verus! {

/// An element of the field of integers modulo 101, held by its
/// canonical value in `[0, 101)`.
#[derive(Debug, Clone, Copy, PartialEq, Eq, Hash, Structural)]
pub struct F101 {
    value: u64,
}

impl View for F101 {
    type V = nat;

    closed spec fn view(&self) -> nat {
        self.value as nat
    }
}

/// The byte that field-cat serializes an `F101` value to.
pub open spec fn f101_encoding(v: nat) -> Seq<u8> {
    seq![(v % 101) as u8]
}

/// The value field-cat reads from bytes for `F101`: the first byte,
/// reduced modulo 101.
pub open spec fn f101_decoding(bytes: Seq<u8>) -> nat {
    (bytes[0] as nat) % 101
}

/// The values of a sequence of elements.
pub open spec fn f101_values(s: Seq<F101>) -> Seq<nat> {
    s.map_values(|x: F101| x@)
}

/// The byte encodings of a sequence of elements.
pub open spec fn f101_encodings(s: Seq<F101>) -> Seq<Seq<u8>> {
    s.map_values(|x: F101| f101_encoding(x@))
}

/// Round polynomials as pairs of values.
pub open spec fn f101_rounds(s: Seq<RoundPoly<F101>>) -> Seq<(nat, nat)> {
    s.map_values(|rp: RoundPoly<F101>| (rp.eval_zero@, rp.eval_one@))
}

impl F101 {
    #[verifier::type_invariant]
    spec fn canonical(self) -> bool {
        self.value < 101
    }

    /// Create a field element, reducing `value` modulo 101, as
    /// field-cat's `F101::new` does.
    pub fn new(value: u64) -> (r: F101)
        ensures
            r@ == value % 101,
    {
        F101 { value: value % 101 }
    }

    /// The underlying value in `[0, 101)`.
    pub fn value(self) -> (v: u64)
        ensures
            v == self@,
            v < 101,
    {
        proof { use_type_invariant(&self); }
        self.value
    }
}

/// field-cat's `Field::zero` for `F101`.
#[verifier::external_body]
fn f101_zero() -> (r: F101)
    ensures
        r@ == 0,
{
    F101 { value: <field_cat::F101 as Field>::zero().value() }
}

/// field-cat's `Add` for `F101`.
#[verifier::external_body]
fn f101_add(a: F101, b: F101) -> (r: F101)
    ensures
        r@ == add_mod(101, a@, b@),
{
    F101 { value: (field_cat::F101::new(a.value) + field_cat::F101::new(b.value)).value() }
}

/// field-cat's `Mul` for `F101`.
#[verifier::external_body]
fn f101_mul(a: F101, b: F101) -> (r: F101)
    ensures
        r@ == mul_mod(101, a@, b@),
{
    F101 { value: (field_cat::F101::new(a.value) * field_cat::F101::new(b.value)).value() }
}

/// field-cat's `Neg` for `F101`.
#[verifier::external_body]
fn f101_neg(a: F101) -> (r: F101)
    ensures
        r@ == neg_mod(101, a@),
{
    F101 { value: (-field_cat::F101::new(a.value)).value() }
}

/// proof-cat-core's `MerkleTree::from_field_values` over `F101`: the
/// tree has `next_pow2(n)` leaf slots (stored at `nodes[m..2m)` for
/// `m = next_pow2(n)`), the first `n` holding the hashes of the values
/// with their indices.
#[verifier::external_body]
fn f101_merkle_commit(values: &[F101]) -> (tree: MerkleTree)
    requires
        2 * next_pow2(values@.len()) <= usize::MAX,
    ensures
        merkle_tree_leaf_count(tree) == values@.len(),
        merkle_tree_nodes(tree).len() == 2 * next_pow2(values@.len()),
        forall|i: int| 0 <= i < values@.len() ==>
            #[trigger] merkle_tree_nodes(tree)[next_pow2(values@.len()) + i]
                == merkle_leaf_hash(usize_le_bytes(i as nat), f101_encoding(values@[i]@)),
        merkle_tree_nodes(tree)[1] == merkle_commitment_root(f101_encodings(values@)),
{
    let converted: Vec<field_cat::F101> = values.iter().map(|v| field_cat::F101::new(v.value)).collect();
    MerkleTree::from_field_values(&converted)
}

/// proof-cat-core's `MerkleTree::verify_opening` over `F101`: whether
/// the root recomputed from the hash of `value` at `index` and the
/// opening's siblings is `root`.  (It computes `2^siblings + index`,
/// which must fit in a `usize`.)
#[verifier::external_body]
fn f101_merkle_verify(root: &MerkleRoot, index: usize, value: F101, proof: &MerkleProof) -> (ok: bool)
    requires
        pow2(merkle_proof_siblings(*proof).len()) + index <= usize::MAX,
    ensures
        ok == (merkle_path_root(
            merkle_leaf_hash(usize_le_bytes(index as nat), f101_encoding(value@)),
            index as nat,
            merkle_proof_siblings(*proof),
        ) == merkle_root_bytes(*root)),
{
    MerkleTree::verify_opening(root, index, &field_cat::F101::new(value.value), proof)
}

/// proof-cat-core's `Transcript::squeeze_challenge` for `F101`: the
/// challenge is the first byte of the SHA-256 digest of the state,
/// reduced modulo 101, and the digest is appended to the state.  It
/// never fails: the 32-byte digest is never empty.
#[verifier::external_body]
fn f101_squeeze(t: Transcript) -> (r: Result<(F101, Transcript), CoreError>)
    ensures
        r is Ok,
        r is Ok ==> r->Ok_0.0@ == f101_decoding(transcript_digest(transcript_state(t))),
        r is Ok ==> transcript_state(r->Ok_0.1) == transcript_state(t) + transcript_digest(transcript_state(t)),
{
    t.squeeze_challenge::<field_cat::F101>().map(|(c, t2)| (F101 { value: c.value() }, t2))
}

/// proof-cat-core's `MultilinearPoly::from_evals` followed by
/// `MultilinearPoly::evaluate` over `F101` (the polynomial type cannot
/// stand in verified code: its field parameter is bound by a trait of
/// field-cat).  Succeeds exactly when the table's length is a power of
/// two and the point has one coordinate per variable; the extension of
/// an all-zero table is zero everywhere.
#[verifier::external_body]
fn f101_multilinear_evaluate(evals: Vec<F101>, point: &[F101]) -> (r: Result<F101, CoreError>)
    ensures
        (r is Ok) <==> (is_pow2(evals@.len()) && point@.len() == log2(evals@.len())),
        r is Ok ==> r->Ok_0@ == multilinear_value(101, f101_values(evals@), f101_values(point@)),
        r is Ok && all_zero(f101_values(evals@)) ==> r->Ok_0@ == 0,
{
    let table: Vec<field_cat::F101> = evals.iter().map(|v| field_cat::F101::new(v.value)).collect();
    let converted: Vec<field_cat::F101> = point.iter().map(|v| field_cat::F101::new(v.value)).collect();
    MultilinearPoly::from_evals(table)
        .and_then(|p| p.evaluate(&converted))
        .map(|v| F101 { value: v.value() })
}

/// proof-cat-core's `MultilinearPoly::from_evals` and `sumcheck_prove`
/// over `F101`, on the claim that the table sums to `claimed`.  Fails
/// exactly when the table's length is not a power of two (proving
/// itself never fails); one round per variable; an all-zero table
/// gives all-zero rounds.
#[verifier::external_body]
fn f101_sumcheck_prove(evals: Vec<F101>, claimed: F101, t: Transcript) -> (r: Result<Vec<RoundPoly<F101>>, CoreError>)
    ensures
        (r is Ok) <==> is_pow2(evals@.len()),
        r is Ok ==> f101_rounds(r->Ok_0@) == sumcheck_prover_rounds(101, f101_values(evals@), transcript_state(t)),
        r is Ok ==> r->Ok_0@.len() == log2(evals@.len()),
        r is Ok && all_zero(f101_values(evals@)) ==> all_zero_rounds(f101_rounds(r->Ok_0@)),
{
    let table: Vec<field_cat::F101> = evals.iter().map(|v| field_cat::F101::new(v.value)).collect();
    MultilinearPoly::from_evals(table).and_then(|p| {
        let claim = proof_cat_core::SumcheckClaim::new(p, field_cat::F101::new(claimed.value));
        proof_cat_core::sumcheck_prove(&claim, t)
    }).map(|(proof, _challenges, _t)| proof.round_polys().iter().map(|rp| RoundPoly {
        eval_zero: F101 { value: rp.eval_zero().value() },
        eval_one: F101 { value: rp.eval_one().value() },
    }).collect())
}

/// proof-cat-core's `sumcheck_verify` over `F101`, on the proof with
/// the given round polynomials: succeeds exactly when the verdict is
/// an acceptance, returning the final claim and one challenge per
/// round.  It rejects a proof with the wrong number of rounds;
/// all-zero rounds of the right number are accepted for the claim
/// zero, with final claim zero.
#[verifier::external_body]
fn f101_sumcheck_verify(rounds: &[RoundPoly<F101>], claimed: F101, num_vars: usize, t: Transcript)
    -> (r: Result<(F101, Vec<F101>), CoreError>)
    ensures
        (r is Ok) <==> sumcheck_verdict(101, f101_rounds(rounds@), claimed@, num_vars as nat, transcript_state(t)) is Some,
        r is Ok ==> sumcheck_verdict(101, f101_rounds(rounds@), claimed@, num_vars as nat, transcript_state(t))
            == Some((r->Ok_0.0@, f101_values(r->Ok_0.1@))),
        r is Ok ==> r->Ok_0.1@.len() == num_vars,
        rounds@.len() != num_vars ==> r is Err,
        rounds@.len() == num_vars && all_zero_rounds(f101_rounds(rounds@)) && claimed@ == 0
            ==> r is Ok && r->Ok_0.0@ == 0,
{
    let proof = proof_cat_core::SumcheckProof::new(rounds.iter().map(|rp| proof_cat_core::sumcheck::RoundPoly::new(
        field_cat::F101::new(rp.eval_zero.value),
        field_cat::F101::new(rp.eval_one.value),
    )).collect());
    proof_cat_core::sumcheck_verify(&proof, &field_cat::F101::new(claimed.value), proof_cat_core::NumVars::new(num_vars), t)
        .map(|(f, ch, _t)| (F101 { value: f.value() }, ch.iter().map(|c| F101 { value: c.value() }).collect()))
}

impl PrimeField for F101 {
    open spec fn modulus() -> nat {
        101
    }

    open spec fn val(self) -> nat {
        self@
    }

    open spec fn encoding(v: nat) -> Seq<u8> {
        f101_encoding(v)
    }

    open spec fn decoding(digest: Seq<u8>) -> nat {
        f101_decoding(digest)
    }

    proof fn lemma_modulus() {
    }

    proof fn lemma_val_injective(a: F101, b: F101) {
    }

    fn zero() -> (r: F101) {
        f101_zero()
    }

    fn plus(self, rhs: F101) -> (r: F101) {
        f101_add(self, rhs)
    }

    fn times(self, rhs: F101) -> (r: F101) {
        f101_mul(self, rhs)
    }

    fn negated(self) -> (r: F101) {
        f101_neg(self)
    }

    fn is_zero(self) -> (b: bool) {
        self.value == 0
    }

    fn equals(self, rhs: F101) -> (b: bool) {
        self.value == rhs.value
    }

    fn merkle_commit(values: &[F101]) -> (tree: MerkleTree) {
        proof {
            assert(values@.map_values(|x: F101| F101::encoding(x.val())) =~= f101_encodings(values@));
        }
        f101_merkle_commit(values)
    }

    fn merkle_verify(root: &MerkleRoot, index: usize, value: F101, proof: &MerkleProof) -> (ok: bool) {
        f101_merkle_verify(root, index, value, proof)
    }

    fn squeeze(t: Transcript) -> (r: Result<(F101, Transcript), CoreError>) {
        f101_squeeze(t)
    }

    fn multilinear_evaluate(evals: Vec<F101>, point: &[F101]) -> (r: Result<F101, CoreError>) {
        proof {
            assert(evals@.map_values(|x: F101| x.val()) =~= f101_values(evals@));
            assert(point@.map_values(|x: F101| x.val()) =~= f101_values(point@));
        }
        f101_multilinear_evaluate(evals, point)
    }

    fn sumcheck_prove(evals: Vec<F101>, claimed: F101, t: Transcript) -> (r: Result<Vec<RoundPoly<F101>>, CoreError>) {
        proof { assert(evals@.map_values(|x: F101| x.val()) =~= f101_values(evals@)); }
        let r = f101_sumcheck_prove(evals, claimed, t);
        proof {
            if r is Ok {
                assert(r->Ok_0@.map_values(|rp: RoundPoly<F101>| (rp.eval_zero.val(), rp.eval_one.val()))
                    =~= f101_rounds(r->Ok_0@));
            }
        }
        r
    }

    fn sumcheck_verify(rounds: &[RoundPoly<F101>], claimed: F101, num_vars: usize, t: Transcript)
        -> (r: Result<(F101, Vec<F101>), CoreError>)
    {
        proof {
            assert(rounds@.map_values(|rp: RoundPoly<F101>| (rp.eval_zero.val(), rp.eval_one.val()))
                =~= f101_rounds(rounds@));
        }
        let r = f101_sumcheck_verify(rounds, claimed, num_vars, t);
        proof {
            if r is Ok {
                assert(r->Ok_0.1@.map_values(|x: F101| x.val()) =~= f101_values(r->Ok_0.1@));
            }
        }
        r
    }
}

} // verus!
