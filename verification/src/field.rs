//! Prime fields: the [`PrimeField`] trait and its arithmetic, stated
//! over the canonical values of the elements.
//!
//! Traces, constraints and proofs are generic over a `PrimeField`.  A
//! field of field-cat is supported by an implementation of the trait
//! (see [`crate::f101`], [`crate::baby_bear`], [`crate::bfield`]): its elements are held by their canonical
//! values, and its arithmetic and the proof-system primitives of
//! proof-cat-core on its elements are field-cat's and proof-cat-core's,
//! called through trusted wrappers whose contracts the trait states.

use vstd::prelude::*;
use vstd::arithmetic::div_mod::{
    lemma_mod_pos_bound, lemma_small_mod, lemma_mod_self_0, lemma_fundamental_div_mod_converse_mod,
};
use proof_cat_core::commit::merkle::{MerkleProof, MerkleRoot, MerkleTree};
use proof_cat_core::transcript::Transcript;
use proof_cat_core::Error as CoreError;
use crate::pow2::{is_pow2, log2, next_pow2, pow2};
use crate::primitives::{
    RoundPoly, all_zero, all_zero_rounds, merkle_leaf_hash, merkle_path_root, merkle_proof_siblings,
    merkle_root_bytes, merkle_tree_leaf_count, merkle_commitment_root, merkle_tree_nodes, multilinear_value,
    sumcheck_prover_rounds, sumcheck_verdict, transcript_digest, transcript_state, usize_le_bytes,
};

verus! {

/// Sum of two field values, reduced modulo `p`.
pub open spec fn add_mod(p: nat, a: nat, b: nat) -> nat {
    ((a % p) + (b % p)) % p
}

/// Product of two field values, reduced modulo `p`.
pub open spec fn mul_mod(p: nat, a: nat, b: nat) -> nat {
    ((a % p) * (b % p)) % p
}

/// Additive inverse of a field value, reduced modulo `p`.
pub open spec fn neg_mod(p: nat, a: nat) -> nat {
    ((p - a % p) as nat) % p
}

/// `x + (-x) = 0`.
pub proof fn lemma_add_neg_cancel(p: nat, x: nat)
    requires
        p > 0,
    ensures
        add_mod(p, x, neg_mod(p, x)) == 0,
{
    let r = x % p;
    lemma_mod_pos_bound(x as int, p as int);
    if r == 0 {
        lemma_mod_self_0(p as int);
        lemma_small_mod(0, p);
    } else {
        lemma_small_mod((p - r) as nat, p);
        lemma_mod_self_0(p as int);
    }
}

/// `(a + b) + (-a) + (-b) = 0`.
pub proof fn lemma_sum_minus_parts(p: nat, a: nat, b: nat)
    requires
        p > 0,
    ensures
        add_mod(p, add_mod(p, add_mod(p, a, b), neg_mod(p, a)), neg_mod(p, b)) == 0,
{
    let ra = a % p;
    let rb = b % p;
    lemma_mod_pos_bound(a as int, p as int);
    lemma_mod_pos_bound(b as int, p as int);
    let s = add_mod(p, a, b);
    let na = neg_mod(p, a);
    if ra + rb < p {
        lemma_small_mod(ra + rb, p);
    } else {
        lemma_fundamental_div_mod_converse_mod((ra + rb) as int, p as int, 1, (ra + rb - p) as int);
    }
    lemma_small_mod(s, p);
    if ra == 0 {
        lemma_mod_self_0(p as int);
        lemma_small_mod(0, p);
        lemma_small_mod(rb, p);
    } else {
        lemma_small_mod((p - ra) as nat, p);
        if ra + rb < p {
            lemma_fundamental_div_mod_converse_mod((ra + rb + p - ra) as int, p as int, 1, rb as int);
        } else {
            lemma_small_mod(rb, p);
        }
    }
    let t = add_mod(p, s, na);
    assert(t == rb);
    lemma_small_mod(rb, p);
    lemma_add_neg_cancel(p, b);
}

/// Adding a multiple of zero leaves a canonical value unchanged:
/// `acc + alpha * 0 = acc`.
pub proof fn lemma_add_scaled_zero(p: nat, acc: nat, alpha: nat)
    requires
        p > 0,
        acc < p,
    ensures
        add_mod(p, acc, mul_mod(p, alpha, 0)) == acc,
{
    lemma_small_mod(0, p);
    assert((alpha % p) * 0 == 0);
    lemma_small_mod(acc, p);
}

/// A value below `2p`, reduced modulo `p`: itself below `p`, else
/// less `p`.
proof fn lemma_mod_below_twice(p: nat, z: nat)
    requires
        p > 0,
        z < 2 * p,
    ensures
        z % p == (if z < p { z } else { (z - p) as nat }),
{
    if z < p {
        lemma_small_mod(z, p);
    } else {
        lemma_fundamental_div_mod_converse_mod(z as int, p as int, 1, (z - p) as int);
    }
}

/// Field addition is the sum reduced modulo `p`.
pub proof fn lemma_add_mod_is_sum(p: nat, a: nat, b: nat)
    requires
        p > 0,
    ensures
        add_mod(p, a, b) == (a + b) % p,
{
    vstd::arithmetic::div_mod::lemma_add_mod_noop(a as int, b as int, p as int);
}

/// Field multiplication is the product reduced modulo `p`.
pub proof fn lemma_mul_mod_is_product(p: nat, a: nat, b: nat)
    requires
        p > 0,
    ensures
        mul_mod(p, a, b) == (a * b) % p,
{
    vstd::arithmetic::div_mod::lemma_mul_mod_noop_general(a as int, b as int, p as int);
}

/// Field negation gives the canonical additive inverse: below `p`,
/// and adding it to the value gives a multiple of `p`.
pub proof fn lemma_neg_mod_is_inverse(p: nat, a: nat)
    requires
        p > 0,
    ensures
        neg_mod(p, a) < p,
        (a + neg_mod(p, a)) % p == 0,
{
    lemma_mod_pos_bound(((p - a % p) as nat) as int, p as int);
    lemma_add_neg_cancel(p, a);
    lemma_add_mod_is_sum(p, a, neg_mod(p, a));
}

/// Where `x - y` vanishes in the field, `x` and `y` are congruent
/// modulo `p`.
pub proof fn lemma_difference_zero(p: nat, x: nat, y: nat)
    requires
        p > 0,
        add_mod(p, x, neg_mod(p, y)) == 0,
    ensures
        x % p == y % p,
{
    let xr = x % p;
    let yr = y % p;
    lemma_mod_pos_bound(x as int, p as int);
    lemma_mod_pos_bound(y as int, p as int);
    if yr == 0 {
        lemma_mod_self_0(p as int);
        lemma_small_mod(0, p);
        lemma_small_mod(xr, p);
    } else {
        lemma_small_mod((p - yr) as nat, p);
        lemma_mod_below_twice(p, (xr + (p - yr)) as nat);
    }
}

/// Where `n - a - b` vanishes in the field, `n` is congruent to
/// `a + b` modulo `p`.
pub proof fn lemma_difference_of_sum_zero(p: nat, n: nat, a: nat, b: nat)
    requires
        p > 0,
        add_mod(p, add_mod(p, n, neg_mod(p, a)), neg_mod(p, b)) == 0,
    ensures
        n % p == (a + b) % p,
{
    let s = add_mod(p, n, neg_mod(p, a));
    lemma_difference_zero(p, s, b);
    let nr = n % p;
    let ar = a % p;
    let br = b % p;
    lemma_mod_pos_bound(n as int, p as int);
    lemma_mod_pos_bound(a as int, p as int);
    lemma_mod_pos_bound(b as int, p as int);
    lemma_mod_pos_bound((nr + neg_mod(p, a) % p) as int, p as int);
    lemma_small_mod(s, p);
    vstd::arithmetic::div_mod::lemma_add_mod_noop(a as int, b as int, p as int);
    lemma_mod_below_twice(p, ar + br);
    if ar == 0 {
        lemma_mod_self_0(p as int);
        lemma_small_mod(0, p);
        lemma_small_mod(nr, p);
    } else {
        lemma_small_mod((p - ar) as nat, p);
        lemma_mod_below_twice(p, (nr + (p - ar)) as nat);
    }
}

/// An element of a prime field, held by its canonical value.
///
/// Each operation is stated over the values: arithmetic modulo the
/// field's modulus, and the proof-system primitives of proof-cat-core
/// over the field's byte encoding.
pub trait PrimeField: Sized + Copy {
    /// The modulus of the field.
    spec fn modulus() -> nat;

    /// The value of an element.
    spec fn val(self) -> nat;

    /// The little-endian bytes that field-cat serializes a value to.
    spec fn encoding(v: nat) -> Seq<u8>;

    /// The value that field-cat reads from a 32-byte hash digest.
    spec fn decoding(digest: Seq<u8>) -> nat;

    /// The modulus is at least 2.
    proof fn lemma_modulus()
        ensures
            Self::modulus() > 1,
    ;

    /// An element is determined by its value.
    proof fn lemma_val_injective(a: Self, b: Self)
        ensures
            a.val() == b.val() ==> a == b,
    ;

    /// The additive identity.
    fn zero() -> (r: Self)
        ensures
            r.val() == 0,
    ;

    /// Field addition.
    fn plus(self, rhs: Self) -> (r: Self)
        ensures
            r.val() == add_mod(Self::modulus(), self.val(), rhs.val()),
    ;

    /// Field multiplication.
    fn times(self, rhs: Self) -> (r: Self)
        ensures
            r.val() == mul_mod(Self::modulus(), self.val(), rhs.val()),
    ;

    /// Field negation.
    fn negated(self) -> (r: Self)
        ensures
            r.val() == neg_mod(Self::modulus(), self.val()),
    ;

    /// Whether this is the additive identity.
    fn is_zero(self) -> (b: bool)
        ensures
            b == (self.val() == 0),
    ;

    /// Whether two elements are equal.
    fn equals(self, rhs: Self) -> (b: bool)
        ensures
            b == (self.val() == rhs.val()),
    ;

    /// Builds the Merkle tree over `values` (proof-cat-core's
    /// `MerkleTree::from_field_values`): `next_pow2(n)` leaf slots,
    /// stored at `nodes[m..2m)` for `m = next_pow2(n)`, the first `n`
    /// holding the hashes of the values with their indices.
    fn merkle_commit(values: &[Self]) -> (tree: MerkleTree)
        requires
            2 * next_pow2(values@.len()) <= usize::MAX,
        ensures
            merkle_tree_leaf_count(tree) == values@.len(),
            merkle_tree_nodes(tree).len() == 2 * next_pow2(values@.len()),
            forall|i: int| 0 <= i < values@.len() ==>
                #[trigger] merkle_tree_nodes(tree)[next_pow2(values@.len()) + i]
                    == merkle_leaf_hash(usize_le_bytes(i as nat), Self::encoding(values@[i].val())),
            merkle_tree_nodes(tree)[1] == merkle_commitment_root(values@.map_values(|x: Self| Self::encoding(x.val()))),
    ;

    /// Whether the root recomputed from the hash of `value` at `index`
    /// and the opening's siblings is `root` (proof-cat-core's
    /// `MerkleTree::verify_opening`).
    fn merkle_verify(root: &MerkleRoot, index: usize, value: Self, proof: &MerkleProof) -> (ok: bool)
        requires
            pow2(merkle_proof_siblings(*proof).len()) + index <= usize::MAX,
        ensures
            ok == (merkle_path_root(
                merkle_leaf_hash(usize_le_bytes(index as nat), Self::encoding(value.val())),
                index as nat,
                merkle_proof_siblings(*proof),
            ) == merkle_root_bytes(*root)),
    ;

    /// Squeezes a challenge from the transcript (proof-cat-core's
    /// `Transcript::squeeze_challenge`): the challenge is read from the
    /// SHA-256 digest of the state, and the digest is appended to the
    /// state.  It never fails.
    fn squeeze(t: Transcript) -> (r: Result<(Self, Transcript), CoreError>)
        ensures
            r is Ok,
            r is Ok ==> r->Ok_0.0.val() == Self::decoding(transcript_digest(transcript_state(t))),
            r is Ok ==> transcript_state(r->Ok_0.1) == transcript_state(t) + transcript_digest(transcript_state(t)),
    ;

    /// The multilinear extension of the table `evals` at `point`
    /// (proof-cat-core's `MultilinearPoly::from_evals` and `evaluate`):
    /// defined exactly when the table's length is a power of two and
    /// the point has one coordinate per variable; zero for an all-zero
    /// table.
    fn multilinear_evaluate(evals: Vec<Self>, point: &[Self]) -> (r: Result<Self, CoreError>)
        ensures
            ({
                let table = evals@.map_values(|x: Self| x.val());
                &&& (r is Ok) <==> (is_pow2(evals@.len()) && point@.len() == log2(evals@.len()))
                &&& r is Ok ==> r->Ok_0.val()
                    == multilinear_value(Self::modulus(), table, point@.map_values(|x: Self| x.val()))
                &&& r is Ok && all_zero(table) ==> r->Ok_0.val() == 0
            }),
    ;

    /// The sumcheck prover's round polynomials for the claim that
    /// `evals` sums to `claimed` (proof-cat-core's `sumcheck_prove`):
    /// fails exactly when the table's length is not a power of two; one
    /// round per variable; all-zero rounds for an all-zero table.
    fn sumcheck_prove(evals: Vec<Self>, claimed: Self, t: Transcript) -> (r: Result<Vec<RoundPoly<Self>>, CoreError>)
        ensures
            ({
                let table = evals@.map_values(|x: Self| x.val());
                let rounds = r->Ok_0@.map_values(|rp: RoundPoly<Self>| (rp.eval_zero.val(), rp.eval_one.val()));
                &&& (r is Ok) <==> is_pow2(evals@.len())
                &&& r is Ok ==> rounds == sumcheck_prover_rounds(Self::modulus(), table, transcript_state(t))
                &&& r is Ok ==> r->Ok_0@.len() == log2(evals@.len())
                &&& r is Ok && all_zero(table) ==> all_zero_rounds(rounds)
            }),
    ;

    /// The sumcheck verifier's conclusion for the proof with the given
    /// rounds (proof-cat-core's `sumcheck_verify`): the final claim and
    /// one challenge per round where it accepts.  It rejects a proof
    /// with the wrong number of rounds, and accepts all-zero rounds of
    /// the right number for the claim zero, with final claim zero.
    fn sumcheck_verify(rounds: &[RoundPoly<Self>], claimed: Self, num_vars: usize, t: Transcript)
        -> (r: Result<(Self, Vec<Self>), CoreError>)
        ensures
            ({
                let pairs = rounds@.map_values(|rp: RoundPoly<Self>| (rp.eval_zero.val(), rp.eval_one.val()));
                let verdict = sumcheck_verdict(Self::modulus(), pairs, claimed.val(), num_vars as nat, transcript_state(t));
                &&& (r is Ok) <==> verdict is Some
                &&& r is Ok ==> verdict == Some((r->Ok_0.0.val(), r->Ok_0.1@.map_values(|x: Self| x.val())))
                &&& r is Ok ==> r->Ok_0.1@.len() == num_vars
                &&& rounds@.len() != num_vars ==> r is Err
                &&& rounds@.len() == num_vars && all_zero_rounds(pairs) && claimed.val() == 0
                    ==> r is Ok && r->Ok_0.0.val() == 0
            }),
    ;
}

} // verus!
