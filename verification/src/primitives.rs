//! The proof-system primitives of proof-cat-core that the prover and
//! the verifier call: the Merkle commitment, the Fiat-Shamir
//! transcript, multilinear polynomials and the sumcheck protocol.
//!
//! Each call goes through a trusted wrapper whose contract states what
//! proof-cat-core's source shows of it.  Hash values are named, not
//! computed: what SHA-256 gives is no part of this crate's proofs.

use vstd::prelude::*;
use proof_cat_core::commit::merkle::{MerkleProof, MerkleRoot, MerkleTree};
use proof_cat_core::transcript::Transcript;
use proof_cat_core::Error as CoreError;
use crate::field::PrimeField;
use crate::pow2::{log2, pow2};

verus! {

/// A Merkle tree over field-element leaves.
#[verifier::external_type_specification]
#[verifier::external_body]
pub struct ExMerkleTree(MerkleTree);

/// The root hash of a Merkle tree.
#[verifier::external_type_specification]
#[verifier::external_body]
pub struct ExMerkleRoot(MerkleRoot);

/// A Merkle opening: the sibling hashes from a leaf to the root.
#[verifier::external_type_specification]
#[verifier::external_body]
pub struct ExMerkleProof(MerkleProof);

/// A Fiat-Shamir transcript.
#[verifier::external_type_specification]
#[verifier::external_body]
pub struct ExTranscript(Transcript);

// ── Names ────────────────────────────────────────────────────

/// The nodes of a Merkle tree (index 0 unused, 1 the root, the leaf
/// hashes in the upper half), as a flat array of 32-byte hashes.
pub uninterp spec fn merkle_tree_nodes(tree: MerkleTree) -> Seq<Seq<u8>>;

/// The number of leaves (values) a Merkle tree was built from.
pub uninterp spec fn merkle_tree_leaf_count(tree: MerkleTree) -> nat;

/// The 32 bytes of a Merkle root.
pub uninterp spec fn merkle_root_bytes(root: MerkleRoot) -> Seq<u8>;

/// The sibling hashes of a Merkle opening, from the leaf up.
pub uninterp spec fn merkle_proof_siblings(proof: MerkleProof) -> Seq<Seq<u8>>;

/// The hash of a leaf: SHA-256 over `"leaf:"`, the little-endian bytes
/// of the leaf's index, and the bytes of the leaf's value.
pub uninterp spec fn merkle_leaf_hash(index_bytes: Seq<u8>, value_bytes: Seq<u8>) -> Seq<u8>;

/// The root of the Merkle tree that `MerkleTree::from_field_values`
/// builds over values whose byte encodings are `leaf_bytes`, in order:
/// leaf `i` hashes `i` with `leaf_bytes[i]`, the padding leaves hash
/// their indices, and each inner node hashes its two children.
pub uninterp spec fn merkle_commitment_root(leaf_bytes: Seq<Seq<u8>>) -> Seq<u8>;

/// The root that `MerkleTree::verify_opening` recomputes from a leaf
/// hash, the leaf's index and the sibling hashes.
pub uninterp spec fn merkle_path_root(leaf_hash: Seq<u8>, index: nat, siblings: Seq<Seq<u8>>) -> Seq<u8>;

/// The bytes a transcript has absorbed so far (its hash state).
pub uninterp spec fn transcript_state(t: Transcript) -> Seq<u8>;

/// The SHA-256 digest of a transcript state.
pub uninterp spec fn transcript_digest(state: Seq<u8>) -> Seq<u8>;

/// The value of the multilinear extension of `evals` at `point`, in
/// the field of modulus `modulus`.
pub uninterp spec fn multilinear_value(modulus: nat, evals: Seq<nat>, point: Seq<nat>) -> nat;

/// The round polynomials the sumcheck prover sends for the table
/// `evals` of the field of modulus `modulus`, starting from the
/// transcript state `state`.
pub uninterp spec fn sumcheck_prover_rounds(modulus: nat, evals: Seq<nat>, state: Seq<u8>) -> Seq<(nat, nat)>;

/// What the sumcheck verifier concludes, in the field of modulus
/// `modulus`, for `rounds` against the claim `claimed` over `num_vars`
/// variables, starting from the transcript state `state`: the final
/// claim and the challenges, or `None` where it rejects.
pub uninterp spec fn sumcheck_verdict(modulus: nat, rounds: Seq<(nat, nat)>, claimed: nat, num_vars: nat, state: Seq<u8>)
    -> Option<(nat, Seq<nat>)>;

// ── Plain descriptions ───────────────────────────────────────

/// A round polynomial of a sumcheck proof, given by its values at 0 and at 1.
#[derive(Debug, Clone, Copy)]
pub struct RoundPoly<F> {
    /// The value at 0.
    pub eval_zero: F,
    /// The value at 1.
    pub eval_one: F,
}

/// The round polynomials as pairs of field values.
pub open spec fn rounds_of<F: PrimeField>(rounds: Seq<RoundPoly<F>>) -> Seq<(nat, nat)> {
    rounds.map_values(|rp: RoundPoly<F>| (rp.eval_zero.val(), rp.eval_one.val()))
}

/// The little-endian bytes of `n` as a `usize` on this machine.
pub open spec fn usize_le_bytes(n: nat) -> Seq<u8> {
    Seq::new((usize::BITS / 8) as nat, |i: int| ((n / pow2(8 * i as nat)) % 256) as u8)
}

/// The `k` little-endian bytes of `n`.
pub open spec fn le_bytes(n: nat, k: nat) -> Seq<u8> {
    Seq::new(k, |i: int| ((n / pow2(8 * i as nat)) % 256) as u8)
}

/// The value of little-endian bytes.
pub open spec fn le_value(bytes: Seq<u8>) -> nat
    decreases bytes.len(),
{
    if bytes.len() == 0 {
        0
    } else {
        (bytes[0] + 256 * le_value(bytes.drop_first())) as nat
    }
}

/// Whether every value of a table is zero.
pub open spec fn all_zero(evals: Seq<nat>) -> bool {
    forall|i: int| 0 <= i < evals.len() ==> #[trigger] evals[i] == 0
}

/// Whether every round polynomial is `(0, 0)`.
pub open spec fn all_zero_rounds(rounds: Seq<(nat, nat)>) -> bool {
    forall|i: int| 0 <= i < rounds.len() ==> #[trigger] rounds[i] == (0nat, 0nat)
}

/// The values of a sequence of field elements.
pub open spec fn values_of<F: PrimeField>(v: Seq<F>) -> Seq<nat> {
    v.map_values(|x: F| x.val())
}

// ── Wrappers ─────────────────────────────────────────────────

/// `Clone` for `MerkleRoot` (derived on the 32-byte array): the copy
/// holds the same bytes.
pub assume_specification [<MerkleRoot as std::clone::Clone>::clone](root: &MerkleRoot) -> (r: MerkleRoot)
    ensures
        merkle_root_bytes(r) == merkle_root_bytes(*root),
;

/// `Clone` for `MerkleProof` (derived on the leaf index and the sibling
/// hashes): the copy holds the same sibling hashes.
pub assume_specification [<MerkleProof as std::clone::Clone>::clone](proof: &MerkleProof) -> (r: MerkleProof)
    ensures
        merkle_proof_siblings(r) == merkle_proof_siblings(*proof),
;

/// `MerkleTree::root`: node 1 of the tree (all zeros for a tree of
/// fewer than two nodes).
#[verifier::external_body]
pub(crate) fn merkle_root(tree: &MerkleTree) -> (root: MerkleRoot)
    ensures
        merkle_tree_nodes(*tree).len() > 1 ==> merkle_root_bytes(root) == merkle_tree_nodes(*tree)[1],
        merkle_tree_nodes(*tree).len() <= 1 ==> merkle_root_bytes(root) == Seq::new(32, |i: int| 0u8),
{
    tree.root()
}

/// `MerkleRoot::as_bytes`, copied into a vector.
#[verifier::external_body]
pub(crate) fn merkle_root_to_bytes(root: &MerkleRoot) -> (b: Vec<u8>)
    ensures
        b@ == merkle_root_bytes(*root),
{
    root.as_bytes().to_vec()
}

/// `MerkleTree::open`: succeeds exactly for the indices of the values
/// the tree was built from; the opening holds one sibling per level of
/// the tree, and folding the leaf's hash with them, as
/// `MerkleTree::verify_opening` does, gives back the root (node 1).
#[verifier::external_body]
pub(crate) fn merkle_open(tree: &MerkleTree, index: usize) -> (r: Result<MerkleProof, CoreError>)
    ensures
        (r is Ok) <==> index < merkle_tree_leaf_count(*tree),
        r matches Ok(p) ==> merkle_path_root(
            merkle_tree_nodes(*tree)[merkle_tree_nodes(*tree).len() / 2 + index],
            index as nat,
            merkle_proof_siblings(p),
        ) == merkle_tree_nodes(*tree)[1],
        r matches Ok(p) ==> merkle_proof_siblings(p).len() == log2(merkle_tree_nodes(*tree).len() / 2),
{
    tree.open(index)
}

/// The number of siblings of an opening (`MerkleProof::siblings().len()`).
#[verifier::external_body]
pub(crate) fn merkle_proof_depth(proof: &MerkleProof) -> (d: usize)
    ensures
        d == merkle_proof_siblings(*proof).len(),
{
    proof.siblings().len()
}

/// proof-cat-core's error for a Merkle opening that does not verify
/// (`Error::MerkleVerificationFailed`).
#[verifier::external_body]
pub(crate) fn merkle_verification_failed() -> (e: CoreError) {
    CoreError::MerkleVerificationFailed
}

/// `Transcript::new`: the state starts as the label.
#[verifier::external_body]
pub(crate) fn transcript_new(label: &[u8]) -> (t: Transcript)
    ensures
        transcript_state(t) == label@,
{
    Transcript::new(label)
}

/// `Transcript::absorb_bytes`: the data is appended to the state.
#[verifier::external_body]
pub(crate) fn transcript_absorb(t: Transcript, data: &[u8]) -> (r: Transcript)
    ensures
        transcript_state(r) == transcript_state(t) + data@,
{
    t.absorb_bytes(data)
}

/// `usize::to_le_bytes`: the little-endian bytes of `n`.
#[verifier::external_body]
pub(crate) fn usize_to_le_bytes(n: usize) -> (b: Vec<u8>)
    ensures
        b@ == usize_le_bytes(n as nat),
{
    n.to_le_bytes().to_vec()
}

} // verus!
