//! Facts that relate root construction, proof generation and verification.
use vstd::prelude::*;
use crate::hasher::{combine_spec, sha256_of};
use crate::tree::{fold_spec, next_layer_spec, proof_spec, root_spec, sibling_spec, verify_spec};

verus! {

/// Folding a node with its sibling, in the order its position gives, yields
/// its parent on the next layer.
proof fn lemma_parent_step(layer: Seq<Seq<u8>>, idx: int)
    requires
        layer.len() >= 2,
        0 <= idx < layer.len(),
    ensures
        (if idx % 2 == 0 {
            combine_spec(layer[idx], sibling_spec(layer, idx))
        } else {
            combine_spec(sibling_spec(layer, idx), layer[idx])
        }) == next_layer_spec(layer)[idx / 2],
        idx / 2 < next_layer_spec(layer).len(),
{
}

/// Folding a node along its own authentication path reaches the root.
proof fn lemma_fold_reaches_root(layer: Seq<Seq<u8>>, idx: int)
    requires
        0 <= idx < layer.len(),
    ensures
        fold_spec(layer[idx], proof_spec(layer, idx), idx) == root_spec(layer),
    decreases layer.len(),
{
    if layer.len() >= 2 {
        let next = next_layer_spec(layer);
        let path = proof_spec(layer, idx);
        lemma_parent_step(layer, idx);
        assert(path[0] == sibling_spec(layer, idx));
        assert(path.drop_first() =~= proof_spec(next, idx / 2));
        lemma_fold_reaches_root(next, idx / 2);
    }
}

/// A proof generated for any valid index of a non-empty leaf set verifies
/// against that set's root, given the raw data whose digest is that leaf.
pub proof fn lemma_round_trip(leaves: Seq<Seq<u8>>, raw: Seq<u8>, i: int)
    requires
        0 <= i < leaves.len(),
        leaves[i] == sha256_of(raw),
    ensures
        verify_spec(raw, root_spec(leaves), proof_spec(leaves, i), i),
{
    lemma_fold_reaches_root(leaves, i);
}

/// A one-leaf tree has that leaf as its root and an empty proof path, and
/// the empty path verifies at index 0.
pub proof fn lemma_single_leaf(raw: Seq<u8>)
    ensures
        root_spec(seq![sha256_of(raw)]) == sha256_of(raw),
        proof_spec(seq![sha256_of(raw)], 0) == Seq::<Seq<u8>>::empty(),
        verify_spec(raw, sha256_of(raw), Seq::empty(), 0),
{
}

/// With three leaves the last one is paired with itself, and the proof of
/// each of the three verifies against the root.
pub proof fn lemma_three_leaves(x: Seq<u8>, y: Seq<u8>, z: Seq<u8>)
    ensures
        root_spec(seq![x, y, z]) == combine_spec(combine_spec(x, y), combine_spec(z, z)),
        fold_spec(x, proof_spec(seq![x, y, z], 0), 0) == root_spec(seq![x, y, z]),
        fold_spec(y, proof_spec(seq![x, y, z], 1), 1) == root_spec(seq![x, y, z]),
        fold_spec(z, proof_spec(seq![x, y, z], 2), 2) == root_spec(seq![x, y, z]),
{
    let leaves = seq![x, y, z];
    let up = next_layer_spec(leaves);
    assert(up =~= seq![combine_spec(x, y), combine_spec(z, z)]);
    let top = next_layer_spec(up);
    assert(top =~= seq![combine_spec(combine_spec(x, y), combine_spec(z, z))]);
    assert(root_spec(top) == top[0]);
    assert(root_spec(up) == root_spec(top));
    assert(root_spec(leaves) == root_spec(up));
    lemma_fold_reaches_root(leaves, 0);
    lemma_fold_reaches_root(leaves, 1);
    lemma_fold_reaches_root(leaves, 2);
}

/// The root depends on the leaf sequence alone: equal sequences give equal
/// roots.
pub proof fn lemma_root_deterministic(a: Seq<Seq<u8>>, b: Seq<Seq<u8>>)
    requires
        a == b,
    ensures
        root_spec(a) == root_spec(b),
{
}

} // verus!
