//! Root construction, proof generation and proof verification.
use vstd::prelude::*;
use crate::hasher::{bytes_equal, combine, combine_spec, copy_bytes, hash_leaf, sha256_of};

verus! {

/// The byte contents of a sequence of digest buffers.
pub open spec fn digests(v: Seq<Vec<u8>>) -> Seq<Seq<u8>> {
    v.map_values(|d: Vec<u8>| d@)
}

/// The parent of the pair that starts at position `2 * k` of a layer; a
/// trailing unpaired node is combined with itself.
pub open spec fn pair_spec(layer: Seq<Seq<u8>>, k: int) -> Seq<u8> {
    if 2 * k + 1 < layer.len() {
        combine_spec(layer[2 * k], layer[2 * k + 1])
    } else {
        combine_spec(layer[2 * k], layer[2 * k])
    }
}

/// The layer above `layer`: one parent for each consecutive pair, in order.
pub open spec fn next_layer_spec(layer: Seq<Seq<u8>>) -> Seq<Seq<u8>> {
    Seq::new(((layer.len() + 1) / 2) as nat, |k: int| pair_spec(layer, k))
}

/// The root of the tree whose lowest layer is `layer` (non-empty).
pub open spec fn root_spec(layer: Seq<Seq<u8>>) -> Seq<u8>
    decreases layer.len(),
{
    if layer.len() <= 1 {
        layer[0]
    } else {
        root_spec(next_layer_spec(layer))
    }
}

/// The node that is combined with the node at `idx` to form its parent.
pub open spec fn sibling_spec(layer: Seq<Seq<u8>>, idx: int) -> Seq<u8> {
    if idx % 2 == 0 {
        if idx + 1 < layer.len() {
            layer[idx + 1]
        } else {
            layer[idx]
        }
    } else {
        layer[idx - 1]
    }
}

/// The authentication path of the node at `idx`: its sibling on each layer,
/// from the lowest layer up to the one below the root.
pub open spec fn proof_spec(layer: Seq<Seq<u8>>, idx: int) -> Seq<Seq<u8>>
    decreases layer.len(),
{
    if layer.len() <= 1 {
        Seq::empty()
    } else {
        seq![sibling_spec(layer, idx)] + proof_spec(next_layer_spec(layer), idx / 2)
    }
}

/// The digest reached from `current` at position `idx` by folding in the
/// siblings of `path`: an even position is the left child, an odd one the right.
pub open spec fn fold_spec(current: Seq<u8>, path: Seq<Seq<u8>>, idx: int) -> Seq<u8>
    decreases path.len(),
{
    if path.len() == 0 {
        current
    } else {
        let parent = if idx % 2 == 0 {
            combine_spec(current, path[0])
        } else {
            combine_spec(path[0], current)
        };
        fold_spec(parent, path.drop_first(), idx / 2)
    }
}

/// Whether raw `leaf` data, hashed once and folded along `path` from
/// position `idx`, reaches `root`.
pub open spec fn verify_spec(leaf: Seq<u8>, root: Seq<u8>, path: Seq<Seq<u8>>, idx: int) -> bool {
    fold_spec(sha256_of(leaf), path, idx) == root
}

/// Computes the layer above `layer`, duplicating a trailing odd node.
pub fn next_layer(layer: &[Vec<u8>]) -> (r: Vec<Vec<u8>>)
    ensures
        r@.len() == (layer@.len() + 1) / 2,
        digests(r@) == next_layer_spec(digests(layer@)),
{
    let n = layer.len();
    let n_pairs = n / 2 + n % 2;
    let mut out: Vec<Vec<u8>> = Vec::new();
    let mut k: usize = 0;
    while k < n_pairs
        invariant
            n == layer@.len(),
            n_pairs == (n + 1) / 2,
            k <= n_pairs,
            out@.len() == k,
            forall|j: int| 0 <= j < k ==> (#[trigger] out@[j])@ == pair_spec(digests(layer@), j),
        decreases n_pairs - k,
    {
        let left = 2 * k;
        let parent = if left + 1 < n {
            combine(layer[left].as_slice(), layer[left + 1].as_slice())
        } else {
            combine(layer[left].as_slice(), layer[left].as_slice())
        };
        out.push(parent);
        k = k + 1;
    }
    assert(digests(out@) =~= next_layer_spec(digests(layer@)));
    out
}

/// Computes the Merkle root of a non-empty sequence of leaf digests.
pub fn build_merkle_root(leaves: &[Vec<u8>]) -> (r: Vec<u8>)
    requires
        leaves@.len() >= 1,
    ensures
        r@ == root_spec(digests(leaves@)),
{
    if leaves.len() == 1 {
        return copy_bytes(leaves[0].as_slice());
    }
    let mut layer = next_layer(leaves);
    while layer.len() > 1
        invariant
            layer@.len() >= 1,
            root_spec(digests(layer@)) == root_spec(digests(leaves@)),
        decreases layer@.len(),
    {
        layer = next_layer(layer.as_slice());
    }
    copy_bytes(layer[0].as_slice())
}

/// An owned copy of a sequence of digests.
pub fn copy_layer(layer: &[Vec<u8>]) -> (r: Vec<Vec<u8>>)
    ensures
        r@.len() == layer@.len(),
        digests(r@) == digests(layer@),
{
    let mut out: Vec<Vec<u8>> = Vec::new();
    let mut i: usize = 0;
    while i < layer.len()
        invariant
            i <= layer@.len(),
            out@.len() == i,
            forall|j: int| 0 <= j < i ==> (#[trigger] out@[j])@ == layer@[j]@,
        decreases layer@.len() - i,
    {
        out.push(copy_bytes(layer[i].as_slice()));
        i = i + 1;
    }
    assert(digests(out@) =~= digests(layer@));
    out
}

/// Computes the authentication path of the leaf at `index`: one sibling
/// digest per layer, from the leaves up to the layer below the root.
pub fn generate_proof(leaves: &[Vec<u8>], index: usize) -> (r: Vec<Vec<u8>>)
    requires
        index < leaves@.len(),
    ensures
        digests(r@) == proof_spec(digests(leaves@), index as int),
{
    let mut path: Vec<Vec<u8>> = Vec::new();
    let mut layer = copy_layer(leaves);
    let mut idx: usize = index;
    while layer.len() > 1
        invariant
            idx < layer@.len(),
            digests(path@) + proof_spec(digests(layer@), idx as int) == proof_spec(
                digests(leaves@),
                index as int,
            ),
        decreases layer@.len(),
    {
        let next = next_layer(layer.as_slice());
        let sibling = if idx % 2 == 0 {
            if idx + 1 < layer.len() {
                copy_bytes(layer[idx + 1].as_slice())
            } else {
                copy_bytes(layer[idx].as_slice())
            }
        } else {
            copy_bytes(layer[idx - 1].as_slice())
        };
        assert(sibling@ == sibling_spec(digests(layer@), idx as int));
        let ghost old_path = path@;
        path.push(sibling);
        assert(digests(path@) =~= digests(old_path).push(sibling@));
        assert(digests(path@) + proof_spec(digests(next@), (idx / 2) as int) =~= digests(old_path)
            + proof_spec(digests(layer@), idx as int));
        idx = idx / 2;
        layer = next;
    }
    assert(digests(path@) =~= digests(path@) + proof_spec(digests(layer@), idx as int));
    path
}

/// Reconstructs the root reached from `leaf_digest` at position `index` by
/// folding in the siblings of `proof`, lowest layer first.
pub fn fold_proof(leaf_digest: &[u8], proof: &[Vec<u8>], index: usize) -> (r: Vec<u8>)
    ensures
        r@ == fold_spec(leaf_digest@, digests(proof@), index as int),
{
    let ghost path = digests(proof@);
    let mut current = copy_bytes(leaf_digest);
    let mut idx: usize = index;
    let mut i: usize = 0;
    assert(path.subrange(0, path.len() as int) =~= path);
    while i < proof.len()
        invariant
            i <= proof@.len(),
            path == digests(proof@),
            fold_spec(current@, path.subrange(i as int, path.len() as int), idx as int) == fold_spec(
                leaf_digest@,
                path,
                index as int,
            ),
        decreases proof@.len() - i,
    {
        let sibling = proof[i].as_slice();
        let ghost rest = path.subrange(i as int, path.len() as int);
        assert(rest[0] == sibling@);
        assert(rest.drop_first() =~= path.subrange(i + 1, path.len() as int));
        current = if idx % 2 == 0 {
            combine(current.as_slice(), sibling)
        } else {
            combine(sibling, current.as_slice())
        };
        idx = idx / 2;
        i = i + 1;
    }
    assert(path.subrange(proof@.len() as int, path.len() as int) =~= Seq::<Seq<u8>>::empty());
    current
}

/// Checks that raw `leaf` data, hashed once and folded along `proof` from
/// position `index`, reaches `root`.
pub fn verify_merkle_proof(leaf: &[u8], root: &[u8], proof: &[Vec<u8>], index: usize) -> (r: bool)
    ensures
        r == verify_spec(leaf@, root@, digests(proof@), index as int),
{
    let leaf_digest = hash_leaf(leaf);
    let reached = fold_proof(leaf_digest.as_slice(), proof, index);
    bytes_equal(reached.as_slice(), root)
}

} // verus!
