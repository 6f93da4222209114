//! Merkle trees with pass-through of a lone last node.
//!
//! A level is reduced by hashing consecutive pairs. When a level has an odd
//! number of nodes, the last one moves up unchanged: it is not paired with a
//! copy of itself, as some other Merkle trees do. The root is what is left
//! when the reduction has reached a single node.

use crate::hash_function::{hash_model, HashFunction};
use crate::integer::{big_clone, int_value, int_values};
use num_bigint::BigInt;
use vstd::arithmetic::power2::{lemma2_to64, lemma_pow2_unfold, pow2};
use vstd::prelude::*;

verus! {

/// The level above `nodes`: each full pair hashed, a lone last node kept.
pub open spec fn level_above(h: spec_fn(int, int) -> int, nodes: Seq<int>) -> Seq<int> {
    Seq::new(
        ((nodes.len() + 1) / 2) as nat,
        |k: int|
            if 2 * k + 1 < nodes.len() {
                h(nodes[2 * k], nodes[2 * k + 1])
            } else {
                nodes[2 * k]
            },
    )
}

/// The root over `nodes`: the one node that repeated reduction ends with.
pub open spec fn root_of(h: spec_fn(int, int) -> int, nodes: Seq<int>) -> int
    decreases nodes.len(),
{
    if nodes.len() <= 1 {
        nodes[0]
    } else {
        root_of(h, level_above(h, nodes))
    }
}

/// The position next to `index` in its pair.
pub open spec fn sibling_of(index: int) -> int {
    if index % 2 == 0 {
        index + 1
    } else {
        index - 1
    }
}

/// The authentication path of position `index` over `nodes`, leaf to root.
/// A level contributes the node next to the current position, flagged with
/// whether the current position is even, when that node exists; a level at
/// which the current node is the lone last one contributes nothing.
pub open spec fn path_of(h: spec_fn(int, int) -> int, nodes: Seq<int>, index: int) -> Seq<
    (int, bool),
>
    decreases nodes.len(),
{
    if nodes.len() <= 1 {
        Seq::empty()
    } else {
        let above = path_of(h, level_above(h, nodes), index / 2);
        let sibling = sibling_of(index);
        if 0 <= sibling < nodes.len() {
            seq![(nodes[sibling], index % 2 == 0)] + above
        } else {
            above
        }
    }
}

/// Replays a path from `current`: a flagged entry is hashed as the left
/// operand, `h(sibling, current)`, an unflagged one as the right operand,
/// `h(current, sibling)`.
pub open spec fn replay(h: spec_fn(int, int) -> int, current: int, path: Seq<(int, bool)>) -> int
    decreases path.len(),
{
    if path.len() == 0 {
        current
    } else {
        let (sibling, is_left) = path[0];
        let next = if is_left {
            h(sibling, current)
        } else {
            h(current, sibling)
        };
        replay(h, next, path.drop_first())
    }
}

/// An authentication path as mathematics sees it.
pub open spec fn path_view(path: Seq<(BigInt, bool)>) -> Seq<(int, bool)> {
    Seq::new(path.len(), |i: int| (int_value(path[i].0), path[i].1))
}

/// A Merkle tree over a sequence of leaves.
///
/// All fields are public, so that a caller can read the root and the leaves
/// and reason about them. [`MerkleTree::new`] returns a tree that is
/// [well-formed](MerkleTreeView::wf); nothing keeps a caller from changing a
/// field afterwards.
pub struct MerkleTree<H: HashFunction> {
    pub root: BigInt,
    pub leaves: Vec<BigInt>,
    pub hash_function: H,
}

/// A [`MerkleTree`] as mathematics sees it.
pub struct MerkleTreeView {
    pub root: int,
    pub leaves: Seq<int>,
    pub hash: spec_fn(int, int) -> int,
}

impl MerkleTreeView {
    /// There is a leaf, and the root is the root over the leaves.
    pub open spec fn wf(self) -> bool {
        self.leaves.len() > 0 && self.root == root_of(self.hash, self.leaves)
    }
}

impl<H: HashFunction> View for MerkleTree<H> {
    type V = MerkleTreeView;

    open spec fn view(&self) -> MerkleTreeView {
        MerkleTreeView {
            root: int_value(self.root),
            leaves: int_values(self.leaves@),
            hash: hash_model(self.hash_function),
        }
    }
}

/// A copy of every node, in order.
fn clone_nodes(nodes: &Vec<BigInt>) -> (copy: Vec<BigInt>)
    ensures
        copy@.len() == nodes@.len(),
        int_values(copy@) == int_values(nodes@),
{
    let mut copy: Vec<BigInt> = Vec::new();
    let mut i: usize = 0;
    while i < nodes.len()
        invariant
            i <= nodes.len(),
            copy@.len() == i,
            forall|j: int| 0 <= j < i ==> int_value(copy@[j]) == int_value(nodes@[j]),
        decreases nodes.len() - i,
    {
        copy.push(big_clone(&nodes[i]));
        i += 1;
    }
    copy
}

/// Reduces one level.
fn reduce_level<H: HashFunction>(nodes: &Vec<BigInt>, hash_function: &H) -> (above: Vec<BigInt>)
    ensures
        above@.len() == (nodes@.len() + 1) / 2,
        int_values(above@) == level_above(hash_model(*hash_function), int_values(nodes@)),
{
    let ghost expected = level_above(hash_model(*hash_function), int_values(nodes@));
    let mut above: Vec<BigInt> = Vec::new();
    let mut i: usize = 0;
    while i < nodes.len()
        invariant
            i <= nodes.len(),
            i % 2 == 0 || i == nodes.len(),
            above@.len() == (i + 1) / 2,
            expected == level_above(hash_model(*hash_function), int_values(nodes@)),
            forall|k: int| 0 <= k < above@.len() ==> int_value(above@[k]) == expected[k],
        decreases nodes.len() - i,
    {
        if nodes.len() - i >= 2 {
            above.push(hash_function.hash(&nodes[i], &nodes[i + 1]));
            i += 2;
        } else {
            above.push(big_clone(&nodes[i]));
            i += 1;
        }
    }
    above
}

impl<H: HashFunction> MerkleTree<H> {
    /// Builds the tree over `leaves`, of which there is at least one.
    pub fn new(leaves: Vec<BigInt>, hash_function: H) -> (tree: Self)
        requires
            leaves@.len() > 0,
        ensures
            tree@.wf(),
            tree.leaves == leaves,
            tree.hash_function == hash_function,
    {
        let root = MerkleTree::compute_root(&leaves, &hash_function);
        MerkleTree { root, leaves, hash_function }
    }

    /// The authentication path of leaf number `index`: for each level, leaf
    /// to root, at which the current node has a node next to it, that node's
    /// value and whether the current node stands at an even position.
    pub fn merkle_path(&self, index: usize) -> (path: Vec<(BigInt, bool)>)
        ensures
            path_view(path@) == path_of(self@.hash, self@.leaves, index as int),
    {
        let ghost h = self@.hash;
        let mut path: Vec<(BigInt, bool)> = Vec::new();
        let mut current_index = index;
        let mut nodes = clone_nodes(&self.leaves);
        while nodes.len() > 1
            invariant
                h == hash_model(self.hash_function),
                path_view(path@) + path_of(h, int_values(nodes@), current_index as int) == path_of(
                    h,
                    self@.leaves,
                    index as int,
                ),
            decreases nodes.len(),
        {
            let next_level = reduce_level(&nodes, &self.hash_function);
            let sibling_index = if current_index % 2 == 0 {
                current_index + 1
            } else {
                current_index - 1
            };
            if sibling_index < nodes.len() {
                path.push((big_clone(&nodes[sibling_index]), current_index % 2 == 0));
            }
            current_index = current_index / 2;
            nodes = next_level;
        }
        path
    }

    /// The root over `leaves`, of which there is at least one, by repeated
    /// reduction.
    pub fn compute_root(leaves: &Vec<BigInt>, hash_function: &H) -> (root: BigInt)
        requires
            leaves@.len() > 0,
        ensures
            int_value(root) == root_of(hash_model(*hash_function), int_values(leaves@)),
    {
        let ghost h = hash_model(*hash_function);
        let mut nodes = clone_nodes(leaves);
        while nodes.len() > 1
            invariant
                nodes@.len() > 0,
                h == hash_model(*hash_function),
                root_of(h, int_values(nodes@)) == root_of(h, int_values(leaves@)),
            decreases nodes.len(),
        {
            nodes = reduce_level(&nodes, hash_function);
        }
        big_clone(&nodes[0])
    }
}

/// Along the path, starting from `current`, it makes no difference to `h` on
/// which side an entry is hashed.
pub open spec fn commutes_along(
    h: spec_fn(int, int) -> int,
    current: int,
    path: Seq<(int, bool)>,
) -> bool
    decreases path.len(),
{
    if path.len() == 0 {
        true
    } else {
        let sibling = path[0].0;
        &&& h(sibling, current) == h(current, sibling)
        &&& commutes_along(h, h(current, sibling), path.drop_first())
    }
}

/// Replays a path from `current` with every entry on the side where it stood
/// in the tree: a flagged entry stood to the right of the current node, an
/// unflagged one to its left.
pub open spec fn replay_in_place(
    h: spec_fn(int, int) -> int,
    current: int,
    path: Seq<(int, bool)>,
) -> int
    decreases path.len(),
{
    if path.len() == 0 {
        current
    } else {
        let (sibling, current_is_left) = path[0];
        let next = if current_is_left {
            h(current, sibling)
        } else {
            h(sibling, current)
        };
        replay_in_place(h, next, path.drop_first())
    }
}

/// For every hash and every leaf: hashing the leaf's value with the entries
/// of its authentication path, each on the side where it stood in the tree,
/// gives the root.
pub proof fn lemma_path_leads_to_root(h: spec_fn(int, int) -> int, leaves: Seq<int>, index: int)
    requires
        0 <= index < leaves.len(),
    ensures
        replay_in_place(h, leaves[index], path_of(h, leaves, index)) == root_of(h, leaves),
    decreases leaves.len(),
{
    if leaves.len() > 1 {
        let above = level_above(h, leaves);
        lemma_path_leads_to_root(h, above, index / 2);
        if 0 <= sibling_of(index) < leaves.len() {
            assert(path_of(h, leaves, index).drop_first() =~= path_of(h, above, index / 2));
        }
    }
}

/// Where the order of the operands makes no difference, replaying by the
/// flags and replaying in place come to the same value.
pub proof fn lemma_replay_in_place(
    h: spec_fn(int, int) -> int,
    current: int,
    path: Seq<(int, bool)>,
)
    requires
        commutes_along(h, current, path),
    ensures
        replay(h, current, path) == replay_in_place(h, current, path),
    decreases path.len(),
{
    if path.len() > 0 {
        lemma_replay_in_place(h, h(current, path[0].0), path.drop_first());
    }
}

/// For all valid leaf indices, replaying the authentication path from the
/// leaf's value with the same hash reproduces the root, provided that along
/// the path the hash does not tell its operands apart.
///
/// The proviso is needed: a path flags an entry as the left operand when the
/// current node stood at an even position, that is, when the entry stood to
/// its right. Replaying by the flags hashes every pair in the order opposite
/// to the tree's.
pub proof fn lemma_replay_reproduces_root(
    h: spec_fn(int, int) -> int,
    leaves: Seq<int>,
    index: int,
)
    requires
        0 <= index < leaves.len(),
        commutes_along(h, leaves[index], path_of(h, leaves, index)),
    ensures
        replay(h, leaves[index], path_of(h, leaves, index)) == root_of(h, leaves),
{
    lemma_replay_in_place(h, leaves[index], path_of(h, leaves, index));
    lemma_path_leads_to_root(h, leaves, index);
}

/// A hash that never tells its operands apart does not do so along any path.
pub proof fn lemma_commutative_hash(
    h: spec_fn(int, int) -> int,
    current: int,
    path: Seq<(int, bool)>,
)
    requires
        forall|a: int, b: int| #[trigger] h(a, b) == h(b, a),
    ensures
        commutes_along(h, current, path),
    decreases path.len(),
{
    if path.len() > 0 {
        lemma_commutative_hash(h, h(current, path[0].0), path.drop_first());
    }
}

/// How many of `n` leaves, where `n` is at least 2, stand under the left
/// child of the root: the largest power of two below `n`.
pub open spec fn left_span(n: nat) -> nat
    decreases n,
{
    if n <= 2 {
        1
    } else {
        2 * left_span((n + 1) / 2)
    }
}

/// `left_span(n)` is a power of two, lies below `n`, and twice it does not.
pub proof fn lemma_left_span(n: nat)
    requires
        n >= 2,
    ensures
        0 < left_span(n) < n <= 2 * left_span(n),
        exists|e: nat| left_span(n) == pow2(e),
    decreases n,
{
    if n <= 2 {
        lemma2_to64();
    } else {
        let m = (n + 1) / 2;
        lemma_left_span(m);
        let e = choose|e: nat| left_span(m) == pow2(e);
        lemma_pow2_unfold(e + 1);
    }
}

/// The root over `nodes` by direct recursion on the tree: a single node is
/// its own root; the root over more is the hash of the root over the nodes
/// under the left child and the root over the rest.
pub open spec fn root_by_halves(h: spec_fn(int, int) -> int, nodes: Seq<int>) -> int
    decreases nodes.len(),
    via root_by_halves_decreases
{
    if nodes.len() <= 1 {
        nodes[0]
    } else {
        let k = left_span(nodes.len()) as int;
        h(
            root_by_halves(h, nodes.subrange(0, k)),
            root_by_halves(h, nodes.subrange(k, nodes.len() as int)),
        )
    }
}

#[via_fn]
proof fn root_by_halves_decreases(h: spec_fn(int, int) -> int, nodes: Seq<int>) {
    if nodes.len() > 1 {
        lemma_left_span(nodes.len());
    }
}

/// Reducing a level and then cutting it in two is cutting the nodes at an
/// even position and reducing both parts.
proof fn lemma_level_above_splits(h: spec_fn(int, int) -> int, nodes: Seq<int>, half: int)
    requires
        0 <= 2 * half <= nodes.len(),
    ensures
        level_above(h, nodes).subrange(0, half) == level_above(h, nodes.subrange(0, 2 * half)),
        level_above(h, nodes).subrange(half, level_above(h, nodes).len() as int) == level_above(
            h,
            nodes.subrange(2 * half, nodes.len() as int),
        ),
{
}

/// Reducing a level does not change the root.
proof fn lemma_root_of_level_above(h: spec_fn(int, int) -> int, nodes: Seq<int>)
    requires
        nodes.len() > 0,
    ensures
        root_of(h, level_above(h, nodes)) == root_of(h, nodes),
{
    if nodes.len() == 1 {
        assert(level_above(h, nodes) =~= nodes);
    }
}

/// For all non-empty sequences of leaves, the root computed by repeated
/// pairing of levels is the root computed by direct recursion on the tree.
pub proof fn lemma_root_by_halves(h: spec_fn(int, int) -> int, leaves: Seq<int>)
    requires
        leaves.len() > 0,
    ensures
        root_of(h, leaves) == root_by_halves(h, leaves),
    decreases leaves.len(),
{
    let n = leaves.len();
    let above = level_above(h, leaves);
    if n == 2 {
        assert(root_of(h, above) == above[0]);
        assert(root_by_halves(h, leaves.subrange(0, 1)) == leaves[0]);
        assert(root_by_halves(h, leaves.subrange(1, 2)) == leaves[1]);
    } else if n > 2 {
        // The level above splits where the leaves do, at half the position.
        let m = above.len();
        let half = left_span(m) as int;
        let k = left_span(n) as int;
        lemma_left_span(m);
        lemma_left_span(n);
        let left = leaves.subrange(0, k);
        let right = leaves.subrange(k, n as int);
        lemma_level_above_splits(h, leaves, half);
        // Both definitions agree on the level above and on its two parts,
        lemma_root_by_halves(h, above);
        lemma_root_by_halves(h, above.subrange(0, half));
        lemma_root_by_halves(h, above.subrange(half, m as int));
        // whose roots are those of the two parts of the leaves.
        lemma_root_of_level_above(h, left);
        lemma_root_of_level_above(h, right);
        lemma_root_by_halves(h, left);
        lemma_root_by_halves(h, right);
    }
}

/// The root over one, two, three and four leaves, written out.
pub proof fn lemma_small_roots(h: spec_fn(int, int) -> int, a: int, b: int, c: int, d: int)
    ensures
        root_of(h, seq![a]) == a,
        root_of(h, seq![a, b]) == h(a, b),
        root_of(h, seq![a, b, c]) == h(h(a, b), c),
        root_of(h, seq![a, b, c, d]) == h(h(a, b), h(c, d)),
{
    reveal_with_fuel(root_of, 3);
}

/// How many reductions take `n` nodes to one: the height of the tree.
pub open spec fn height(n: nat) -> nat
    decreases n,
{
    if n <= 1 {
        0
    } else {
        1 + height((n + 1) / 2)
    }
}

/// The height of a tree over `n` leaves is the least `e` with `n <= 2^e`.
pub proof fn lemma_height(n: nat)
    requires
        n >= 2,
    ensures
        height(n) >= 1,
        pow2((height(n) - 1) as nat) < n <= pow2(height(n)),
    decreases n,
{
    let m = (n + 1) / 2;
    lemma_pow2_unfold(height(n));
    if m == 1 {
        assert(height(m) == 0);
        lemma2_to64();
    } else {
        lemma_height(m);
        lemma_pow2_unfold(height(m));
    }
}

/// A path has at most one entry per level of the tree. It has fewer where
/// the current node is the lone last one of a level.
pub proof fn lemma_path_length(h: spec_fn(int, int) -> int, leaves: Seq<int>, index: int)
    ensures
        path_of(h, leaves, index).len() <= height(leaves.len()),
    decreases leaves.len(),
{
    if leaves.len() > 1 {
        lemma_path_length(h, level_above(h, leaves), index / 2);
    }
}

/// Over a number of leaves that is a power of two, the path of every leaf has
/// exactly one entry per level.
pub proof fn lemma_full_tree_path_length(
    h: spec_fn(int, int) -> int,
    leaves: Seq<int>,
    index: int,
    e: nat,
)
    requires
        leaves.len() == pow2(e),
        0 <= index < leaves.len(),
    ensures
        height(leaves.len()) == e,
        path_of(h, leaves, index).len() == e,
    decreases e,
{
    if e == 0 {
        lemma2_to64();
    } else {
        lemma_pow2_unfold(e);
        lemma_full_tree_path_length(h, level_above(h, leaves), index / 2, (e - 1) as nat);
    }
}

} // verus!
