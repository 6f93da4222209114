use num_bigint::BigInt;
use r1cs_circuit::hash_function::{CustomHash, HashFunction, SimpleAddHash};
use r1cs_circuit::merkle::MerkleTree;

fn big(values: &[i64]) -> Vec<BigInt> {
    values.iter().map(|v| BigInt::from(*v)).collect()
}

/// The root by recursion on the levels.
fn root_by_levels<H: HashFunction>(nodes: &[BigInt], hash_function: &H) -> BigInt {
    if nodes.len() == 1 {
        return nodes[0].clone();
    }
    let mut above = Vec::new();
    let mut i = 0;
    while i < nodes.len() {
        if i + 1 < nodes.len() {
            above.push(hash_function.hash(&nodes[i], &nodes[i + 1]));
        } else {
            above.push(nodes[i].clone());
        }
        i += 2;
    }
    root_by_levels(&above, hash_function)
}

/// The root by recursion on the tree: the hash of the root over the leaves
/// under the left child, of which there are the largest power of two below
/// the number of leaves, and the root over the rest.
fn root_by_halves<H: HashFunction>(nodes: &[BigInt], hash_function: &H) -> BigInt {
    if nodes.len() == 1 {
        return nodes[0].clone();
    }
    let mut span = 1;
    while span * 2 < nodes.len() {
        span *= 2;
    }
    hash_function.hash(
        &root_by_halves(&nodes[..span], hash_function),
        &root_by_halves(&nodes[span..], hash_function),
    )
}

fn replay<H: HashFunction>(leaf: &BigInt, path: &[(BigInt, bool)], hash_function: &H) -> BigInt {
    let mut current = leaf.clone();
    for (sibling, is_left) in path {
        current = if *is_left {
            hash_function.hash(sibling, &current)
        } else {
            hash_function.hash(&current, sibling)
        };
    }
    current
}

#[test]
fn root_of_one_leaf_is_the_leaf() {
    let leaves = big(&[7]);
    assert_eq!(MerkleTree::compute_root(&leaves, &SimpleAddHash), BigInt::from(7));
    assert_eq!(MerkleTree::new(leaves, SimpleAddHash).root, BigInt::from(7));
}

#[test]
fn root_of_two_leaves_is_their_hash() {
    assert_eq!(MerkleTree::compute_root(&big(&[3, 5]), &SimpleAddHash), BigInt::from(8));
}

#[test]
fn root_of_three_leaves() {
    // level 1: [3 + 5, 4]; root: 8 + 4
    assert_eq!(MerkleTree::compute_root(&big(&[3, 5, 4]), &SimpleAddHash), BigInt::from(12));
}

#[test]
fn root_of_four_leaves() {
    // level 1: [10 + 20, 50 + 80]; root: 30 + 130
    let tree = MerkleTree::new(big(&[10, 20, 50, 80]), SimpleAddHash);
    assert_eq!(tree.root, BigInt::from(160));
    assert_eq!(tree.leaves, big(&[10, 20, 50, 80]));
}

#[test]
fn root_of_negative_and_large_leaves() {
    let large: BigInt = BigInt::from(i64::MAX) * BigInt::from(i64::MAX);
    let leaves = vec![large.clone(), BigInt::from(-5), large.clone()];
    let expected = &large + &large - BigInt::from(5);
    assert_eq!(MerkleTree::compute_root(&leaves, &CustomHash), expected);
}

#[test]
fn root_agrees_with_direct_recursion() {
    for n in 1..=33i64 {
        let leaves: Vec<BigInt> = (0..n).map(|v| BigInt::from(v * v + 3)).collect();
        let root = MerkleTree::compute_root(&leaves, &SimpleAddHash);
        assert_eq!(root, root_by_levels(&leaves, &SimpleAddHash));
        assert_eq!(root, root_by_halves(&leaves, &SimpleAddHash));
        assert_eq!(root, leaves.iter().sum::<BigInt>());
        assert_eq!(MerkleTree::compute_root(&leaves, &CustomHash), root);
    }
}

#[test]
fn path_of_leaf_two_of_four() {
    let tree = MerkleTree::new(big(&[10, 20, 50, 80]), CustomHash);
    let path = tree.merkle_path(2);
    assert_eq!(path.len(), 2);
    assert_eq!(path, vec![(BigInt::from(80), true), (BigInt::from(30), false)]);
    let root = MerkleTree::compute_root(&big(&[10, 20, 50, 80]), &CustomHash);
    assert_eq!(replay(&BigInt::from(50), &path, &CustomHash), root);
    assert_eq!(root, tree.root);
}

#[test]
fn path_of_an_odd_position() {
    let tree = MerkleTree::new(big(&[10, 20, 50, 80]), CustomHash);
    assert_eq!(
        tree.merkle_path(1),
        vec![(BigInt::from(10), false), (BigInt::from(130), true)]
    );
}

#[test]
fn lone_last_leaf_has_no_entry_at_its_level() {
    let tree = MerkleTree::new(big(&[3, 5, 4]), SimpleAddHash);
    assert_eq!(tree.merkle_path(2), vec![(BigInt::from(8), false)]);
    assert_eq!(
        tree.merkle_path(0),
        vec![(BigInt::from(5), true), (BigInt::from(4), true)]
    );
}

#[test]
fn single_leaf_has_an_empty_path() {
    let tree = MerkleTree::new(big(&[9]), SimpleAddHash);
    assert_eq!(tree.merkle_path(0), vec![]);
}

#[test]
fn path_of_a_position_past_the_leaves() {
    let four = MerkleTree::new(big(&[10, 20, 50, 80]), SimpleAddHash);
    assert_eq!(four.merkle_path(4), vec![]);
    assert_eq!(four.merkle_path(5), vec![]);
    assert_eq!(four.merkle_path(usize::MAX), vec![]);
    let three = MerkleTree::new(big(&[3, 5, 4]), SimpleAddHash);
    assert_eq!(
        three.merkle_path(3),
        vec![(BigInt::from(4), false), (BigInt::from(8), false)]
    );
}

#[test]
fn replaying_reproduces_the_root_for_every_leaf() {
    for n in 1..=17usize {
        let leaves: Vec<BigInt> = (0..n).map(|v| BigInt::from(3 * v + 1)).collect();
        let tree = MerkleTree::new(leaves.clone(), SimpleAddHash);
        for index in 0..n {
            let path = tree.merkle_path(index);
            assert_eq!(replay(&leaves[index], &path, &SimpleAddHash), tree.root);
        }
    }
}

#[test]
fn path_is_as_long_as_the_tree_is_high_for_a_full_tree() {
    let tree = MerkleTree::new(big(&[1, 2, 3, 4, 5, 6, 7, 8]), SimpleAddHash);
    for index in 0..8 {
        assert_eq!(tree.merkle_path(index).len(), 3);
    }
}

#[test]
fn path_is_shorter_where_a_node_passes_through() {
    let tree = MerkleTree::new(big(&[1, 2, 3, 4, 5]), SimpleAddHash);
    assert_eq!(tree.merkle_path(0).len(), 3);
    assert_eq!(tree.merkle_path(4), vec![(BigInt::from(10), false)]);
}

#[test]
fn both_hashes_are_addition() {
    let a = BigInt::from(123456789);
    let b = BigInt::from(-987654321);
    assert_eq!(SimpleAddHash.hash(&a, &b), BigInt::from(-864197532));
    assert_eq!(CustomHash.hash(&a, &b), BigInt::from(-864197532));
}
