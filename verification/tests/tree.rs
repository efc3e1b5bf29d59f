use merkle_tree::error::tree_error::TreeErrorKind;
use merkle_tree::hash::Sha256;
use merkle_tree::utils::{full_root_hash, raw_leaves_to_hashed_leaves};
use merkle_tree::{Keccak256, Keccak256Tree, MerkleTree, Sha256Tree, Sha512, Sha512Tree, ToHash};

fn five_leaves() -> Vec<[u8; 32]> {
    raw_leaves_to_hashed_leaves::<Sha256>(&["0", "1", "2", "3", "4"])
}

#[test]
fn test_empty_tree_returns_error() {
    let tree = Sha256Tree::from_leaves(&[]);
    assert_eq!(
        tree.root_hash().unwrap_err().kind(),
        &TreeErrorKind::TreeEmpty
    );
}

#[test]
fn test_valid_root_hash() {
    let leaves_raw = ["0", "1", "2", "3", "4"];
    let leaves = raw_leaves_to_hashed_leaves::<Sha256>(&leaves_raw);

    let tree = Sha256Tree::from_leaves(&leaves);
    assert_eq!(tree.root_hash().unwrap(), full_root_hash::<Sha256>(&leaves));
}

#[test]
fn test_proof() {
    let leaves_raw = ["0", "1", "2", "3", "4"];
    let leaves = raw_leaves_to_hashed_leaves::<Sha256>(&leaves_raw);

    let expected_proof = vec![leaves[2], Sha256::combine(leaves[0], leaves[1]), leaves[4]];

    let tree = Sha256Tree::from_leaves(&leaves);
    assert_eq!(tree.get_proof(leaves[3]).unwrap(), expected_proof);
}

#[test]
fn root_of_five_leaves_has_the_known_bytes() {
    let tree = Sha256Tree::from_leaves(&five_leaves());
    let expected: [u8; 32] = [
        79, 188, 211, 24, 18, 206, 74, 81, 223, 16, 54, 39, 77, 67, 62, 72, 61, 164, 15, 45, 199,
        119, 195, 239, 187, 172, 49, 64, 115, 159, 58, 83,
    ];
    assert_eq!(tree.root_hash().unwrap(), expected);
}

#[test]
fn appended_leaves_give_the_same_root_as_initial_leaves() {
    let leaves = five_leaves();
    let mut tree = Sha256Tree::new();
    for leaf in &leaves {
        tree.append(*leaf);
    }
    assert_eq!(
        tree.root_hash().unwrap(),
        Sha256Tree::from_leaves(&leaves).root_hash().unwrap()
    );
}

#[test]
fn default_tree_is_empty() {
    let tree: Sha256Tree = MerkleTree::default();
    assert_eq!(
        tree.root_hash().unwrap_err().kind(),
        &TreeErrorKind::TreeEmpty
    );
}

#[test]
fn new_tree_is_empty_until_a_leaf_is_appended() {
    let mut tree = Sha512Tree::new();
    assert_eq!(
        tree.root_hash().unwrap_err().kind(),
        &TreeErrorKind::TreeEmpty
    );
    let leaf = Sha512::hash(b"leaf");
    tree.append(leaf);
    assert_eq!(tree.root_hash().unwrap(), leaf);
}

#[test]
fn proof_of_an_empty_tree_fails_with_tree_empty() {
    let tree = Sha256Tree::new();
    let error = tree.get_proof(Sha256::hash(b"0")).unwrap_err();
    assert_eq!(error.kind(), &TreeErrorKind::TreeEmpty);
    assert_eq!(error.message(), "Tree must contain at least a single leaf");
}

#[test]
fn repeated_root_queries_agree() {
    let tree = Sha256Tree::from_leaves(&five_leaves());
    let first = tree.root_hash().unwrap();
    let second = tree.root_hash().unwrap();
    assert_eq!(first, second);
    let _ = tree.get_proof(five_leaves()[1]).unwrap();
    assert_eq!(tree.root_hash().unwrap(), first);
}

#[test]
fn single_leaf_is_its_own_root_with_an_empty_proof() {
    let leaf = Sha256::hash(b"only");
    let tree = Sha256Tree::from_leaves(&[leaf]);
    assert_eq!(tree.root_hash().unwrap(), leaf);
    assert_eq!(tree.get_proof(leaf).unwrap(), Vec::<[u8; 32]>::new());
}

#[test]
fn two_leaves_reduce_to_their_parent() {
    let a = Keccak256::hash(b"a");
    let b = Keccak256::hash(b"b");
    let tree = Keccak256Tree::from_leaves(&[a, b]);
    assert_eq!(tree.root_hash().unwrap(), Keccak256::combine(a, b));
    assert_eq!(tree.get_proof(a).unwrap(), vec![b]);
    assert_eq!(tree.get_proof(b).unwrap(), vec![a]);
}

#[test]
fn third_of_three_leaves_is_carried_up() {
    let a = Sha256::hash(b"A");
    let b = Sha256::hash(b"B");
    let c = Sha256::hash(b"C");
    let tree = Sha256Tree::from_leaves(&[a, b, c]);
    assert_eq!(
        tree.root_hash().unwrap(),
        Sha256::combine(Sha256::combine(a, b), c)
    );
    assert_eq!(tree.get_proof(a).unwrap(), vec![b, c]);
    assert_eq!(tree.get_proof(b).unwrap(), vec![a, c]);
    assert_eq!(tree.get_proof(c).unwrap(), vec![Sha256::combine(a, b)]);
}

#[test]
fn four_leaves_reduce_in_two_levels() {
    let leaves = raw_leaves_to_hashed_leaves::<Sha512>(&["w", "x", "y", "z"]);
    let tree = Sha512Tree::from_leaves(&leaves);
    let left = Sha512::combine(leaves[0], leaves[1]);
    let right = Sha512::combine(leaves[2], leaves[3]);
    assert_eq!(tree.root_hash().unwrap(), Sha512::combine(left, right));
    assert_eq!(tree.get_proof(leaves[2]).unwrap(), vec![leaves[3], left]);
}

#[test]
fn proof_for_a_digest_that_no_pair_holds_is_empty() {
    let tree = Sha256Tree::from_leaves(&five_leaves());
    assert_eq!(
        tree.get_proof(Sha256::hash(b"absent")).unwrap(),
        Vec::<[u8; 32]>::new()
    );
}

#[test]
fn proof_of_the_carried_leaf_of_five() {
    let leaves = five_leaves();
    let tree = Sha256Tree::from_leaves(&leaves);
    let level_two = Sha256::combine(
        Sha256::combine(leaves[0], leaves[1]),
        Sha256::combine(leaves[2], leaves[3]),
    );
    assert_eq!(tree.get_proof(leaves[4]).unwrap(), vec![level_two]);
}

#[test]
fn equal_pair_adds_one_digest_to_the_path() {
    let a = Sha256::hash(&[48]);
    let tree = Sha256Tree::from_leaves(&[a, a]);
    assert_eq!(tree.root_hash().unwrap(), Sha256::combine(a, a));
    assert_eq!(tree.get_proof(a).unwrap(), vec![a]);
}

#[test]
fn third_leaf_equal_to_the_first_is_followed_from_the_first() {
    let a = Sha256::hash(b"A");
    let b = Sha256::hash(b"B");
    let tree = Sha256Tree::from_leaves(&[a, b, a]);
    assert_eq!(tree.get_proof(a).unwrap(), vec![b, a]);
}

#[test]
fn leaf_equal_to_the_parent_beside_it_adds_one_digest() {
    let a = Sha256::hash(b"A");
    let b = Sha256::hash(b"B");
    let parent = Sha256::combine(a, b);
    let tree = Sha256Tree::from_leaves(&[a, b, parent]);
    assert_eq!(tree.get_proof(a).unwrap(), vec![b, parent]);
    assert_eq!(tree.get_proof(parent).unwrap(), vec![parent]);
}

#[test]
fn process_leaves_in_pairs_builds_the_level_above() {
    let leaves = five_leaves();
    let mut path = Vec::new();
    let (above, target) =
        Sha256Tree::process_leaves_in_pairs(&leaves, true, Some(leaves[3]), &mut path).unwrap();
    let left = Sha256::combine(leaves[0], leaves[1]);
    let right = Sha256::combine(leaves[2], leaves[3]);
    assert_eq!(above, vec![left, right, leaves[4]]);
    assert_eq!(target, Some(right));
    assert_eq!(path, vec![leaves[2]]);
}

#[test]
fn process_leaves_in_pairs_without_a_path_leaves_the_path_alone() {
    let leaves = five_leaves();
    let mut path = vec![leaves[0]];
    let (above, target) =
        Sha256Tree::process_leaves_in_pairs(&leaves, false, None, &mut path).unwrap();
    assert_eq!(above.len(), 3);
    assert_eq!(target, None);
    assert_eq!(path, vec![leaves[0]]);
}

#[test]
fn process_leaves_in_pairs_without_a_target_fails() {
    let leaves = five_leaves();
    let mut path = Vec::new();
    let error =
        Sha256Tree::process_leaves_in_pairs(&leaves, true, None, &mut path).unwrap_err();
    assert_eq!(error.kind(), &TreeErrorKind::PathLeafEmpty);
    assert!(path.is_empty());
}

#[test]
fn process_leaves_in_pairs_without_a_pair_needs_no_target() {
    let leaf = Sha256::hash(b"only");
    let mut path = Vec::new();
    let (above, target) =
        Sha256Tree::process_leaves_in_pairs(&vec![leaf], true, None, &mut path).unwrap();
    assert_eq!(above, vec![leaf]);
    assert_eq!(target, None);
    assert!(path.is_empty());
}

#[test]
fn reduce_tree_ends_in_the_root_and_the_proof() {
    let leaves = five_leaves();
    let mut path = Vec::new();
    let (top, target) =
        Sha256Tree::reduce_tree(&leaves, true, Some(leaves[3]), &mut path).unwrap();
    let root = full_root_hash::<Sha256>(&leaves);
    assert_eq!(top, vec![root]);
    assert_eq!(target, Some(root));
    assert_eq!(
        path,
        vec![leaves[2], Sha256::combine(leaves[0], leaves[1]), leaves[4]]
    );
}

#[test]
fn reduce_tree_without_a_target_fails() {
    let leaves = five_leaves();
    let mut path = Vec::new();
    let error = Sha256Tree::reduce_tree(&leaves, true, None, &mut path).unwrap_err();
    assert_eq!(error.kind(), &TreeErrorKind::PathLeafEmpty);
    assert_eq!(
        error.message(),
        "Current path leaf must be set to analyse path"
    );
}

#[test]
fn reduce_tree_of_nothing_is_nothing() {
    let mut path = Vec::new();
    let (top, target) = Sha256Tree::reduce_tree(&Vec::new(), false, None, &mut path).unwrap();
    assert!(top.is_empty());
    assert_eq!(target, None);
}

#[test]
fn add_to_path_without_a_target_fails() {
    let a = Sha256::hash(b"a");
    let b = Sha256::hash(b"b");
    let mut path = Vec::new();
    let error =
        Sha256Tree::add_to_path(None, &mut path, a, b, Sha256::combine(a, b)).unwrap_err();
    assert_eq!(error.kind(), &TreeErrorKind::PathLeafEmpty);
    assert!(path.is_empty());
}

#[test]
fn add_to_path_takes_the_sibling_of_the_target() {
    let a = Sha256::hash(b"a");
    let b = Sha256::hash(b"b");
    let c = Sha256::hash(b"c");
    let parent = Sha256::combine(a, b);

    let mut path = Vec::new();
    let target = Sha256Tree::add_to_path(Some(a), &mut path, a, b, parent).unwrap();
    assert_eq!(target, Some(parent));
    assert_eq!(path, vec![b]);

    let mut path = Vec::new();
    let target = Sha256Tree::add_to_path(Some(b), &mut path, a, b, parent).unwrap();
    assert_eq!(target, Some(parent));
    assert_eq!(path, vec![a]);

    let mut path = vec![a];
    let target = Sha256Tree::add_to_path(Some(c), &mut path, a, b, parent).unwrap();
    assert_eq!(target, Some(c));
    assert_eq!(path, vec![a]);
}

#[test]
fn add_to_path_adds_one_digest_where_both_are_the_target() {
    let t = Sha256::hash(b"t");
    let before = Sha256::hash(b"before");
    let parent = Sha256::combine(t, t);
    let mut path = vec![before];
    let target = Sha256Tree::add_to_path(Some(t), &mut path, t, t, parent).unwrap();
    assert_eq!(target, Some(parent));
    assert_eq!(path, vec![before, t]);
}
