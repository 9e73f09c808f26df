use resharding::bytes::bytes_less;
use resharding::hash::CryptoHash;
use resharding::root::{compute_state_root, concat_leaf_hashes, root_of_leaf_hashes};
use resharding::shard_uid::ShardUId;
use resharding::split::{replay_split, retain_split_shard};
use resharding::trie::{retain_entries, RetainMode, TrieEntry};

fn entry(account: &str, value: u8) -> TrieEntry {
    TrieEntry::new(account.as_bytes().to_vec(), vec![], vec![value])
}

fn accounts(entries: &[TrieEntry]) -> Vec<String> {
    entries.iter().map(|e| String::from_utf8(e.account.clone()).unwrap()).collect()
}

fn hex(h: &CryptoHash) -> String {
    h.0.iter().map(|b| format!("{:02x}", b)).collect()
}

fn parent_amz() -> Vec<TrieEntry> {
    vec![entry("a", 1), entry("m", 2), entry("z", 3)]
}

#[test]
fn minimal_split_keeps_each_account_on_its_side() {
    let parent = parent_amz();
    let boundary = b"m".to_vec();
    let left = retain_split_shard(&parent, &boundary, RetainMode::Left);
    let right = retain_split_shard(&parent, &boundary, RetainMode::Right);
    assert_eq!(accounts(&left.entries), vec!["a"]);
    assert_eq!(left.entries[0].value, vec![1]);
    assert_eq!(accounts(&right.entries), vec!["m", "z"]);
    assert_eq!(right.entries[0].value, vec![2]);
    assert_eq!(right.entries[1].value, vec![3]);
    // One witness record per parent entry: kept entries in full, dropped ones by hash.
    assert_eq!(left.witness.len(), 3);
    assert_eq!(left.witness[0][0], 1);
    assert_eq!(left.witness[1][0], 0);
    assert_eq!(left.witness[1].len(), 33);
    assert_eq!(left.witness[2][0], 0);
    assert_eq!(right.witness[0][0], 0);
    assert_eq!(right.witness[1][0], 1);
    assert_eq!(right.witness[2][0], 1);
}

#[test]
fn split_roots_match_roots_built_from_scratch() {
    let parent = parent_amz();
    let boundary = b"m".to_vec();
    for mode in [RetainMode::Left, RetainMode::Right] {
        let split = retain_split_shard(&parent, &boundary, mode);
        let kept = retain_entries(&parent, &boundary, mode);
        assert_eq!(hex(&split.state_root), hex(&compute_state_root(&kept)));
    }
}

#[test]
fn boundary_at_first_key_leaves_left_empty() {
    let parent = vec![entry("m", 1), entry("n", 2), entry("o", 3)];
    let boundary = b"m".to_vec();
    let left = retain_split_shard(&parent, &boundary, RetainMode::Left);
    let right = retain_split_shard(&parent, &boundary, RetainMode::Right);
    assert!(left.entries.is_empty());
    assert_eq!(left.state_root.0, [0u8; 32]);
    assert_eq!(hex(&right.state_root), hex(&compute_state_root(&parent)));
}

#[test]
fn witness_replays_to_child_root() {
    let parent = parent_amz();
    let parent_root = compute_state_root(&parent);
    let boundary = b"m".to_vec();
    for mode in [RetainMode::Left, RetainMode::Right] {
        let split = retain_split_shard(&parent, &boundary, mode);
        let replayed = replay_split(&parent_root, &split.witness).expect("witness must replay");
        assert_eq!(hex(&replayed), hex(&split.state_root));
    }
}

#[test]
fn witness_against_wrong_root_is_rejected() {
    let parent = parent_amz();
    let split = retain_split_shard(&parent, &b"m".to_vec(), RetainMode::Left);
    assert!(replay_split(&CryptoHash([7u8; 32]), &split.witness).is_none());
    let mut bad = split.witness.clone();
    bad[0][0] = 2;
    assert!(replay_split(&compute_state_root(&parent), &bad).is_none());
}

#[test]
fn split_is_total_and_disjoint() {
    let parent = vec![entry("alice", 1), entry("bob", 2), entry("carol", 3), entry("dave", 4)];
    let boundary = b"bz".to_vec();
    let left = retain_entries(&parent, &boundary, RetainMode::Left);
    let right = retain_entries(&parent, &boundary, RetainMode::Right);
    assert_eq!(left.len() + right.len(), parent.len());
    assert_eq!(accounts(&left), vec!["alice", "bob"]);
    assert_eq!(accounts(&right), vec!["carol", "dave"]);
}

#[test]
fn boundary_account_itself_goes_right() {
    let parent = vec![entry("b", 1), entry("ba", 2), entry("a", 3)];
    let boundary = b"b".to_vec();
    assert_eq!(accounts(&retain_entries(&parent, &boundary, RetainMode::Left)), vec!["a"]);
    assert_eq!(accounts(&retain_entries(&parent, &boundary, RetainMode::Right)), vec!["b", "ba"]);
}

#[test]
fn account_order_is_lexicographic_on_bytes() {
    assert!(bytes_less(&b"a".to_vec(), &b"b".to_vec()));
    assert!(bytes_less(&b"ab".to_vec(), &b"b".to_vec()));
    assert!(bytes_less(&b"".to_vec(), &b"a".to_vec()));
    assert!(bytes_less(&b"a".to_vec(), &b"aa".to_vec()));
    assert!(!bytes_less(&b"b".to_vec(), &b"b".to_vec()));
    assert!(!bytes_less(&b"ba".to_vec(), &b"b".to_vec()));
}

#[test]
fn empty_state_has_zero_root() {
    assert_eq!(compute_state_root(&vec![]).0, [0u8; 32]);
    assert_eq!(root_of_leaf_hashes(&vec![]).0, [0u8; 32]);
}

#[test]
fn root_of_leaves_is_sha256_of_their_concatenation() {
    let leaves = vec![CryptoHash([1u8; 32]), CryptoHash([2u8; 32])];
    let bytes = concat_leaf_hashes(&leaves);
    assert_eq!(bytes.len(), 64);
    assert_eq!(bytes[0], 1);
    assert_eq!(bytes[63], 2);
    assert_eq!(
        hex(&root_of_leaf_hashes(&leaves)),
        "f818afd37a6dc3bc92fb44731011277006db4efa6e9023cd7468c02335d22a4d"
    );
}

#[test]
fn state_roots_of_minimal_split() {
    let parent = parent_amz();
    let boundary = b"m".to_vec();
    assert_eq!(
        hex(&compute_state_root(&parent)),
        "340d44ffc752aee28103650e48e2d8a041eced42c2a99e3ccc7e39acf80fb05b"
    );
    assert_eq!(
        hex(&retain_split_shard(&parent, &boundary, RetainMode::Left).state_root),
        "3b850ca11794080201f19b583ff014d62c9ce7aefe3d2c51121c6f6386f52afb"
    );
    assert_eq!(
        hex(&retain_split_shard(&parent, &boundary, RetainMode::Right).state_root),
        "beae4b6772708b97f9896b9e2194f0fa8edb21d1cdde9d431a9f1ae578fafb4f"
    );
}

#[test]
fn shard_uid_bytes_are_version_then_id_little_endian() {
    let uid = ShardUId::new(3, 0x01020304);
    assert_eq!(uid.to_bytes(), vec![3, 0, 0, 0, 4, 3, 2, 1]);
}
