use rayhunter_tools::split::{first_occurrence_flags, message_hash, message_hashes, unique_hashes};

#[test]
fn hash_of_empty_message() {
    assert_eq!(message_hash(b""), 0x2D06800538D394C2);
}

#[test]
fn hash_matches_xxh3() {
    assert_eq!(message_hash(b"abc"), xxhash_rust::xxh3::xxh3_64(b"abc"));
    assert_ne!(message_hash(b"abc"), message_hash(b"abd"));
}

#[test]
fn hashes_in_order() {
    let msgs = vec![b"a".to_vec(), b"b".to_vec(), b"a".to_vec()];
    let h = message_hashes(&msgs);
    assert_eq!(h.len(), 3);
    assert_eq!(h[0], message_hash(b"a"));
    assert_eq!(h[1], message_hash(b"b"));
    assert_eq!(h[0], h[2]);
}

#[test]
fn first_occurrences_marked() {
    let flags = first_occurrence_flags(&vec![5, 7, 5, 5, 9, 7]);
    assert_eq!(flags, vec![true, true, false, false, true, false]);
    assert!(first_occurrence_flags(&vec![]).is_empty());
}

#[test]
fn unique_hashes_in_first_order() {
    assert_eq!(unique_hashes(&vec![5, 7, 5, 5, 9, 7]), vec![5, 7, 9]);
    assert_eq!(unique_hashes(&vec![1, 1, 1]), vec![1]);
    assert!(unique_hashes(&vec![]).is_empty());
}

#[test]
fn unique_count_is_number_of_first_occurrences() {
    let hashes = vec![3, 1, 4, 1, 5, 9, 2, 6, 5, 3, 5];
    let unique = unique_hashes(&hashes);
    let firsts = first_occurrence_flags(&hashes).iter().filter(|f| **f).count();
    assert_eq!(unique.len(), firsts);
    assert_eq!(unique.len(), 7);
}
