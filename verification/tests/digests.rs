use rit::{digest, encode, hash_object, ContentDigest, GitObjectType};

#[test]
fn known_digest_of_a_blob() {
    let framed = encode(GitObjectType::Blob, b"what is up, doc?");
    let id = digest(&framed);
    assert_eq!(id.as_str(), "bd9dbf5aae1a3862dd1526723246b20206e5fc37");
}

#[test]
fn known_digest_of_the_empty_blob() {
    let hashed = hash_object(GitObjectType::Blob, b"");
    assert_eq!(hashed.framed, b"blob 0\x00".to_vec());
    assert_eq!(hashed.digest.as_str(), "e69de29bb2d1d6434b8b29ae775ad8c2e48c5391");
}

#[test]
fn known_digest_of_the_empty_tree() {
    let hashed = hash_object(GitObjectType::Tree, b"");
    assert_eq!(hashed.digest.as_str(), "4b825dc642cb6eb9a060e54bf8d69288fbee4904");
}

#[test]
fn known_digest_of_a_line_of_text() {
    let hashed = hash_object(GitObjectType::Blob, b"hello world\n");
    assert_eq!(hashed.digest.as_str(), "3b18e512dba79e4c8300dd08aeb37f8e728b8dad");
}

#[test]
fn digest_of_raw_bytes_is_their_sha1_in_lowercase_hex() {
    assert_eq!(digest(b"").as_str(), "da39a3ee5e6b4b0d3255bfef95601890afd80709");
    assert_eq!(digest(b"abc").as_str(), "a9993e364706816aba3e25717850c26c9cd0d89d");
    assert_eq!(digest(b"hello world").as_str(), "2aae6c35c94fcfb415dbe95f408b9ce91ee846ed");
}

#[test]
fn digest_covers_the_whole_frame_not_the_payload_alone() {
    let hashed = hash_object(GitObjectType::Blob, b"abc");
    assert_ne!(hashed.digest.as_str(), digest(b"abc").as_str());
    assert_eq!(hashed.digest, digest(b"blob 3\x00abc"));
}

#[test]
fn digest_is_forty_lowercase_hex_characters() {
    let mut payload: Vec<u8> = Vec::new();
    for round in 0..64u8 {
        payload.push(round.wrapping_mul(37));
        let text = hash_object(GitObjectType::Blob, &payload).digest.as_str().to_string();
        assert_eq!(text.len(), 40);
        assert!(text.bytes().all(|b| b.is_ascii_digit() || (b'a'..=b'f').contains(&b)));
    }
}

#[test]
fn hashing_twice_gives_the_same_result() {
    let payload = b"the same bytes every time".to_vec();
    for kind in [GitObjectType::Blob, GitObjectType::Tree, GitObjectType::Tag, GitObjectType::Commit] {
        let first = hash_object(kind, &payload);
        let second = hash_object(kind, &payload);
        assert_eq!(first.framed, second.framed);
        assert_eq!(first.digest, second.digest);
        assert_eq!(first, second);
    }
}

#[test]
fn same_payload_under_another_tag_has_another_digest() {
    let blob = hash_object(GitObjectType::Blob, b"payload");
    let tree = hash_object(GitObjectType::Tree, b"payload");
    let tag = hash_object(GitObjectType::Tag, b"payload");
    let commit = hash_object(GitObjectType::Commit, b"payload");
    assert_ne!(blob.digest, tree.digest);
    assert_ne!(blob.digest, tag.digest);
    assert_ne!(blob.digest, commit.digest);
    assert_ne!(tree.digest, tag.digest);
    assert_ne!(tree.digest, commit.digest);
    assert_ne!(tag.digest, commit.digest);
}

#[test]
fn another_payload_under_the_same_tag_has_another_digest() {
    let first = hash_object(GitObjectType::Blob, b"payload a");
    let second = hash_object(GitObjectType::Blob, b"payload b");
    assert_ne!(first.digest, second.digest);
}

#[test]
fn empty_and_non_empty_payloads_have_different_digests() {
    let empty = hash_object(GitObjectType::Blob, b"");
    let one = hash_object(GitObjectType::Blob, b"\x00");
    assert_ne!(empty.digest, one.digest);
}

#[test]
fn digest_text_is_read_back() {
    let text = "bd9dbf5aae1a3862dd1526723246b20206e5fc37";
    let parsed = ContentDigest::from_hex(text).expect("a well-formed digest");
    assert_eq!(parsed.as_str(), text);
    assert_eq!(parsed, digest(b"blob 16\x00what is up, doc?"));
    assert_eq!(parsed.clone(), parsed);
}

#[test]
fn digest_text_of_the_wrong_length_is_refused() {
    assert_eq!(ContentDigest::from_hex(""), None);
    assert_eq!(ContentDigest::from_hex("bd"), None);
    assert_eq!(ContentDigest::from_hex("bd9dbf5aae1a3862dd1526723246b20206e5fc3"), None);
    assert_eq!(ContentDigest::from_hex("bd9dbf5aae1a3862dd1526723246b20206e5fc370"), None);
}

#[test]
fn digest_text_with_other_characters_is_refused() {
    assert_eq!(ContentDigest::from_hex("BD9DBF5AAE1A3862DD1526723246B20206E5FC37"), None);
    assert_eq!(ContentDigest::from_hex("gd9dbf5aae1a3862dd1526723246b20206e5fc37"), None);
    assert_eq!(ContentDigest::from_hex("bd9dbf5aae1a3862dd15 6723246b20206e5fc37"), None);
    assert_eq!(ContentDigest::from_hex("bd9dbf5aae1a3862dd1526723246b20206e5fc3/"), None);
    assert_eq!(ContentDigest::from_hex("bd9dbf5aae1a3862dd1526723246b20206e5fc3\u{e9}"), None);
}
