use fuse::model::delta::{DeltaApplier, DeltaChunk, DeltaManifest};

fn make_chunk(offset: u64, data: Vec<u8>) -> DeltaChunk {
    let hash = DeltaChunk::compute_hash(&data);
    DeltaChunk::new(offset, data, hash)
}

#[test]
fn test_chunk_creation() {
    let chunk = make_chunk(0, vec![1, 2, 3]);
    assert_eq!(chunk.offset, 0);
    assert_eq!(chunk.size, 3);
    assert!(!chunk.hash.is_empty());
}

#[test]
fn test_chunk_hash_deterministic() {
    let h1 = DeltaChunk::compute_hash(&[1, 2, 3]);
    let h2 = DeltaChunk::compute_hash(&[1, 2, 3]);
    assert_eq!(h1, h2);
}

#[test]
fn test_chunk_hash_differs_for_different_data() {
    let h1 = DeltaChunk::compute_hash(&[1, 2, 3]);
    let h2 = DeltaChunk::compute_hash(&[4, 5, 6]);
    assert_ne!(h1, h2);
}

#[test]
fn test_chunk_verify_valid() {
    let chunk = make_chunk(0, vec![10, 20, 30]);
    assert!(chunk.verify());
}

#[test]
fn test_chunk_verify_invalid() {
    let mut chunk = make_chunk(0, vec![10, 20, 30]);
    chunk.hash = "badhash".to_string();
    assert!(!chunk.verify());
}

#[test]
fn test_manifest_creation() {
    let m = DeltaManifest::new("v1", "v2", 100, "somehash");
    assert_eq!(m.base_version, "v1");
    assert_eq!(m.target_version, "v2");
    assert_eq!(m.target_size, 100);
    assert!(m.chunks.is_empty());
}

#[test]
fn test_manifest_add_chunk() {
    let mut m = DeltaManifest::new("v1", "v2", 100, "h");
    m.add_chunk(make_chunk(0, vec![1, 2]));
    m.add_chunk(make_chunk(2, vec![3, 4]));
    assert_eq!(m.chunks.len(), 2);
    assert_eq!(m.total_delta_size(), 4);
}

#[test]
fn test_manifest_validate_empty_version() {
    let m = DeltaManifest::new("", "v2", 100, "h");
    assert!(m.validate().is_err());
}

#[test]
fn test_manifest_validate_bad_chunk_hash() {
    let mut m = DeltaManifest::new("v1", "v2", 100, "h");
    let mut chunk = make_chunk(0, vec![1, 2, 3]);
    chunk.hash = "wrong".to_string();
    m.add_chunk(chunk);
    assert!(m.validate().is_err());
}

#[test]
fn test_apply_delta() {
    let base = vec![0u8; 8];
    let patch_data = vec![0xAA, 0xBB, 0xCC];
    let mut target = base.clone();
    target[2..5].copy_from_slice(&patch_data);
    let target_hash = DeltaChunk::compute_hash(&target);

    let mut manifest = DeltaManifest::new("v1", "v2", 8, &target_hash);
    manifest.add_chunk(make_chunk(2, patch_data));

    let result = DeltaApplier::apply(&base, &manifest).unwrap();
    assert_eq!(result, target);
}

#[test]
fn test_apply_delta_target_hash_mismatch() {
    let base = vec![0u8; 8];
    let mut manifest = DeltaManifest::new("v1", "v2", 8, "wronghash");
    manifest.add_chunk(make_chunk(0, vec![1]));
    assert!(DeltaApplier::apply(&base, &manifest).is_err());
}

#[test]
fn test_apply_delta_chunk_exceeds_size() {
    let base = vec![0u8; 4];
    let mut manifest = DeltaManifest::new("v1", "v2", 4, "h");
    manifest.add_chunk(make_chunk(3, vec![1, 2, 3])); // exceeds size
    assert!(DeltaApplier::apply(&base, &manifest).is_err());
}

#[test]
fn test_apply_grows_buffer() {
    let base = vec![0u8; 4];
    let target = vec![0u8; 8];
    let target_hash = DeltaChunk::compute_hash(&target);
    let manifest = DeltaManifest::new("v1", "v2", 8, &target_hash);
    let result = DeltaApplier::apply(&base, &manifest).unwrap();
    assert_eq!(result.len(), 8);
}

#[test]
fn compute_hash_is_fnv1a_hex() {
    // FNV-1a 64 of the empty input is the offset basis.
    assert_eq!(DeltaChunk::compute_hash(&[]), "cbf29ce484222325");
    assert_eq!(DeltaChunk::compute_hash(b"a"), "af63dc4c8601ec8c");
}

#[test]
fn apply_keeps_base_outside_chunks_and_cuts_to_target_size() {
    let base = vec![1u8, 2, 3, 4, 5, 6];
    let target = vec![1u8, 9, 3];
    let hash = DeltaChunk::compute_hash(&target);
    let mut manifest = DeltaManifest::new("v1", "v2", 3, &hash);
    manifest.add_chunk(make_chunk(1, vec![9]));
    assert_eq!(DeltaApplier::apply(&base, &manifest).unwrap(), target);

    let longer = vec![1u8, 2, 3, 4];
    let manifest = DeltaManifest::new("v1", "v2", 2, &DeltaChunk::compute_hash(&longer));
    assert!(DeltaApplier::apply(&longer, &manifest).is_err());
    let manifest = DeltaManifest::new("v1", "v2", 2, &DeltaChunk::compute_hash(&[1, 2]));
    assert_eq!(DeltaApplier::apply(&longer, &manifest).unwrap(), vec![1, 2]);
}
