use fuse::model::formats::gguf::{GgufFile, GGUF_MAGIC, GGUF_VERSION_3};
use fuse::model::formats::tensor_data::{range_fits_exec, MmapModel};

fn file_with_tensor(dims: &[u64], ty: u32, offset: u64) -> Vec<u8> {
    let mut buf = Vec::new();
    buf.extend_from_slice(&GGUF_MAGIC.to_le_bytes());
    buf.extend_from_slice(&GGUF_VERSION_3.to_le_bytes());
    buf.extend_from_slice(&1u64.to_le_bytes());
    buf.extend_from_slice(&0u64.to_le_bytes());
    let name = "w";
    buf.extend_from_slice(&(name.len() as u64).to_le_bytes());
    buf.extend_from_slice(name.as_bytes());
    buf.extend_from_slice(&(dims.len() as u32).to_le_bytes());
    for d in dims {
        buf.extend_from_slice(&d.to_le_bytes());
    }
    buf.extend_from_slice(&ty.to_le_bytes());
    buf.extend_from_slice(&offset.to_le_bytes());
    buf
}

#[test]
fn tensor_ranges_within_the_file() {
    let mut data = file_with_tensor(&[4], 0, 0);
    let gguf = GgufFile::parse(&data).unwrap();
    let start = gguf.data_offset as usize;
    data.resize(start + 16, 7);
    let model = MmapModel::new(gguf, "model.gguf", data.len());
    let t = model.tensor_by_name("w").unwrap();
    assert_eq!(model.tensor_range(t).unwrap(), (start, start + 16));
    assert_eq!(model.tensor_count(), 1);
    assert_eq!(model.file_size(), data.len() as u64);
    assert_eq!(model.tensor_by_name("x").unwrap_err().message(), "Tensor not found: x");
}

#[test]
fn tensor_range_past_the_end() {
    let data = file_with_tensor(&[4], 0, 8);
    let gguf = GgufFile::parse(&data).unwrap();
    let start = gguf.data_offset + 8;
    let model = MmapModel::new(gguf, "model.gguf", data.len());
    let t = model.tensor_by_name("w").unwrap();
    let msg = model.tensor_range(t).unwrap_err().message();
    assert_eq!(msg, format!("Tensor 'w' extends beyond file: offset={}, size=16, file_size={}", start, data.len()));
}

/// A complete GGUF file with one `weights` tensor of four f32 values.
fn create_test_gguf_bytes() -> Vec<u8> {
    let mut file = Vec::new();
    file.extend_from_slice(&GGUF_MAGIC.to_le_bytes());
    file.extend_from_slice(&GGUF_VERSION_3.to_le_bytes());
    file.extend_from_slice(&1u64.to_le_bytes());
    file.extend_from_slice(&1u64.to_le_bytes());
    let key = "general.architecture";
    file.extend_from_slice(&(key.len() as u64).to_le_bytes());
    file.extend_from_slice(key.as_bytes());
    file.extend_from_slice(&8u32.to_le_bytes());
    let val = "test";
    file.extend_from_slice(&(val.len() as u64).to_le_bytes());
    file.extend_from_slice(val.as_bytes());
    let name = "weights";
    file.extend_from_slice(&(name.len() as u64).to_le_bytes());
    file.extend_from_slice(name.as_bytes());
    file.extend_from_slice(&1u32.to_le_bytes());
    file.extend_from_slice(&4u64.to_le_bytes());
    file.extend_from_slice(&0u32.to_le_bytes());
    file.extend_from_slice(&0u64.to_le_bytes());
    let pos = file.len() as u64;
    let aligned = (pos + 31) & !31;
    file.extend(std::iter::repeat(0u8).take((aligned - pos) as usize));
    for v in [1.0f32, 2.0, 3.0, 4.0] {
        file.extend_from_slice(&v.to_le_bytes());
    }
    file
}

fn open_model(bytes: &[u8]) -> MmapModel {
    MmapModel::new(GgufFile::parse(bytes).unwrap(), "test.gguf", bytes.len())
}

#[test]
fn test_mmap_open() {
    let bytes = create_test_gguf_bytes();
    let model = open_model(&bytes);
    assert_eq!(model.tensor_count(), 1);
    assert!(model.file_size() > 0);
    assert_eq!(model.gguf.architecture(), Some("test"));
}

#[test]
fn test_mmap_tensor_data() {
    let bytes = create_test_gguf_bytes();
    let model = open_model(&bytes);
    let data = model.tensor_data_by_name(&bytes, "weights").unwrap();
    assert_eq!(data.len(), 16);
    let values: Vec<f32> =
        data.chunks_exact(4).map(|chunk| f32::from_le_bytes([chunk[0], chunk[1], chunk[2], chunk[3]])).collect();
    assert_eq!(values, vec![1.0, 2.0, 3.0, 4.0]);
}

#[test]
fn test_mmap_tensor_not_found() {
    let bytes = create_test_gguf_bytes();
    let model = open_model(&bytes);
    assert!(model.tensor_data_by_name(&bytes, "nonexistent").is_err());
}

#[test]
fn test_mmap_zero_copy() {
    let bytes = create_test_gguf_bytes();
    let model = open_model(&bytes);
    let data1 = model.tensor_data_by_name(&bytes, "weights").unwrap();
    let data2 = model.tensor_data_by_name(&bytes, "weights").unwrap();
    assert_eq!(data1.as_ptr(), data2.as_ptr());
}

#[test]
fn tensor_data_past_the_end_is_an_error() {
    let mut bytes = create_test_gguf_bytes();
    bytes.truncate(bytes.len() - 4);
    let model = open_model(&bytes);
    let msg = model.tensor_data_by_name(&bytes, "weights").unwrap_err().message();
    assert!(msg.starts_with("Tensor 'weights' extends beyond file"));
}

#[test]
fn range_check_refuses_overflowing_tensors() {
    let bytes = create_test_gguf_bytes();
    let model = open_model(&bytes);
    assert!(range_fits_exec(&model.gguf, &model.gguf.tensors[0]));
    let data = file_with_tensor(&[u64::MAX, 2], 0, 0);
    let gguf = GgufFile::parse(&data).unwrap();
    assert!(!range_fits_exec(&gguf, &gguf.tensors[0]));
}
