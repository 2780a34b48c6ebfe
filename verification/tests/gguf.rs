use fuse::model::formats::ggml::{GgmlType, GgufTensorInfo};
use fuse::model::formats::gguf::{GgufFile, GGUF_MAGIC, GGUF_VERSION_3};
use fuse::model::formats::value::GgufValue;

fn create_test_gguf() -> Vec<u8> {
    let mut buf = Vec::new();
    buf.extend_from_slice(&GGUF_MAGIC.to_le_bytes());
    buf.extend_from_slice(&GGUF_VERSION_3.to_le_bytes());
    buf.extend_from_slice(&1u64.to_le_bytes());
    buf.extend_from_slice(&2u64.to_le_bytes());

    let key = "general.architecture";
    buf.extend_from_slice(&(key.len() as u64).to_le_bytes());
    buf.extend_from_slice(key.as_bytes());
    buf.extend_from_slice(&8u32.to_le_bytes());
    let val = "llama";
    buf.extend_from_slice(&(val.len() as u64).to_le_bytes());
    buf.extend_from_slice(val.as_bytes());

    let key = "general.name";
    buf.extend_from_slice(&(key.len() as u64).to_le_bytes());
    buf.extend_from_slice(key.as_bytes());
    buf.extend_from_slice(&8u32.to_le_bytes());
    let val = "test-model";
    buf.extend_from_slice(&(val.len() as u64).to_le_bytes());
    buf.extend_from_slice(val.as_bytes());

    let name = "weight";
    buf.extend_from_slice(&(name.len() as u64).to_le_bytes());
    buf.extend_from_slice(name.as_bytes());
    buf.extend_from_slice(&2u32.to_le_bytes());
    buf.extend_from_slice(&4u64.to_le_bytes());
    buf.extend_from_slice(&4u64.to_le_bytes());
    buf.extend_from_slice(&2u32.to_le_bytes());
    buf.extend_from_slice(&0u64.to_le_bytes());
    buf
}

#[test]
fn test_parse_header() {
    let data = create_test_gguf();
    let gguf = GgufFile::parse(&data).unwrap();
    assert_eq!(gguf.header.magic, GGUF_MAGIC);
    assert_eq!(gguf.header.version, GGUF_VERSION_3);
    assert_eq!(gguf.header.tensor_count, 1);
    assert_eq!(gguf.header.metadata_kv_count, 2);
}

#[test]
fn test_parse_metadata() {
    let data = create_test_gguf();
    let gguf = GgufFile::parse(&data).unwrap();
    assert_eq!(gguf.architecture(), Some("llama"));
    assert_eq!(gguf.model_name(), Some("test-model"));
}

#[test]
fn test_parse_tensor_info() {
    let data = create_test_gguf();
    let gguf = GgufFile::parse(&data).unwrap();
    assert_eq!(gguf.tensors.len(), 1);
    let tensor = &gguf.tensors[0];
    assert_eq!(tensor.name, "weight");
    assert_eq!(tensor.dimensions, vec![4, 4]);
    assert_eq!(tensor.ggml_type, GgmlType::Q4_0);
    assert_eq!(tensor.n_elements(), 16);
}

#[test]
fn test_invalid_magic() {
    let mut data = create_test_gguf();
    data[0] = 0xFF;
    assert!(GgufFile::parse(&data).is_err());
}

#[test]
fn truncated_file_is_an_error() {
    let data = create_test_gguf();
    for cut in [3usize, 10, 30, data.len() - 1] {
        assert!(GgufFile::parse(&data[..cut]).is_err());
    }
}

#[test]
fn unsupported_version_is_an_error() {
    let mut data = create_test_gguf();
    data[4] = 1;
    assert!(GgufFile::parse(&data).is_err());
}

#[test]
fn data_offset_is_aligned_to_32() {
    let data = create_test_gguf();
    let gguf = GgufFile::parse(&data).unwrap();
    assert_eq!(gguf.data_offset % 32, 0);
    assert!(gguf.data_offset >= data.len() as u64);
    assert!(gguf.data_offset < data.len() as u64 + 32);
}

#[test]
fn test_ggml_type_from_u32() {
    assert_eq!(GgmlType::from_u32(0).unwrap(), GgmlType::F32);
    assert_eq!(GgmlType::from_u32(2).unwrap(), GgmlType::Q4_0);
    assert_eq!(GgmlType::from_u32(12).unwrap(), GgmlType::Q4K);
    assert!(GgmlType::from_u32(255).is_err());
}

#[test]
fn ggml_codes_round_trip() {
    for code in 0u32..40 {
        if let Ok(t) = GgmlType::from_u32(code) {
            assert_eq!(t.code(), code);
        }
    }
    assert!(GgmlType::from_u32(4).is_err());
    assert!(GgmlType::from_u32(5).is_err());
}

#[test]
fn test_tensor_size_bytes() {
    let tensor = GgufTensorInfo { name: "test".to_string(), dimensions: vec![32], ggml_type: GgmlType::Q4_0, offset: 0 };
    assert_eq!(tensor.size_bytes(), 18);
    let tensor_f32 = GgufTensorInfo { name: "test".to_string(), dimensions: vec![10], ggml_type: GgmlType::F32, offset: 0 };
    assert_eq!(tensor_f32.size_bytes(), 40);
}

#[test]
fn test_tensor_size_f32() {
    let tensor = GgufTensorInfo { name: "test".to_string(), dimensions: vec![4], ggml_type: GgmlType::F32, offset: 0 };
    assert_eq!(tensor.size_bytes(), 16);
}

#[test]
fn test_write_parse_roundtrip() {
    let data = create_test_gguf();
    let gguf = GgufFile::parse(&data).unwrap();
    let mut output = Vec::new();
    gguf.write(&mut output).unwrap();
    let gguf2 = GgufFile::parse(&output).unwrap();
    assert_eq!(gguf2.header.version, gguf.header.version);
    assert_eq!(gguf2.header.tensor_count, gguf.header.tensor_count);
    assert_eq!(gguf2.architecture(), gguf.architecture());
    assert_eq!(gguf2.model_name(), gguf.model_name());
    assert_eq!(gguf2.tensors.len(), gguf.tensors.len());
    assert_eq!(gguf2.tensors[0].name, gguf.tensors[0].name);
    assert_eq!(gguf2.tensors[0].ggml_type, gguf.tensors[0].ggml_type);
}

#[test]
fn written_file_is_the_parsed_bytes() {
    let data = create_test_gguf();
    let gguf = GgufFile::parse(&data).unwrap();
    let mut output = Vec::new();
    gguf.write(&mut output).unwrap();
    assert_eq!(output, data);
}

#[test]
fn test_metadata_value_types() {
    let mut buf = Vec::new();
    buf.extend_from_slice(&GGUF_MAGIC.to_le_bytes());
    buf.extend_from_slice(&GGUF_VERSION_3.to_le_bytes());
    buf.extend_from_slice(&0u64.to_le_bytes());
    buf.extend_from_slice(&3u64.to_le_bytes());

    let key = "count";
    buf.extend_from_slice(&(key.len() as u64).to_le_bytes());
    buf.extend_from_slice(key.as_bytes());
    buf.extend_from_slice(&4u32.to_le_bytes());
    buf.extend_from_slice(&42u32.to_le_bytes());

    let key = "score";
    buf.extend_from_slice(&(key.len() as u64).to_le_bytes());
    buf.extend_from_slice(key.as_bytes());
    buf.extend_from_slice(&6u32.to_le_bytes());
    buf.extend_from_slice(&3.14f32.to_le_bytes());

    let key = "flag";
    buf.extend_from_slice(&(key.len() as u64).to_le_bytes());
    buf.extend_from_slice(key.as_bytes());
    buf.extend_from_slice(&7u32.to_le_bytes());
    buf.push(1u8);

    let gguf = GgufFile::parse(&buf).unwrap();
    assert_eq!(gguf.metadata.get("count"), Some(&GgufValue::Uint32(42)));
    assert!(matches!(gguf.metadata.get("flag"), Some(GgufValue::Bool(true))));
    assert_eq!(gguf.metadata.get("score"), Some(&GgufValue::Float32(3.14f32.to_bits())));
}

fn error_text(r: Result<GgufFile, fuse::error::FuseError>) -> String {
    match r {
        Err(e) => e.message(),
        Ok(_) => panic!("expected an error"),
    }
}

#[test]
fn parse_errors_name_the_problem() {
    let mut data = create_test_gguf();
    data[0] = 0xFF;
    assert_eq!(error_text(GgufFile::parse(&data)), "Invalid GGUF magic: 0x464755ff, expected 0x46475547");
    let mut data = create_test_gguf();
    data[4] = 1;
    assert_eq!(error_text(GgufFile::parse(&data)), "Unsupported GGUF version: 1, expected 2 or 3");
    let data = create_test_gguf();
    assert_eq!(error_text(GgufFile::parse(&data[..3])), "IO error: failed to fill whole buffer");
}

#[test]
fn parsed_file_written_back_parses_the_same() {
    let data = create_test_gguf();
    let g = GgufFile::parse(&data).unwrap();
    let mut out = Vec::new();
    g.write(&mut out).unwrap();
    let g2 = GgufFile::parse(&out).unwrap();
    assert_eq!(g2.header.tensor_count, g.header.tensor_count);
    assert_eq!(g2.metadata.len(), g.metadata.len());
    assert_eq!(g2.tensors.len(), g.tensors.len());
}
