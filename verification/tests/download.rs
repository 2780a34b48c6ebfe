use fuse::error::FuseError;
use fuse::model::download::{
    accept_appending_response, accept_download_response, accept_registry_response, download_start, DownloadStart, TransferPlan,
    check_disk_space, huggingface_file_url, is_wanted_file, modelscope_file_url, modelscope_smart_winner,
    required_bytes, select_huggingface_files, select_modelscope_files, select_unsloth_files, HuggingFaceFileInfo,
    ModelScopeFileInfo, UnslothFileInfo,
};

fn hf(path: &str, kind: &str) -> HuggingFaceFileInfo {
    HuggingFaceFileInfo { path: path.to_string(), size: 10, file_type: kind.to_string(), oid: None }
}

fn ms(name: &str, size: u64) -> ModelScopeFileInfo {
    ModelScopeFileInfo { name: name.to_string(), size, file_type: "blob".to_string() }
}

#[test]
fn wanted_files_by_format() {
    assert!(is_wanted_file("Model.SafeTensors", None));
    assert!(is_wanted_file("config.json", None));
    assert!(!is_wanted_file("README.md", None));
    assert!(is_wanted_file("weights.PTH", Some("PyTorch")));
    assert!(!is_wanted_file("weights.safetensors", Some("pt")));
    assert!(is_wanted_file("model.plan", Some("trt")));
    assert!(is_wanted_file("model-q4.gguf", Some("GGUF")));
    assert!(is_wanted_file("tokenizer.model", Some("onnx")));
}

#[test]
fn huggingface_selection_keeps_files_in_order() {
    let files = vec![hf("README.md", "file"), hf("model.safetensors", "file"), hf("sub", "directory"), hf("config.json", "file")];
    let kept = select_huggingface_files(files, None).unwrap();
    let names: Vec<&str> = kept.iter().map(|f| f.path.as_str()).collect();
    assert_eq!(names, vec!["model.safetensors", "config.json"]);
}

#[test]
fn huggingface_selection_errors() {
    let err = select_huggingface_files(vec![hf("README.md", "file")], None).unwrap_err();
    assert!(matches!(err, FuseError::DownloadError(ref m) if m == "No model files found in repository"));
    let err = select_huggingface_files(vec![hf("config.json", "file"), hf("a.bin", "file")], Some("gguf")).unwrap_err();
    assert_eq!(err.message(), "No model weights found matching requested format: gguf");
}

#[test]
fn modelscope_selection_with_a_chosen_gguf() {
    let files = vec![ms("m-q4_k_m.gguf", 10), ms("m-q8_0.gguf", 20), ms("config.json", 1)];
    let kept = select_modelscope_files(files, None, Some("m-q8_0.gguf".to_string())).unwrap();
    let names: Vec<&str> = kept.iter().map(|f| f.name.as_str()).collect();
    assert_eq!(names, vec!["m-q8_0.gguf", "config.json"]);
}

#[test]
fn modelscope_smart_winner_reserves_two_gib() {
    let gib = 1u64 << 30;
    let files = vec![ms("m-q4_k_m.gguf", 3 * gib), ms("m-q8_0.gguf", 6 * gib), ms("config.json", 1)];
    // 10 GiB available, 8 GiB after the reserve, 6 GiB usable: q8_0 fits.
    assert_eq!(modelscope_smart_winner(&files, 10 * gib, None).as_deref(), Some("m-q8_0.gguf"));
    // 6 GiB available, 4 GiB after the reserve, 3 GiB usable: q4_k_m fits.
    assert_eq!(modelscope_smart_winner(&files, 6 * gib, None).as_deref(), Some("m-q4_k_m.gguf"));
    assert_eq!(modelscope_smart_winner(&[ms("a.bin", 1)].to_vec(), 6 * gib, None), None);
}

#[test]
fn unsloth_selection() {
    let files = vec![
        UnslothFileInfo { name: "a.gguf".to_string(), size: 1, url: "u1".to_string() },
        UnslothFileInfo { name: "notes.md".to_string(), size: 1, url: "u2".to_string() },
    ];
    assert_eq!(select_unsloth_files(files, None).unwrap().len(), 1);
    let err = select_unsloth_files(vec![], None).unwrap_err();
    assert_eq!(err.message(), "No model files found");
}

#[test]
fn disk_space_and_urls() {
    let files = vec![ms("a.gguf", 5), ms("b.json", 7)];
    assert_eq!(required_bytes(&files), 12);
    assert!(check_disk_space(12, 12).is_ok());
    let err = check_disk_space(13, 12).unwrap_err();
    assert!(matches!(err, FuseError::InsufficientDiskSpace { required_bytes: 13, available_bytes: 12 }));
    assert_eq!(err.message(), "Insufficient disk space: required 13 bytes, available 12 bytes");
    assert_eq!(huggingface_file_url("https://huggingface.co", "gpt2", None, "config.json"), "https://huggingface.co/gpt2/resolve/main/config.json");
    assert_eq!(modelscope_file_url("https://ms", "org/m", Some("v1"), "a.gguf"), "https://ms/models/org/m/resolve/v1/a.gguf");
}

#[test]
fn resuming_downloads_start_after_existing_bytes() {
    assert_eq!(download_start(true, Some(100), 1000), DownloadStart::From(100));
    assert_eq!(download_start(true, Some(1000), 1000), DownloadStart::Complete);
    assert_eq!(download_start(true, Some(5000), 0), DownloadStart::From(5000));
    assert_eq!(download_start(false, Some(100), 1000), DownloadStart::From(0));
    assert_eq!(download_start(true, None, 1000), DownloadStart::From(0));
}

#[test]
fn download_responses() {
    assert_eq!(
        accept_download_response(206, "206 Partial Content", 100, Some(900), "Failed to download file: HTTP ").unwrap(),
        TransferPlan { append: true, start_byte: 100, total_bytes: Some(1000) }
    );
    assert_eq!(
        accept_download_response(200, "200 OK", 100, Some(1000), "Failed to download file: HTTP ").unwrap(),
        TransferPlan { append: false, start_byte: 0, total_bytes: Some(1000) }
    );
    assert_eq!(
        accept_download_response(200, "200 OK", 0, None, "x").unwrap(),
        TransferPlan { append: false, start_byte: 0, total_bytes: None }
    );
    match accept_download_response(404, "404 Not Found", 0, None, "ModelScope download HTTP ") {
        Err(FuseError::DownloadError(m)) => assert_eq!(m, "ModelScope download HTTP 404 Not Found"),
        other => panic!("unexpected {:?}", other),
    }
}

#[test]
fn appending_clients_keep_their_bytes() {
    let p = accept_appending_response(200, "200 OK", 100, Some(1000), "Failed to download file: HTTP ").unwrap();
    assert_eq!(p, TransferPlan { append: true, start_byte: 100, total_bytes: Some(1100) });
    let p = accept_registry_response(206, "206 Partial Content", 0, None).unwrap();
    assert_eq!(p, TransferPlan { append: false, start_byte: 0, total_bytes: None });
    match accept_registry_response(500, "500 Internal Server Error", 3, None) {
        Err(fuse::error::FuseError::InternalError(m)) => assert_eq!(m, "Download failed with status 500 Internal Server Error"),
        _ => panic!("expected an internal error"),
    }
    match accept_appending_response(404, "404 Not Found", 0, None, "Failed to download file: HTTP ") {
        Err(fuse::error::FuseError::DownloadError(m)) => assert_eq!(m, "Failed to download file: HTTP 404 Not Found"),
        _ => panic!("expected a download error"),
    }
}
