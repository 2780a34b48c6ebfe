use fuse::model::format_selector::{quant_quality_rank, select_best_gguf, FileCandidate};

fn candidate(name: &str, size_mb: u64) -> FileCandidate {
    FileCandidate { name: name.to_string(), size: size_mb * 1_048_576 }
}

#[test]
fn test_quant_quality_rank_order() {
    assert!(quant_quality_rank("model-q8_0.gguf") > quant_quality_rank("model-q6_k.gguf"));
    assert!(quant_quality_rank("model-q6_k.gguf") > quant_quality_rank("model-q5_k_m.gguf"));
    assert!(quant_quality_rank("model-q4_k_m.gguf") > quant_quality_rank("model-q4_k_s.gguf"));
    assert!(quant_quality_rank("model-q4_0.gguf") > quant_quality_rank("model-q3_k_m.gguf"));
    assert!(quant_quality_rank("model-q2_k.gguf") > quant_quality_rank("model-unknown.gguf"));
}

#[test]
fn quant_rank_exact_values_and_case() {
    assert_eq!(quant_quality_rank("MODEL-Q8_0.GGUF"), 11);
    assert_eq!(quant_quality_rank("x-q5km.gguf"), 9);
    assert_eq!(quant_quality_rank("x-q3_k_s.gguf"), 2);
    assert_eq!(quant_quality_rank("plain.gguf"), 0);
}

#[test]
fn test_select_best_gguf_picks_highest_quality_that_fits() {
    let candidates = vec![
        candidate("model-q2_k.gguf", 1_500),
        candidate("model-q4_k_m.gguf", 4_000),
        candidate("model-q8_0.gguf", 8_000),
    ];
    let budget = 6 * 1024 * 1024 * 1024u64;
    let result = select_best_gguf(&candidates, budget, None);
    assert_eq!(result.as_deref(), Some("model-q4_k_m.gguf"));
}

#[test]
fn test_select_best_gguf_large_budget_picks_q8() {
    let candidates = vec![candidate("model-q4_k_m.gguf", 4_000), candidate("model-q8_0.gguf", 8_000)];
    let budget = 16 * 1024 * 1024 * 1024u64;
    let result = select_best_gguf(&candidates, budget, None);
    assert_eq!(result.as_deref(), Some("model-q8_0.gguf"));
}

#[test]
fn test_select_best_gguf_too_small_picks_smallest() {
    let candidates = vec![
        candidate("model-q4_k_m.gguf", 4_000),
        candidate("model-q8_0.gguf", 8_000),
        candidate("model-q2_k.gguf", 1_500),
    ];
    let budget = 1024 * 1024 * 1024u64;
    let result = select_best_gguf(&candidates, budget, None);
    assert_eq!(result.as_deref(), Some("model-q2_k.gguf"));
}

#[test]
fn test_select_best_gguf_vram_budget() {
    let candidates = vec![candidate("model-q4_k_m.gguf", 4_000), candidate("model-q8_0.gguf", 8_000)];
    let ram = 4 * 1024 * 1024 * 1024u64;
    let vram = Some(12 * 1024 * 1024 * 1024u64);
    let result = select_best_gguf(&candidates, ram, vram);
    assert_eq!(result.as_deref(), Some("model-q8_0.gguf"));
}

#[test]
fn test_select_best_gguf_no_gguf_returns_none() {
    let candidates = vec![candidate("model.safetensors", 10_000), candidate("config.json", 1)];
    let result = select_best_gguf(&candidates, 16 * 1024 * 1024 * 1024, None);
    assert!(result.is_none());
}

#[test]
fn test_select_best_gguf_empty_candidates() {
    let result = select_best_gguf(&[], 16 * 1024 * 1024 * 1024, None);
    assert!(result.is_none());
}

#[test]
fn equal_rank_ties_go_to_the_last_listed() {
    let candidates = vec![candidate("a-q4_k_m.gguf", 100), candidate("b-q4_k_m.gguf", 100)];
    let result = select_best_gguf(&candidates, 16 * 1024 * 1024 * 1024, None);
    assert_eq!(result.as_deref(), Some("b-q4_k_m.gguf"));
}

#[test]
fn ascii_names_are_matched_in_any_case() {
    assert_eq!(fuse::model::format_selector::quant_quality_rank("Model-Q8_0.GGUF"), 11);
    assert_eq!(fuse::layer::ReportFormat::parse_format("JSON"), Some(fuse::layer::ReportFormat::Json));
    assert_eq!(fuse::layer::ReportFormat::parse_format(fuse::layer::ReportFormat::AsciiTable.extension()), None);
    for f in [fuse::layer::ReportFormat::Json, fuse::layer::ReportFormat::Html, fuse::layer::ReportFormat::Markdown] {
        assert_eq!(fuse::layer::ReportFormat::parse_format(f.extension()), Some(f));
    }
}
