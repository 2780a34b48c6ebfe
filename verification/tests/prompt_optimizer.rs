use fuse::inference::prompt_optimizer::{PromptLibrary, PromptOptimizer, PromptTemplate, TemplateCategory};

#[test]
fn test_template_creation() {
    let t = PromptTemplate::new("test", "Hello {prompt}", "generic", TemplateCategory::General);
    assert_eq!(t.name, "test");
    assert_eq!(t.model_family, "generic");
    assert_eq!(t.category, TemplateCategory::General);
}

#[test]
fn test_template_render() {
    let t = PromptTemplate::new("test", "System: {prompt}", "generic", TemplateCategory::General);
    assert_eq!(t.render("hi"), "System: hi");
}

#[test]
fn test_template_render_no_placeholder() {
    let t = PromptTemplate::new("test", "No placeholder", "generic", TemplateCategory::General);
    assert_eq!(t.render("hi"), "No placeholder");
}

#[test]
fn render_replaces_every_placeholder_and_nothing_else() {
    let t = PromptTemplate::new("t", "{prompt}-{prompt}-{prompt", "generic", TemplateCategory::General);
    assert_eq!(t.render("x"), "x-x-{prompt");
    let t = PromptTemplate::new("t", "{prompt}", "generic", TemplateCategory::General);
    assert_eq!(t.render("{prompt}"), "{prompt}");
}

#[test]
fn test_library_add_and_get() {
    let mut lib = PromptLibrary::new();
    let t = PromptTemplate::new("t1", "tmpl", "generic", TemplateCategory::Code);
    lib.add(t).unwrap();
    let retrieved = lib.get("t1").unwrap();
    assert_eq!(retrieved.name, "t1");
}

#[test]
fn adding_a_name_again_replaces_the_template() {
    let mut lib = PromptLibrary::new();
    lib.add(PromptTemplate::new("t1", "first", "generic", TemplateCategory::Code)).unwrap();
    lib.add(PromptTemplate::new("t1", "second", "generic", TemplateCategory::Code)).unwrap();
    assert_eq!(lib.list().len(), 1);
    assert_eq!(lib.get("t1").unwrap().template, "second");
}

#[test]
fn test_library_add_empty_name_fails() {
    let mut lib = PromptLibrary::new();
    let t = PromptTemplate::new("", "tmpl", "generic", TemplateCategory::Code);
    assert!(lib.add(t).is_err());
}

#[test]
fn test_library_get_missing() {
    let lib = PromptLibrary::new();
    assert!(lib.get("nonexistent").is_err());
}

#[test]
fn test_library_remove() {
    let mut lib = PromptLibrary::new();
    lib.add(PromptTemplate::new("r1", "tmpl", "generic", TemplateCategory::General)).unwrap();
    let removed = lib.remove("r1").unwrap();
    assert_eq!(removed.name, "r1");
    assert!(lib.get("r1").is_err());
}

#[test]
fn test_library_remove_missing() {
    let mut lib = PromptLibrary::new();
    assert!(lib.remove("nope").is_err());
}

#[test]
fn test_library_builtins() {
    let lib = PromptLibrary::with_builtins();
    assert!(lib.get("general").is_ok());
    assert!(lib.get("code").is_ok());
    assert!(lib.get("creative").is_ok());
    assert!(lib.get("factual").is_ok());
}

#[test]
fn test_library_list_by_category() {
    let lib = PromptLibrary::with_builtins();
    let code_templates = lib.list_by_category(&TemplateCategory::Code);
    assert!(code_templates.len() >= 2);
}

#[test]
fn test_library_list_by_model_family() {
    let lib = PromptLibrary::with_builtins();
    let llama = lib.list_by_model_family("llama");
    assert!(llama.len() >= 2);
}

#[test]
fn test_optimizer_select_family_specific() {
    let lib = PromptLibrary::with_builtins();
    let opt = PromptOptimizer::new(lib);
    let t = opt.select("llama", &TemplateCategory::Code).unwrap();
    assert_eq!(t.model_family, "llama");
}

#[test]
fn test_optimizer_select_fallback_to_generic() {
    let lib = PromptLibrary::with_builtins();
    let opt = PromptOptimizer::new(lib);
    let t = opt.select("mistral", &TemplateCategory::Creative).unwrap();
    assert_eq!(t.model_family, "generic");
}

#[test]
fn test_optimizer_optimize() {
    let lib = PromptLibrary::with_builtins();
    let opt = PromptOptimizer::new(lib);
    let result = opt.optimize("Write hello world", "generic", &TemplateCategory::Code).unwrap();
    assert!(result.contains("Write hello world"));
    assert!(result.contains("expert programmer"));
}

#[test]
fn select_without_any_match_is_not_found() {
    let opt = PromptOptimizer::new(PromptLibrary::new());
    let err = opt.select("llama", &TemplateCategory::Code).unwrap_err();
    assert_eq!(err.message(), "No template found for family=llama, category=Code");
}

#[test]
fn missing_template_is_named() {
    let lib = PromptLibrary::new();
    match lib.get("nope") {
        Err(e) => assert_eq!(e.message(), "Template not found: nope"),
        Ok(_) => panic!("expected an error"),
    }
}
