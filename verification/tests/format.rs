use undox::format::{
    ContentFormat, FormatContext, FormatError, FormatOutput, FormatRegistry,
};

#[test]
fn test_registry_default_formats() {
    let registry = FormatRegistry::with_defaults();

    assert!(registry.for_extension("md").is_some());
    assert!(registry.for_extension("markdown").is_some());
    assert!(registry.for_extension("MD").is_some());
    assert!(registry.for_extension("txt").is_none());
}

#[test]
fn test_registry_is_document() {
    let registry = FormatRegistry::with_defaults();

    assert!(registry.is_document("docs/intro.md"));
    assert!(registry.is_document("guide.markdown"));
    assert!(!registry.is_document("image.png"));
    assert!(!registry.is_document("style.css"));
}

#[test]
fn test_registry_all_extensions() {
    let registry = FormatRegistry::with_defaults();
    let exts = registry.all_extensions();

    assert!(exts.contains(&"md".to_string()));
    assert!(exts.contains(&"markdown".to_string()));
}

struct MockFormat;

impl ContentFormat for MockFormat {
    fn name(&self) -> &'static str {
        "mock"
    }

    fn extensions(&self) -> &[&'static str] {
        &["mock", "test"]
    }

    fn render(&self, _content: &str, _ctx: &FormatContext) -> Result<FormatOutput, FormatError> {
        Ok(FormatOutput {
            html: "<p>mock</p>".to_string(),
            toc: vec![],
        })
    }
}

#[test]
fn test_registry_custom_format() {
    let mut registry = FormatRegistry::with_defaults();
    registry.register(MockFormat);

    assert!(registry.for_extension("mock").is_some());
    assert!(registry.for_extension("test").is_some());
    assert_eq!(registry.for_extension("mock").unwrap().name(), "mock");
}

struct OtherMarkdown;

impl ContentFormat for OtherMarkdown {
    fn name(&self) -> &'static str {
        "other"
    }

    fn extensions(&self) -> &[&'static str] {
        &["md"]
    }

    fn render(&self, _content: &str, _ctx: &FormatContext) -> Result<FormatOutput, FormatError> {
        Err(FormatError::Render("nothing to see".to_string()))
    }
}

#[test]
fn later_registration_takes_precedence() {
    let mut registry = FormatRegistry::with_defaults();
    assert_eq!(registry.for_extension("md").unwrap().name(), "markdown");
    registry.register(OtherMarkdown);
    assert_eq!(registry.for_extension("md").unwrap().name(), "other");
    assert_eq!(registry.for_extension("markdown").unwrap().name(), "markdown");
    assert_eq!(registry.all_extensions(), vec!["md", "markdown", "md"]);
}

#[test]
fn registry_edge_cases() {
    let registry = FormatRegistry::new();
    assert!(registry.for_extension("md").is_none());
    assert!(!registry.is_document("a.md"));
    let registry = FormatRegistry::with_defaults();
    // a path without an extension has no format
    assert!(registry.for_path("md").is_none());
    assert!(registry.for_path(".md").is_none());
    assert!(registry.for_path("docs.md/readme").is_none());
    assert!(registry.for_path("README.MD").is_some());
}

#[test]
fn format_error_messages() {
    assert_eq!(
        FormatError::Render("boom".to_string()).message(),
        "render error: boom"
    );
}
