use undox::document::{parse_front_matter, Document, FrontMatter};

fn yaml_field(yaml: &str, key: &str) -> Option<serde_yaml::Value> {
    let value: serde_yaml::Value = serde_yaml::from_str(yaml).unwrap();
    value.get(key).cloned()
}

#[test]
fn test_document_title_fallback() {
    let doc = Document::new(
        "cli".to_string(),
        "getting-started/installation.md".to_string(),
        "/cli/getting-started/installation".to_string(),
        FrontMatter::default(),
        "# Installation".to_string(),
    );
    assert_eq!(doc.title(), "Installation");
}

#[test]
fn test_document_title_from_front_matter() {
    let mut front_matter = FrontMatter::default();
    front_matter.title = Some("Welcome to the CLI".to_string());
    let doc = Document::new(
        "cli".to_string(),
        "intro.md".to_string(),
        "/cli/intro".to_string(),
        front_matter,
        "# Welcome".to_string(),
    );
    assert_eq!(doc.title(), "Welcome to the CLI");
}

#[test]
fn test_parse_front_matter_basic() {
    let content = "---\ntitle: My Page\ndescription: A test page\n---\n\n# Hello World\n";
    let parsed = parse_front_matter(content);
    let yaml = parsed.front_matter.unwrap();
    assert_eq!(yaml, "title: My Page\ndescription: A test page");
    assert_eq!(
        yaml_field(&yaml, "title"),
        Some(serde_yaml::Value::String("My Page".to_string()))
    );
    assert_eq!(
        yaml_field(&yaml, "description"),
        Some(serde_yaml::Value::String("A test page".to_string()))
    );
    assert_eq!(parsed.content.trim(), "# Hello World");
}

#[test]
fn test_parse_front_matter_with_custom_fields() {
    let content =
        "---\ntitle: Custom Page\nauthor: John Doe\ntags:\n  - rust\n  - documentation\n---\n\nContent here\n";
    let parsed = parse_front_matter(content);
    let yaml = parsed.front_matter.unwrap();
    assert_eq!(
        yaml_field(&yaml, "title"),
        Some(serde_yaml::Value::String("Custom Page".to_string()))
    );
    assert!(yaml_field(&yaml, "author").is_some());
    assert!(yaml_field(&yaml, "tags").is_some());
    assert_eq!(parsed.content, "Content here\n");
}

#[test]
fn test_parse_front_matter_no_front_matter() {
    let content = "# Just Markdown\n\nNo front matter here.";
    let parsed = parse_front_matter(content);
    assert_eq!(parsed.front_matter, None);
    assert!(parsed.content.starts_with("# Just Markdown"));
}

#[test]
fn test_parse_front_matter_empty_front_matter() {
    let content = "---\n---\n\n# Content";
    let parsed = parse_front_matter(content);
    assert_eq!(parsed.front_matter, Some(String::new()));
    assert!(parsed.content.starts_with("# Content"));
}

#[test]
fn front_matter_edge_cases() {
    // no closing line: the whole text is the body
    let parsed = parse_front_matter("---\ntitle: x\nbody");
    assert_eq!(parsed.front_matter, None);
    assert_eq!(parsed.content, "---\ntitle: x\nbody");
    // white space before the first line does not count
    let parsed = parse_front_matter("\n  \n---\na: 1\n---\nbody");
    assert_eq!(parsed.front_matter, Some("a: 1".to_string()));
    assert_eq!(parsed.content, "body");
    // only the first two delimiter lines count
    let parsed = parse_front_matter("---\na: 1\n---\nbody\n---\nmore");
    assert_eq!(parsed.front_matter, Some("a: 1".to_string()));
    assert_eq!(parsed.content, "body\n---\nmore");
    // a line that merely begins with hyphens is no delimiter
    let parsed = parse_front_matter("----\na: 1\n---\nbody");
    assert_eq!(parsed.front_matter, None);
    let parsed = parse_front_matter("---\na: 1\n---more\n---\nbody");
    assert_eq!(parsed.front_matter, Some("a: 1\n---more".to_string()));
    assert_eq!(parsed.content, "body");
    // the closing line may end the text
    let parsed = parse_front_matter("---\na: 1\n---");
    assert_eq!(parsed.front_matter, Some("a: 1".to_string()));
    assert_eq!(parsed.content, "");
    // lines that end with a carriage return
    let parsed = parse_front_matter("---\r\na: 1\r\n---\r\nbody");
    assert_eq!(parsed.front_matter, Some("a: 1\r".to_string()));
    assert_eq!(parsed.content, "body");
}

#[test]
fn document_title_edge_cases() {
    let doc = |path: &str| {
        Document::new(
            "cli".to_string(),
            path.to_string(),
            "/cli".to_string(),
            FrontMatter::default(),
            String::new(),
        )
    };
    assert_eq!(doc("").title(), "Untitled");
    assert_eq!(doc("a/..").title(), "Untitled");
    assert_eq!(doc("api_reference.md").title(), "Api Reference");
    assert_eq!(doc("guides/index.md").title(), "Index");
    assert!(doc("guides/index.md").is_index());
    assert!(doc("index.markdown").is_index());
    assert!(!doc("guides/reindex.md").is_index());
}

#[test]
fn documents_from_files() {
    let parsed = || parse_front_matter("---\ntitle: T\n---\nbody");
    let mut front_matter = FrontMatter::default();
    front_matter.title = Some("T".to_string());
    let doc = Document::from_file(
        "cli".to_string(),
        "a.md".to_string(),
        "/cli/a".to_string(),
        Some(parsed()),
        Some(front_matter),
    );
    assert_eq!(doc.title(), "T");
    assert_eq!(doc.raw_content, "body");
    // front matter that cannot be read says nothing
    let doc = Document::from_file(
        "cli".to_string(),
        "a.md".to_string(),
        "/cli/a".to_string(),
        Some(parsed()),
        None,
    );
    assert_eq!(doc.title(), "A");
    assert_eq!(doc.raw_content, "body");
    // a file that cannot be read is an empty document
    let mut ignored = FrontMatter::default();
    ignored.title = Some("T".to_string());
    let doc = Document::from_file(
        "cli".to_string(),
        "a.md".to_string(),
        "/cli/a".to_string(),
        None,
        Some(ignored),
    );
    assert_eq!(doc.title(), "A");
    assert_eq!(doc.raw_content, "");
    assert_eq!(doc.source_name, "cli");
    assert_eq!(doc.url_path, "/cli/a");
}
