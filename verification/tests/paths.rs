use std::path::PathBuf;

use undox::paths::{
    base_path_from_config, source_path_to_url, static_path_to_url, url_to_output_path,
};

#[test]
fn test_source_path_to_url_simple() {
    assert_eq!(source_path_to_url("installation.md", "/cli"), "/cli/installation");
}

#[test]
fn test_source_path_to_url_nested() {
    assert_eq!(
        source_path_to_url("getting-started/quickstart.md", "/cli"),
        "/cli/getting-started/quickstart"
    );
}

#[test]
fn test_source_path_to_url_index() {
    assert_eq!(source_path_to_url("index.md", "/cli"), "/cli");
    assert_eq!(source_path_to_url("index.md", ""), "/");
}

#[test]
fn test_source_path_to_url_nested_index() {
    assert_eq!(source_path_to_url("guides/index.md", "/cli"), "/cli/guides");
}

#[test]
fn test_source_path_to_url_root_source() {
    assert_eq!(source_path_to_url("installation.md", ""), "/installation");
    assert_eq!(source_path_to_url("guides/quickstart.md", ""), "/guides/quickstart");
}

#[test]
fn test_static_path_to_url() {
    assert_eq!(
        static_path_to_url("images/screenshot.png", "/cli"),
        "/cli/images/screenshot.png"
    );
    assert_eq!(static_path_to_url("style.css", "/cli"), "/cli/style.css");
}

#[test]
fn test_url_to_output_path_document() {
    assert_eq!(
        PathBuf::from(url_to_output_path("/cli/installation", "/site")),
        PathBuf::from("/site/cli/installation/index.html")
    );
}

#[test]
fn test_url_to_output_path_root() {
    assert_eq!(
        PathBuf::from(url_to_output_path("/", "/site")),
        PathBuf::from("/site/index.html")
    );
}

#[test]
fn test_url_to_output_path_static() {
    assert_eq!(
        PathBuf::from(url_to_output_path("/cli/style.css", "/site")),
        PathBuf::from("/site/cli/style.css")
    );
}

#[test]
fn test_base_path_from_config() {
    assert_eq!(
        PathBuf::from(base_path_from_config("/project/undox.yaml")),
        PathBuf::from("/project")
    );
    assert_eq!(PathBuf::from(base_path_from_config("undox.yaml")), PathBuf::from(""));
}

#[test]
fn test_path_to_static_url() {
    assert_eq!(
        static_path_to_url("images/screenshot.png", "/cli"),
        "/cli/images/screenshot.png"
    );
}

#[test]
fn source_url_edge_cases() {
    // the empty path below a prefix with a trailing slash
    assert_eq!(source_path_to_url("index.md", "/cli/"), "/cli");
    assert_eq!(source_path_to_url("index.md", "/"), "/");
    // only a last segment named index is taken off
    assert_eq!(source_path_to_url("blogindex/index.md", "/cli"), "/cli/blogindex");
    assert_eq!(source_path_to_url("reindex.md", "/cli"), "/cli/reindex");
    // backslashes become slashes
    assert_eq!(source_path_to_url("a\\b.md", "/cli"), "/cli/a/b");
    // a leading dot is no extension
    assert_eq!(source_path_to_url(".hidden", "/cli"), "/cli/.hidden");
    assert_eq!(source_path_to_url("v1.2/intro.md", "/cli"), "/cli/v1.2/intro");
}

#[test]
fn output_path_exact_rule() {
    assert_eq!(url_to_output_path("", "/site"), "/site/index.html");
    assert_eq!(url_to_output_path("///", "/site"), "/site/index.html");
    assert_eq!(url_to_output_path("/cli", "/site/"), "/site/cli/index.html");
    assert_eq!(url_to_output_path("/v1.2/intro", "/site"), "/site/v1.2/intro");
    assert_eq!(url_to_output_path("/cli", ""), "cli/index.html");
}

#[test]
fn document_url_round_trip() {
    let out = "/site";
    for (path, prefix, expected) in [
        ("index.md", "", "/site/index.html"),
        ("index.md", "/cli", "/site/cli/index.html"),
        ("guides/index.md", "/cli", "/site/cli/guides/index.html"),
        ("guides/setup.md", "/cli", "/site/cli/guides/setup/index.html"),
        ("setup.markdown", "/", "/site/setup/index.html"),
    ] {
        let url = source_path_to_url(path, prefix);
        assert_eq!(url_to_output_path(&url, out), expected);
    }
    let url = static_path_to_url("img/logo.png", "/cli");
    assert_eq!(url_to_output_path(&url, out), "/site/cli/img/logo.png");
}

#[test]
fn base_path_edge_cases() {
    assert_eq!(base_path_from_config(""), ".");
    assert_eq!(base_path_from_config("/"), ".");
    assert_eq!(base_path_from_config("/undox.yaml"), "/");
    assert_eq!(base_path_from_config("a/b/undox.yaml"), "a/b");
}

#[test]
fn joining_agrees_with_the_standard_library() {
    for (base, rel) in [
        ("/site", "docs"),
        ("/site/", "docs/a.md"),
        ("", "docs"),
        ("site", ""),
        ("/site", "/abs/docs"),
        ("/site", "./content"),
        ("/", "a"),
        ("a/b", "../c"),
    ] {
        assert_eq!(
            PathBuf::from(undox::paths::join_paths(base, rel)),
            PathBuf::from(base).join(rel),
            "join({:?}, {:?})",
            base,
            rel
        );
    }
}

#[test]
fn parents_agree_with_the_standard_library() {
    for path in [
        "/project/undox.yaml",
        "undox.yaml",
        "a/b/c.yaml",
        "/undox.yaml",
        "a/b/",
        "a//b",
        "./undox.yaml",
    ] {
        let expected = std::path::Path::new(path)
            .parent()
            .map(|p| p.to_path_buf())
            .unwrap_or_else(|| PathBuf::from("."));
        assert_eq!(PathBuf::from(base_path_from_config(path)), expected, "parent of {:?}", path);
    }
    for path in ["", "/"] {
        assert_eq!(base_path_from_config(path), ".");
    }
}

#[test]
fn stems_and_extensions_agree_with_the_standard_library() {
    let chars = |s: &str| s.chars().collect::<Vec<char>>();
    let text = |v: Vec<char>| v.into_iter().collect::<String>();
    for path in [
        "a.md",
        "docs/a.tar.gz",
        "docs/.hidden",
        "docs/.hidden.md",
        "docs/noext",
        "docs.d/noext",
        "a.",
        "..",
        "a/..",
        "",
        "index.markdown",
    ] {
        let p = std::path::Path::new(path);
        let stem = p.file_stem().map(|s| s.to_string_lossy().to_string()).unwrap_or_default();
        let ext = p.extension().map(|s| s.to_string_lossy().to_string());
        if p.file_name().is_some() {
            assert_eq!(text(undox::paths::stem_of(&chars(path))), stem, "stem of {:?}", path);
        }
        assert_eq!(
            undox::paths::path_has_extension(&chars(path)),
            ext.is_some(),
            "extension of {:?}",
            path
        );
        assert_eq!(text(undox::paths::extension(&chars(path))), ext.unwrap_or_default());
        assert_eq!(
            PathBuf::from(text(undox::paths::strip_extension(&chars(path)))),
            p.with_extension(""),
            "without extension {:?}",
            path
        );
        assert_eq!(undox::paths::path_names_file(&chars(path)), p.file_name().is_some());
    }
}
