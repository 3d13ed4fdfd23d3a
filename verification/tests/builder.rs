use undox::builder::{copy_plan, count_documents, source_tabs, BuildError, Builder, ThemeCandidate};
use undox::config::{
    DevConfig, GitValue, Location, MarkdownConfig, RootConfig, SiteConfig, SourceConfig,
    SourceLocation, ThemeConfig,
};
use undox::document::{ContentItem, Document, FrontMatter, StaticFile};
use undox::render::source_tabs_for;
use undox::source::{ResolvedSource, SourceError};
use undox::theme::{default_exclude_selectors, default_root_selector, PagefindConfig};

fn config(output: &str, theme: Location) -> RootConfig {
    RootConfig {
        site: SiteConfig {
            name: "Site".to_string(),
            url: Some("https://example.com".to_string()),
            output: output.to_string(),
            favicon: None,
            repository: None,
            edit_path: None,
        },
        sources: vec![],
        theme: ThemeConfig { location: theme, settings: serde_json::Value::Null },
        markdown: MarkdownConfig::default(),
        dev: DevConfig::default(),
    }
}

fn source(name: &str, title: Option<&str>, prefix: Option<&str>) -> ResolvedSource {
    ResolvedSource {
        config: SourceConfig {
            name: name.to_string(),
            title: title.map(|t| t.to_string()),
            url_prefix: prefix.map(|p| p.to_string()),
            nav: None,
            location: SourceLocation::Local {
                local: Location::Path { path: "docs".to_string() },
            },
        },
        local_path: "/site/docs".to_string(),
    }
}

#[test]
fn tabs_of_the_sources() {
    let tabs = source_tabs(&vec![
        source("user-guide", None, None),
        source("cli", Some("Command Line"), Some("/tools/cli")),
        source("docs", None, Some("/")),
    ]);
    let shown: Vec<(String, String, String, bool, bool)> = tabs
        .iter()
        .map(|t| (t.name.clone(), t.source_id.clone(), t.url.clone(), t.is_current, t.is_top_level))
        .collect();
    assert_eq!(
        shown,
        vec![
            ("User Guide".to_string(), "user-guide".to_string(), "/user-guide/".to_string(), false, false),
            ("Command Line".to_string(), "cli".to_string(), "/tools/cli/".to_string(), false, false),
            ("Docs".to_string(), "docs".to_string(), "/".to_string(), false, true),
        ]
    );
    let on_cli = source_tabs_for(&tabs, "cli");
    let current: Vec<bool> = on_cli.iter().map(|t| t.is_current).collect();
    assert_eq!(current, vec![false, true, false]);
    assert_eq!(on_cli[2].url, "/");
    assert!(on_cli[2].is_top_level);
}

#[test]
fn where_the_site_is_written() {
    let builder = Builder::new(config("_site", Location::Path { path: "theme".to_string() }), "/work".to_string());
    assert_eq!(builder.output_dir(), "/work/_site");
    assert_eq!(builder.cache_dir(), "/work/.undox/cache/git");
    let builder = Builder::new(config("/var/www", Location::Path { path: "theme".to_string() }), "/work".to_string());
    assert_eq!(builder.output_dir(), "/var/www");
}

#[test]
fn where_the_theme_lies() {
    let builder = Builder::new(config("_site", Location::Path { path: "themes/x".to_string() }), "/work".to_string());
    match builder.theme_candidate() {
        ThemeCandidate::Directory(dir) => assert_eq!(dir, "/work/themes/x"),
        _ => panic!("expected a directory"),
    }
    let builder = builder.with_theme_base_path("/parent".to_string());
    match builder.theme_candidate() {
        ThemeCandidate::Directory(dir) => assert_eq!(dir, "/parent/themes/x"),
        _ => panic!("expected a directory"),
    }
    let git = Location::Git { git: GitValue::Compact("https://e.com/theme#v2".to_string()) };
    let builder = Builder::new(config("_site", git), "/work".to_string());
    match builder.theme_candidate() {
        ThemeCandidate::Repository(location) => {
            assert_eq!(location.url, "https://e.com/theme");
            assert_eq!(location.git_ref, Some("v2".to_string()));
        }
        _ => panic!("expected a repository"),
    }
}

#[test]
fn builder_settings() {
    let builder = Builder::new(config("_site", Location::Path { path: "t".to_string() }), "/work".to_string());
    assert!(!builder.dev_mode && !builder.live_reload);
    assert!(builder.theme_base_path.is_none());
    let builder = builder.with_dev_mode(true).with_live_reload(true);
    assert!(builder.dev_mode && builder.live_reload);
    assert_eq!(builder.base_path, "/work");
    let site = builder.site_context();
    assert_eq!(site.name, "Site");
    assert_eq!(site.url, Some("https://example.com".to_string()));
    assert_eq!(site.favicon, None);
}

fn items() -> Vec<ContentItem> {
    let doc = |path: &str| {
        ContentItem::Document(Document::new(
            "docs".to_string(),
            path.to_string(),
            format!("/docs/{}", path),
            FrontMatter::default(),
            String::new(),
        ))
    };
    let file = |path: &str| {
        ContentItem::Static(StaticFile::new(
            "docs".to_string(),
            path.to_string(),
            format!("/docs/{}", path),
        ))
    };
    vec![doc("a.md"), file("x.png"), doc("b.md"), file("y.css"), file("z.js")]
}

#[test]
fn what_a_build_made() {
    assert_eq!(count_documents(&items()), 2);
    assert_eq!(count_documents(&vec![]), 0);
    let builder = Builder::new(config("_site", Location::Path { path: "t".to_string() }), "/work".to_string());
    let result = builder.result("/work/t".to_string(), &items());
    assert_eq!(result.output_dir, "/work/_site");
    assert_eq!(result.theme_path, "/work/t");
    assert_eq!(result.documents, 2);
    assert_eq!(result.static_files, 3);
}

#[test]
fn where_static_files_are_copied() {
    let file = StaticFile::new(
        "docs".to_string(),
        "img/logo.png".to_string(),
        "/docs/img/logo.png".to_string(),
    );
    let plan = copy_plan(&file, "/src/docs", "/out");
    assert_eq!(plan.from, "/src/docs/img/logo.png");
    assert_eq!(plan.to, "/out/docs/img/logo.png");
    // a static file without a dot in its URL is a directory of its own
    let file = StaticFile::new("docs".to_string(), "LICENSE".to_string(), "/docs/LICENSE".to_string());
    assert_eq!(copy_plan(&file, "/src/docs", "/out").to, "/out/docs/LICENSE/index.html");
}

#[test]
fn build_error_messages() {
    match Builder::theme_missing("/t", false) {
        BuildError::Theme(m) => assert_eq!(m, "theme path does not exist: /t"),
        _ => panic!("expected a theme error"),
    }
    assert_eq!(
        Builder::theme_missing("/t", true).message(),
        "theme error: theme path does not exist after git fetch: /t"
    );
    assert_eq!(
        BuildError::Source(SourceError::PathNotFound("/x".to_string())).message(),
        "source error: source path does not exist: /x"
    );
    assert_eq!(BuildError::Io("denied".to_string()).message(), "IO error: denied");
}

#[test]
fn search_defaults() {
    assert_eq!(default_root_selector(), "main");
    assert_eq!(default_exclude_selectors(), vec!["nav", ".sidebar", ".site-header"]);
    let mut pagefind = PagefindConfig::default();
    assert_eq!(pagefind.root_selector, "main");
    assert_eq!(pagefind.language(), "en");
    pagefind.force_language = Some("de".to_string());
    assert_eq!(pagefind.language(), "de");
}

#[test]
fn directories_of_a_build() {
    assert_eq!(undox::builder::theme_static_dir("/theme"), "/theme/static");
    assert_eq!(undox::builder::theme_output_dir("/out"), "/out/_theme");
    assert_eq!(undox::builder::search_output_dir("/out/"), "/out/_pagefind");
    let builder = Builder::new(
        config("_site", Location::Path { path: "t".to_string() }),
        "/work".to_string(),
    );
    assert_eq!(builder.cache_root(), "/work/.undox/cache");
    assert_eq!(undox::render::templates_dir("/theme"), "/theme/templates");
    assert_eq!(undox::render::template_glob("/theme"), "/theme/templates/**/*.html");
    assert_eq!(undox::render::icon_path("/theme", "menu"), "/theme/static/icons/menu.svg");
}
