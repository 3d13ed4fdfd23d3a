use undox::config::{
    default_debounce_ms, default_live_reload, default_markdown_extensions, default_output,
    default_poll_interval_ms, title_from_slug, ChildConfig, Config, ConfigError, DevConfig,
    GitLocation, GitValue, Location, MarkdownConfig, NavItem, RootConfig, RootConfigOverrides,
    SiteConfig, SiteConfigOverrides, SourceConfig, SourceLocation, ThemeConfig, TitledEntry,
    WatchConfig,
};

fn source(name: &str, location: SourceLocation) -> SourceConfig {
    SourceConfig { name: name.to_string(), title: None, url_prefix: None, nav: None, location }
}

fn local(path: &str) -> SourceLocation {
    SourceLocation::Local { local: Location::Path { path: path.to_string() } }
}

fn remote(path: &str) -> SourceLocation {
    SourceLocation::Remote { location: Location::Path { path: path.to_string() } }
}

fn parent(sources: Vec<SourceConfig>) -> RootConfig {
    RootConfig {
        site: SiteConfig {
            name: "Site".to_string(),
            url: None,
            output: default_output(),
            favicon: None,
            repository: Some("https://example.com/site".to_string()),
            edit_path: None,
        },
        sources,
        theme: ThemeConfig {
            location: Location::Path { path: "./theme".to_string() },
            settings: serde_json::Value::Null,
        },
        markdown: MarkdownConfig::default(),
        dev: DevConfig::default(),
    }
}

fn child(name: &str, content: Location) -> ChildConfig {
    ChildConfig {
        name: name.to_string(),
        parent: Location::Path { path: "../site".to_string() },
        content,
        overrides: None,
        dev: None,
    }
}

fn path_of(location: &SourceLocation) -> String {
    match location.location() {
        Location::Path { path } => path.clone(),
        Location::Git { .. } => panic!("expected a path"),
    }
}

#[test]
fn child_takes_the_place_of_its_source() {
    let root = parent(vec![
        source("docs", local("./docs")),
        source("cli", remote("../cli")),
        source("abs", local("/abs/content")),
    ]);
    let c = child("cli", Location::Path { path: "./content".to_string() });
    let resolved = match c.compose(Config::Root(root), "/work/site", "/work/cli") {
        Ok(resolved) => resolved,
        Err(_) => panic!("expected the composition to succeed"),
    };
    assert_eq!(resolved.parent_path, "/work/site");
    let sources = &resolved.config.sources;
    assert_eq!(sources.len(), 3);
    // the source of the child lies at the content of the child
    assert_eq!(sources[1].name, "cli");
    assert!(sources[1].location.is_local());
    assert_eq!(path_of(&sources[1].location), "/work/cli/./content");
    // the others lie below the directory of the parent
    assert_eq!(sources[0].name, "docs");
    assert!(sources[0].location.is_local());
    assert_eq!(path_of(&sources[0].location), "/work/site/./docs");
    assert_eq!(path_of(&sources[2].location), "/abs/content");
    assert_eq!(resolved.config.site.name, "Site");
    assert_eq!(
        resolved.config.site.repository,
        Some("https://example.com/site".to_string())
    );
}

#[test]
fn sibling_sources_keep_their_kind() {
    let git = SourceLocation::Remote {
        location: Location::Git { git: GitValue::Compact("https://e.com/r#v1".to_string()) },
    };
    let root = parent(vec![
        source("cli", local("x")),
        source("sub", remote("sub")),
        source("git", git),
    ]);
    let c = child("cli", Location::Path { path: "/abs/content".to_string() });
    let resolved = match c.compose(Config::Root(root), "/p", "/c") {
        Ok(resolved) => resolved,
        Err(_) => panic!("expected the composition to succeed"),
    };
    let sources = &resolved.config.sources;
    assert_eq!(path_of(&sources[0].location), "/abs/content");
    assert!(sources[1].location.is_remote());
    assert_eq!(path_of(&sources[1].location), "/p/sub");
    assert!(sources[2].location.is_remote());
    assert!(sources[2].location.location().is_git());
}

#[test]
fn overrides_of_the_child_win() {
    let mut docs = source("docs", local("docs"));
    docs.nav = Some(vec![NavItem::Path("old.md".to_string())]);
    let mut other = source("other", local("other"));
    other.nav = Some(vec![NavItem::Path("keep.md".to_string())]);
    let root = parent(vec![other, docs]);
    let mut c = child("docs", Location::Path { path: "content".to_string() });
    c.overrides = Some(RootConfigOverrides {
        site: Some(SiteConfigOverrides {
            repository: None,
            edit_path: Some("docs/".to_string()),
        }),
        nav: Some(vec![
            NavItem::Path("a.md".to_string()),
            NavItem::Path("b.md".to_string()),
        ]),
        theme: Some(ThemeConfig {
            location: Location::Path { path: "/my/theme".to_string() },
            settings: serde_json::Value::Bool(true),
        }),
    });
    let resolved = match c.compose(Config::Root(root), "/p", "/c") {
        Ok(resolved) => resolved,
        Err(_) => panic!("expected the composition to succeed"),
    };
    let config = resolved.config;
    assert_eq!(config.sources[1].nav.as_ref().map(|n| n.len()), Some(2));
    assert_eq!(config.sources[0].nav.as_ref().map(|n| n.len()), Some(1));
    assert_eq!(config.site.edit_path, Some("docs/".to_string()));
    assert_eq!(config.site.repository, Some("https://example.com/site".to_string()));
    assert_eq!(config.theme.settings, serde_json::Value::Bool(true));
    match config.theme.location {
        Location::Path { path } => assert_eq!(path, "/my/theme"),
        Location::Git { .. } => panic!("expected a path"),
    }
}

#[test]
fn composition_errors() {
    let c = child("cli", Location::Path { path: "content".to_string() });
    let other = child("x", Location::Path { path: "content".to_string() });
    match c.compose(Config::Child(other), "/p", "/c") {
        Err(ConfigError::ParentNotRoot) => {}
        _ => panic!("expected ParentNotRoot"),
    }
    match c.compose(Config::Root(parent(vec![source("docs", local("docs"))])), "/p", "/c") {
        Err(ConfigError::SourceNotFound(name)) => assert_eq!(name, "cli"),
        _ => panic!("expected SourceNotFound"),
    }
    let in_git = child(
        "cli",
        Location::Git { git: GitValue::Compact("https://e.com/r#v1".to_string()) },
    );
    match in_git.compose(Config::Root(parent(vec![source("cli", local("docs"))])), "/p", "/c") {
        Err(ConfigError::Validation(m)) => assert_eq!(
            m,
            "child config 'content' must be a path, not git: https://e.com/r#v1"
        ),
        _ => panic!("expected Validation"),
    }
    // the source is looked for before the content is
    match in_git.compose(Config::Root(parent(vec![])), "/p", "/c") {
        Err(ConfigError::SourceNotFound(_)) => {}
        _ => panic!("expected SourceNotFound"),
    }
}

#[test]
fn the_first_source_of_the_name_is_the_child() {
    let root = parent(vec![source("cli", local("one")), source("cli", local("two"))]);
    let c = child("cli", Location::Path { path: "/content".to_string() });
    let resolved = match c.compose(Config::Root(root), "/p", "/c") {
        Ok(resolved) => resolved,
        Err(_) => panic!("expected the composition to succeed"),
    };
    assert_eq!(path_of(&resolved.config.sources[0].location), "/content");
    assert_eq!(path_of(&resolved.config.sources[1].location), "/p/two");
}

#[test]
fn parent_location_of_development() {
    let mut c = child("cli", Location::Path { path: "content".to_string() });
    assert!(matches!(c.parent_location(), Location::Path { path } if path == "../site"));
    c.dev = Some(DevConfig::default());
    assert!(matches!(c.parent_location(), Location::Path { path } if path == "../site"));
    c.dev = Some(DevConfig {
        parent: Some(Location::Path { path: "/local/site".to_string() }),
        watch: WatchConfig::default(),
        live_reload: true,
    });
    assert!(matches!(c.parent_location(), Location::Path { path } if path == "/local/site"));
}

#[test]
fn compact_git_locations() {
    let loc = GitLocation::from_compact("https://example.com/repo.git#v1.2");
    assert_eq!(loc.url, "https://example.com/repo.git");
    assert_eq!(loc.git_ref, Some("v1.2".to_string()));
    assert_eq!(loc.subpath, None);
    let loc = GitLocation::from_compact("https://example.com/repo.git");
    assert_eq!(loc.url, "https://example.com/repo.git");
    assert_eq!(loc.git_ref, None);
    let loc = GitLocation::from_compact("a#b#c");
    assert_eq!(loc.url, "a");
    assert_eq!(loc.git_ref, Some("b#c".to_string()));
    let loc = GitLocation::from_compact("#");
    assert_eq!(loc.url, "");
    assert_eq!(loc.git_ref, Some(String::new()));
    let value = GitValue::Expanded(GitLocation {
        url: "u".to_string(),
        git_ref: None,
        subpath: Some("docs".to_string()),
    });
    assert_eq!(value.to_location().subpath, Some("docs".to_string()));
    assert_eq!(GitValue::Compact("u#r".to_string()).to_location().git_ref, Some("r".to_string()));
}

#[test]
fn locations() {
    let path = Location::Path { path: "docs".to_string() };
    let git = Location::Git { git: GitValue::Compact("https://e.com/r#main".to_string()) };
    assert!(path.is_path() && !path.is_git());
    assert!(git.is_git() && !git.is_path());
    assert_eq!(path.as_path(), Some(&"docs".to_string()));
    assert_eq!(git.as_path(), None);
    assert!(path.as_git().is_none());
    assert_eq!(git.as_git().map(|g| g.url), Some("https://e.com/r".to_string()));
    assert_eq!(path.require_path(), Ok(&"docs".to_string()));
    assert_eq!(git.require_path(), Err("https://e.com/r#main".to_string()));
    assert_eq!(path.resolve_path("/base"), Some("/base/docs".to_string()));
    assert_eq!(
        Location::Path { path: "/abs".to_string() }.resolve_path("/base"),
        Some("/abs".to_string())
    );
    assert_eq!(git.resolve_path("/base"), None);
    let remote_source = remote("x");
    assert!(remote_source.is_remote() && !remote_source.is_local());
    assert!(local("x").is_local());
}

#[test]
fn nav_items() {
    let file = NavItem::Path("guides/getting-started.md".to_string());
    let dir = NavItem::Path("guides/".to_string());
    let titled = NavItem::Titled(vec![TitledEntry {
        title: "Start".to_string(),
        path: "start.md".to_string(),
    }]);
    let section = NavItem::Section { section: "S".to_string(), items: vec![] };
    assert!(!file.is_directory());
    assert!(dir.is_directory());
    assert!(!titled.is_directory());
    assert_eq!(file.page_path(), Some("guides/getting-started.md".to_string()));
    assert_eq!(dir.page_path(), None);
    assert_eq!(titled.page_path(), Some("start.md".to_string()));
    assert_eq!(section.page_path(), None);
    assert_eq!(file.title(), Some("Getting started".to_string()));
    assert_eq!(dir.title(), None);
    assert_eq!(titled.title(), Some("Start".to_string()));
    assert_eq!(section.title(), None);
    assert_eq!(NavItem::Titled(vec![]).title(), None);
    assert_eq!(NavItem::Titled(vec![]).page_path(), None);
}

#[test]
fn slug_titles() {
    assert_eq!(title_from_slug("getting-started"), "Getting started");
    assert_eq!(title_from_slug("installation"), "Installation");
    assert_eq!(title_from_slug("api_reference"), "Api reference");
    assert_eq!(title_from_slug(""), "");
}

#[test]
fn defaults() {
    assert_eq!(default_output(), "_site");
    assert_eq!(
        default_markdown_extensions(),
        vec![
            "definition_lists",
            "footnotes",
            "gfm",
            "heading_attributes",
            "strikethrough",
            "tables",
            "tasklists"
        ]
    );
    assert!(default_live_reload());
    assert_eq!(default_poll_interval_ms(), 500);
    assert_eq!(default_debounce_ms(), 100);
    let watch = WatchConfig::default();
    assert!(!watch.poll);
    assert_eq!(watch.poll_interval_ms, 500);
    assert_eq!(watch.debounce_ms, 100);
    let dev = DevConfig::default();
    assert!(dev.parent.is_none());
    assert!(dev.live_reload);
}

#[test]
fn root_and_child() {
    let root = Config::Root(parent(vec![]));
    assert!(root.as_root().is_some());
    assert!(root.as_child().is_none());
    let c = Config::Child(child("cli", Location::Path { path: "c".to_string() }));
    assert!(c.as_root().is_none());
    assert_eq!(c.as_child().map(|c| c.name.as_str()), Some("cli"));
}

#[test]
fn config_error_messages() {
    assert_eq!(ConfigError::Validation("bad".to_string()).message(), "bad");
    assert_eq!(
        ConfigError::GitFetch("down".to_string()).message(),
        "failed to fetch parent repository: down"
    );
    assert_eq!(
        ConfigError::ReadParent("gone".to_string()).message(),
        "failed to read parent config: gone"
    );
    assert_eq!(ConfigError::ParentNotRoot.message(), "parent config is not a root config");
    assert_eq!(
        ConfigError::SourceNotFound("cli".to_string()).message(),
        "source 'cli' not found in parent config"
    );
}

#[test]
fn kinds_of_configuration() {
    assert!(matches!(undox::config::config_kind(true, false), Ok(undox::config::ConfigKind::Root)));
    assert!(matches!(undox::config::config_kind(false, true), Ok(undox::config::ConfigKind::Child)));
    assert_eq!(
        undox::config::config_kind(true, true).err(),
        Some(
            "config cannot have both 'site' (root config) and 'parent' (child config) fields"
                .to_string()
        )
    );
    assert_eq!(
        undox::config::config_kind(false, false).err(),
        Some(
            "invalid config: must have either 'site' field (for root config) or 'parent' field (for child config)"
                .to_string()
        )
    );
}
