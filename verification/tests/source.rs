use undox::config::{GitLocation, GitValue, Location, NavItem, SourceConfig, SourceLocation};
use undox::format::FormatRegistry;
use undox::git::GitError;
use undox::paths::source_path_to_url;
use undox::source::{
    skips_entry, AfterConfig, AfterDeclared, AfterFetch, AfterRoot, FoundFile,
    LocalSubdocsConfig, PathKind, ResolvedSource, SourceError, Started,
};

fn config(name: &str, url_prefix: Option<&str>, location: SourceLocation) -> SourceConfig {
    SourceConfig {
        name: name.to_string(),
        title: Some(name.to_uppercase()),
        url_prefix: url_prefix.map(|p| p.to_string()),
        nav: None,
        location,
    }
}

fn local(path: &str) -> SourceLocation {
    SourceLocation::Local { local: Location::Path { path: path.to_string() } }
}

fn remote(path: &str) -> SourceLocation {
    SourceLocation::Remote { location: Location::Path { path: path.to_string() } }
}

#[test]
fn test_path_to_url() {
    let source = ResolvedSource {
        config: config("cli", Some("/cli"), local("./docs")),
        local_path: "/tmp/docs".to_string(),
    };

    assert_eq!(source.url_prefix(), "/cli");
    assert_eq!(
        source_path_to_url("installation.md", &source.url_prefix()),
        "/cli/installation"
    );
}

#[test]
fn test_path_to_url_root_source() {
    let source = ResolvedSource {
        config: config("docs", Some("/"), local("./docs")),
        local_path: "/tmp/docs".to_string(),
    };

    let prefix = source.url_prefix();
    assert_eq!(prefix, "/");
    assert_eq!(source_path_to_url("installation.md", &prefix), "/installation");
    assert_eq!(source_path_to_url("index.md", &prefix), "/");
}

#[test]
fn url_prefix_defaults_to_the_name() {
    let source = ResolvedSource {
        config: config("cli", None, local("./docs")),
        local_path: "/tmp/docs".to_string(),
    };
    assert_eq!(source.url_prefix(), "/cli");
}

#[test]
fn local_source_resolves_to_its_directory() {
    let next = match ResolvedSource::resolve(config("cli", None, local("docs")), "/site") {
        Started::Probe(next) => next,
        _ => panic!("expected a probe"),
    };
    assert_eq!(next.root, "/site/docs");
    assert!(!next.remote);
    match next.probed(PathKind::Directory) {
        AfterRoot::Done(resolved) => {
            assert_eq!(resolved.local_path, "/site/docs");
            assert_eq!(resolved.config.name, "cli");
        }
        _ => panic!("expected the source to be resolved"),
    }
}

#[test]
fn absolute_paths_stand_for_themselves() {
    match ResolvedSource::resolve(config("cli", None, local("/abs/docs")), "/site") {
        Started::Probe(next) => assert_eq!(next.root, "/abs/docs"),
        _ => panic!("expected a probe"),
    }
}

#[test]
fn missing_path_and_file_are_errors() {
    let start = || match ResolvedSource::resolve(config("cli", None, local("docs")), "/site") {
        Started::Probe(next) => next,
        _ => panic!("expected a probe"),
    };
    match start().probed(PathKind::Missing) {
        AfterRoot::Failed(SourceError::PathNotFound(p)) => assert_eq!(p, "/site/docs"),
        _ => panic!("expected PathNotFound"),
    }
    match start().probed(PathKind::File) {
        AfterRoot::Failed(SourceError::NotADirectory(p)) => assert_eq!(p, "/site/docs"),
        _ => panic!("expected NotADirectory"),
    }
}

#[test]
fn local_source_in_git_is_an_error() {
    let location = SourceLocation::Local {
        local: Location::Git { git: GitValue::Compact("https://example.com/r.git#main".to_string()) },
    };
    match ResolvedSource::resolve(config("cli", None, location), "/site") {
        Started::Failed(SourceError::LocalMustBePath(url)) => {
            assert_eq!(url, "https://example.com/r.git#main")
        }
        _ => panic!("expected LocalMustBePath"),
    }
    let location = SourceLocation::Local {
        local: Location::Git {
            git: GitValue::Expanded(GitLocation {
                url: "https://example.com/r.git".to_string(),
                git_ref: Some("main".to_string()),
                subpath: None,
            }),
        },
    };
    match ResolvedSource::resolve(config("cli", None, location), "/site") {
        Started::Failed(e) => assert_eq!(
            e.message(),
            "source location must be a path, not git: https://example.com/r.git"
        ),
        _ => panic!("expected LocalMustBePath"),
    }
}

fn awaiting_config(root: &str) -> undox::source::AwaitingConfig {
    let next = match ResolvedSource::resolve(config("cli", None, remote(root)), "/site") {
        Started::Probe(next) => next,
        _ => panic!("expected a probe"),
    };
    assert!(next.remote);
    match next.probed(PathKind::Directory) {
        AfterRoot::ReadConfig(next) => next,
        _ => panic!("expected the configuration to be read"),
    }
}

#[test]
fn remote_source_without_configuration_uses_the_content_directory() {
    let next = awaiting_config("sub");
    assert_eq!(next.config_path, "/site/sub/undox.yaml");
    let next = match next.read(None) {
        AfterConfig::ProbeConventional(next) => next,
        _ => panic!("expected the conventional directory"),
    };
    assert_eq!(next.conventional, "/site/sub/content");
    assert_eq!(next.probed(PathKind::Directory).local_path, "/site/sub/content");
}

#[test]
fn remote_source_falls_back_to_its_own_directory() {
    let next = match awaiting_config("sub").read(None) {
        AfterConfig::ProbeConventional(next) => next,
        _ => panic!("expected the conventional directory"),
    };
    assert_eq!(next.probed(PathKind::Missing).local_path, "/site/sub");
    let next = match awaiting_config("sub").read(None) {
        AfterConfig::ProbeConventional(next) => next,
        _ => panic!("expected the conventional directory"),
    };
    assert_eq!(next.probed(PathKind::File).local_path, "/site/sub");
}

#[test]
fn remote_source_with_declared_content() {
    let own = LocalSubdocsConfig {
        content: Some(Location::Path { path: "docs".to_string() }),
        nav: Some(vec![NavItem::Path("a.md".to_string())]),
    };
    let next = match awaiting_config("sub").read(Some(own)) {
        AfterConfig::ProbeDeclared(next) => next,
        _ => panic!("expected the declared directory"),
    };
    assert_eq!(next.declared, "/site/sub/docs");
    match next.probed(PathKind::Directory) {
        AfterDeclared::Done(resolved) => {
            assert_eq!(resolved.local_path, "/site/sub/docs");
            // the navigation of the source's own configuration is taken
            assert_eq!(resolved.config.nav.map(|n| n.len()), Some(1));
        }
        _ => panic!("expected the source to be resolved"),
    }
}

#[test]
fn declared_content_that_is_missing_falls_back() {
    let own = LocalSubdocsConfig {
        content: Some(Location::Path { path: "docs".to_string() }),
        nav: None,
    };
    let next = match awaiting_config("sub").read(Some(own)) {
        AfterConfig::ProbeDeclared(next) => next,
        _ => panic!("expected the declared directory"),
    };
    let next = match next.probed(PathKind::Missing) {
        AfterDeclared::ProbeConventional(next) => next,
        _ => panic!("expected the conventional directory"),
    };
    assert_eq!(next.conventional, "/site/sub/content");
    assert_eq!(next.probed(PathKind::Directory).local_path, "/site/sub/content");
}

#[test]
fn the_referring_source_wins_over_the_navigation_of_the_source() {
    let mut c = config("cli", None, remote("sub"));
    c.nav = Some(vec![
        NavItem::Path("x.md".to_string()),
        NavItem::Path("y.md".to_string()),
    ]);
    let next = match ResolvedSource::resolve(c, "/site") {
        Started::Probe(next) => next,
        _ => panic!("expected a probe"),
    };
    let next = match next.probed(PathKind::Directory) {
        AfterRoot::ReadConfig(next) => next,
        _ => panic!("expected the configuration to be read"),
    };
    let own = LocalSubdocsConfig {
        content: Some(Location::Git { git: GitValue::Compact("https://e.com/r".to_string()) }),
        nav: Some(vec![NavItem::Path("a.md".to_string())]),
    };
    let next = match next.read(Some(own)) {
        AfterConfig::ProbeConventional(next) => next,
        _ => panic!("content in git is not looked at"),
    };
    assert_eq!(next.config.nav.as_ref().map(|n| n.len()), Some(2));
}

#[test]
fn git_source_is_fetched_first() {
    let location = SourceLocation::Remote {
        location: Location::Git {
            git: GitValue::Expanded(GitLocation {
                url: "https://example.com/r.git".to_string(),
                git_ref: None,
                subpath: Some("docs".to_string()),
            }),
        },
    };
    let start = || match ResolvedSource::resolve(config("cli", None, location_clone(&location)), "/site") {
        Started::Fetch(next) => next,
        _ => panic!("expected a fetch"),
    };
    let next = start();
    assert_eq!(next.location.url, "https://example.com/r.git");
    match next.fetched(Ok("/cache/abc".to_string())) {
        AfterFetch::Probe(next) => {
            assert_eq!(next.root, "/cache/abc/docs");
            assert!(next.remote);
        }
        _ => panic!("expected a probe"),
    }
    let failure = GitError::RefNotFound {
        url: "https://example.com/r.git".to_string(),
        git_ref: "v9".to_string(),
    };
    match start().fetched(Err(failure)) {
        AfterFetch::Failed(e) => assert_eq!(
            e.message(),
            "git fetch error: ref 'v9' not found in https://example.com/r.git"
        ),
        _ => panic!("expected a failure"),
    }
}

fn location_clone(location: &SourceLocation) -> SourceLocation {
    location.copy()
}

#[test]
fn entries_that_the_walk_passes_over() {
    assert!(skips_entry(".git", true));
    assert!(skips_entry(".hidden.md", false));
    assert!(skips_entry("node_modules", true));
    assert!(skips_entry("__pycache__", true));
    assert!(skips_entry("target", true));
    assert!(!skips_entry("target", false));
    assert!(!skips_entry("node_modules.md", false));
    assert!(!skips_entry("docs", true));
    assert!(!skips_entry("", false));
}

#[test]
fn files_are_classified_by_extension() {
    let source = ResolvedSource {
        config: config("cli", None, local("./docs")),
        local_path: "/tmp/docs".to_string(),
    };
    let registry = FormatRegistry::with_defaults();
    match source.classify_file("guides/index.md", &registry) {
        FoundFile::Document { source_path, url_path } => {
            assert_eq!(source_path, "guides/index.md");
            assert_eq!(url_path, "/cli/guides");
        }
        _ => panic!("expected a document"),
    }
    match source.classify_file("img/logo.png", &registry) {
        FoundFile::Static(file) => {
            assert_eq!(file.source_path, "img/logo.png");
            assert_eq!(file.output_path, "/cli/img/logo.png");
        }
        _ => panic!("expected a static file"),
    }
    let found = source.discover_content(
        &vec!["a.MD".to_string(), "b.txt".to_string(), "README".to_string()],
        &registry,
    );
    let kinds: Vec<bool> = found
        .iter()
        .map(|f| matches!(f, FoundFile::Document { .. }))
        .collect();
    assert_eq!(kinds, vec![true, false, false]);
}

#[test]
fn source_error_messages() {
    assert_eq!(
        SourceError::PathNotFound("/x".to_string()).message(),
        "source path does not exist: /x"
    );
    assert_eq!(
        SourceError::NotADirectory("/x".to_string()).message(),
        "source path is not a directory: /x"
    );
    assert_eq!(
        SourceError::ReadDir { path: "/x".to_string(), reason: "denied".to_string() }.message(),
        "failed to read directory /x: denied"
    );
    assert_eq!(
        SourceError::ReadEntry { path: "/x".to_string(), reason: "denied".to_string() }.message(),
        "failed to read directory entry in /x: denied"
    );
}
