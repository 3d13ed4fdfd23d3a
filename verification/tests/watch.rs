use undox::cache::{BuildCache, ChangeKind, InvalidationScope};
use undox::watch::{
    changes_from_events, is_relevant_event, watch_targets, FsEvent, FsEventKind, PathClassifier,
    SourceDir, WatchPaths,
};

fn classifier() -> PathClassifier {
    PathClassifier::new(
        vec![
            SourceDir { source_name: "docs".to_string(), dir: "/site/docs".to_string() },
            SourceDir { source_name: "cli".to_string(), dir: "/site/cli/".to_string() },
        ],
        "/site/theme".to_string(),
        "/site/undox.yaml".to_string(),
    )
}

fn text(change: &Option<ChangeKind>) -> String {
    match change {
        None => "ignored".to_string(),
        Some(ChangeKind::Config) => "config".to_string(),
        Some(ChangeKind::ThemeConfig) => "theme config".to_string(),
        Some(ChangeKind::Template { path }) => format!("template {}", path),
        Some(ChangeKind::Document { source_name, path, deleted }) => {
            format!("document {} {} {}", source_name, path, deleted)
        }
        Some(ChangeKind::StaticFile { source_name, path, deleted }) => {
            format!("static {} {} {}", source_name, path, deleted)
        }
    }
}

#[test]
fn classify_documents_templates_and_configuration() {
    let c = classifier();
    assert_eq!(
        text(&c.classify("/site/docs/guide.md", false)),
        "document docs /site/docs/guide.md false"
    );
    assert_eq!(
        text(&c.classify("/site/theme/page.html", false)),
        "template /site/theme/page.html"
    );
    assert_eq!(text(&c.classify("/site/undox.yaml", false)), "config");
    assert_eq!(text(&c.classify("/site/theme/undox-theme.yaml", false)), "theme config");
}

#[test]
fn config_and_document_in_one_batch_is_a_full_rebuild() {
    let c = classifier();
    let batch: Vec<ChangeKind> = ["/site/docs/guide.md", "/site/undox.yaml"]
        .iter()
        .filter_map(|p| c.classify(p, false))
        .collect();
    assert_eq!(batch.len(), 2);
    assert!(matches!(
        BuildCache::new().invalidation_scope(&batch),
        InvalidationScope::Full
    ));
}

#[test]
fn classify_by_extension() {
    let c = classifier();
    assert_eq!(
        text(&c.classify("/site/docs/a/b.markdown", true)),
        "document docs /site/docs/a/b.markdown true"
    );
    assert_eq!(
        text(&c.classify("/site/cli/logo.png", false)),
        "static cli /site/cli/logo.png false"
    );
    assert_eq!(text(&c.classify("/site/docs/README", true)), "static docs /site/docs/README true");
    // the extension is matched as it is written
    assert_eq!(text(&c.classify("/site/docs/a.MD", false)), "static docs /site/docs/a.MD false");
}

#[test]
fn classify_ignores() {
    let c = classifier();
    // a segment that begins with a dot
    assert_eq!(text(&c.classify("/site/docs/.hidden/a.md", false)), "ignored");
    assert_eq!(text(&c.classify("/site/docs/.a.md", false)), "ignored");
    assert_eq!(text(&c.classify("/site/.git/undox.yaml", false)), "ignored");
    // theme files that are no templates
    assert_eq!(text(&c.classify("/site/theme/static/style.css", false)), "ignored");
    // paths that belong to nothing
    assert_eq!(text(&c.classify("/elsewhere/a.md", false)), "ignored");
    // a directory is a prefix only where a segment ends
    assert_eq!(text(&c.classify("/site/docs2/a.md", false)), "ignored");
    assert_eq!(text(&c.classify("/site/themes/page.html", false)), "ignored");
    // the directory itself lies under itself
    assert_eq!(text(&c.classify("/site/docs", false)), "static docs /site/docs false");
}

#[test]
fn the_first_source_that_owns_a_path_is_taken() {
    let c = PathClassifier::new(
        vec![
            SourceDir { source_name: "outer".to_string(), dir: "/site".to_string() },
            SourceDir { source_name: "inner".to_string(), dir: "/site/docs".to_string() },
        ],
        "/theme".to_string(),
        "/undox.yaml".to_string(),
    );
    assert_eq!(
        text(&c.classify("/site/docs/a.md", false)),
        "document outer /site/docs/a.md false"
    );
}

#[test]
fn relevant_events() {
    assert!(is_relevant_event(FsEventKind::Create));
    assert!(is_relevant_event(FsEventKind::Remove));
    assert!(is_relevant_event(FsEventKind::ModifyData));
    assert!(is_relevant_event(FsEventKind::ModifyName));
    assert!(!is_relevant_event(FsEventKind::Other));
}

#[test]
fn events_become_changes() {
    let c = classifier();
    let event = |kind: FsEventKind, paths: &[&str]| FsEvent {
        kind,
        paths: paths.iter().map(|p| p.to_string()).collect(),
    };
    let events = vec![
        event(FsEventKind::ModifyData, &["/site/docs/a.md"]),
        event(FsEventKind::Other, &["/site/docs/b.md"]),
        event(FsEventKind::Remove, &["/site/docs/c.md", "/site/docs/d.md"]),
        event(FsEventKind::Create, &[]),
        event(FsEventKind::Create, &["/elsewhere/e.md"]),
        event(FsEventKind::ModifyName, &["/site/theme/page.html"]),
    ];
    let changes: Vec<String> = changes_from_events(&c, &events)
        .into_iter()
        .map(|change| text(&Some(change)))
        .collect();
    assert_eq!(
        changes,
        vec![
            "document docs /site/docs/a.md false",
            "document docs /site/docs/c.md true",
            "template /site/theme/page.html",
        ]
    );
}

#[test]
fn what_is_watched() {
    let paths = WatchPaths {
        source_dirs: vec![
            SourceDir { source_name: "docs".to_string(), dir: "/site/docs".to_string() },
            SourceDir { source_name: "cli".to_string(), dir: "/other/cli".to_string() },
        ],
        theme_dir: "/site/theme".to_string(),
        config_path: "/site/undox.yaml".to_string(),
    };
    let targets: Vec<(String, bool)> = watch_targets(&paths)
        .into_iter()
        .map(|t| (t.path, t.recursive))
        .collect();
    assert_eq!(
        targets,
        vec![
            ("/site/docs".to_string(), true),
            ("/other/cli".to_string(), true),
            ("/site/theme".to_string(), true),
            ("/site".to_string(), false),
        ]
    );
}
