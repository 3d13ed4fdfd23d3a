use undox::cache::{
    BuildCache, CachedDocument, CachedStaticFile, ChangeKind, InvalidationScope, TemplateTime,
};
use undox::render::{NavLink, NavSection};

fn cached(source: &str, path: &str, mtime: u64) -> CachedDocument {
    CachedDocument {
        source_name: source.to_string(),
        source_path: path.to_string(),
        url_path: format!("/{}", path),
        output_path: format!("/out/{}", path),
        source_mtime: mtime,
    }
}

fn cached_static(path: &str, mtime: u64) -> CachedStaticFile {
    CachedStaticFile {
        source_name: "docs".to_string(),
        source_path: path.to_string(),
        output_path: format!("/out/{}", path),
        source_mtime: mtime,
    }
}

fn doc_change(source: &str, path: &str, deleted: bool) -> ChangeKind {
    ChangeKind::Document { source_name: source.to_string(), path: path.to_string(), deleted }
}

fn static_change(path: &str) -> ChangeKind {
    ChangeKind::StaticFile {
        source_name: "docs".to_string(),
        path: path.to_string(),
        deleted: false,
    }
}

fn scope_text(scope: &InvalidationScope) -> String {
    match scope {
        InvalidationScope::Files(paths) => format!("files {:?}", paths),
        InvalidationScope::Source(name) => format!("source {}", name),
        InvalidationScope::AllDocuments => "all documents".to_string(),
        InvalidationScope::Full => "full".to_string(),
    }
}

fn known() -> BuildCache {
    let mut cache = BuildCache::new();
    cache.update_document(cached("docs", "/site/docs/a.md", 10));
    cache.update_document(cached("docs", "/site/docs/b.md", 10));
    cache.update_document(cached("cli", "/site/cli/c.md", 10));
    cache
}

#[test]
fn config_change_dominates() {
    let cache = known();
    let changes = vec![
        doc_change("docs", "/site/docs/new.md", false),
        ChangeKind::Template { path: "/site/theme/page.html".to_string() },
        ChangeKind::Config,
        static_change("/site/docs/x.png"),
    ];
    assert_eq!(scope_text(&cache.invalidation_scope(&changes)), "full");
    let changes = vec![doc_change("docs", "/site/docs/a.md", false), ChangeKind::ThemeConfig];
    assert_eq!(scope_text(&cache.invalidation_scope(&changes)), "full");
    assert_eq!(scope_text(&cache.invalidation_scope(&vec![ChangeKind::Config])), "full");
}

#[test]
fn template_change_rebuilds_all_documents() {
    let cache = known();
    let changes = vec![
        doc_change("docs", "/site/docs/new.md", false),
        static_change("/site/docs/x.png"),
        ChangeKind::Template { path: "/site/theme/page.html".to_string() },
    ];
    assert_eq!(scope_text(&cache.invalidation_scope(&changes)), "all documents");
}

#[test]
fn added_or_deleted_document_rebuilds_its_source() {
    let cache = known();
    // a document that the cache does not know is new
    let changes = vec![
        doc_change("docs", "/site/docs/a.md", false),
        doc_change("cli", "/site/cli/new.md", false),
        doc_change("docs", "/site/docs/other.md", false),
    ];
    assert_eq!(scope_text(&cache.invalidation_scope(&changes)), "source cli");
    // a deleted document, even a known one
    let changes = vec![static_change("/site/docs/x.png"), doc_change("docs", "/site/docs/a.md", true)];
    assert_eq!(scope_text(&cache.invalidation_scope(&changes)), "source docs");
}

#[test]
fn modified_files_are_rebuilt_alone() {
    let cache = known();
    let changes = vec![
        doc_change("docs", "/site/docs/b.md", false),
        static_change("/site/docs/x.png"),
        doc_change("docs", "/site/docs/a.md", false),
    ];
    assert_eq!(
        scope_text(&cache.invalidation_scope(&changes)),
        "files [\"/site/docs/b.md\", \"/site/docs/x.png\", \"/site/docs/a.md\"]"
    );
    assert_eq!(scope_text(&cache.invalidation_scope(&vec![])), "files []");
}

#[test]
fn documents_are_kept_by_path() {
    let mut cache = BuildCache::new();
    assert_eq!(cache.document_count(), 0);
    cache.update_document(cached("docs", "a.md", 1));
    cache.update_document(cached("docs", "b.md", 1));
    cache.update_document(cached("docs", "a.md", 5));
    assert_eq!(cache.document_count(), 2);
    assert_eq!(cache.documents[0].source_mtime, 5);
    assert_eq!(cache.documents_by_source.len(), 1);
    assert_eq!(cache.documents_by_source[0].paths, vec!["a.md", "b.md", "a.md"]);
    cache.update_document(cached("cli", "c.md", 1));
    let docs: Vec<&str> = cache
        .documents_for_source("docs")
        .iter()
        .map(|d| d.source_path.as_str())
        .collect();
    assert_eq!(docs, vec!["a.md", "b.md"]);
    assert!(cache.documents_for_source("nope").is_empty());

    let removed = cache.remove_document("a.md");
    assert_eq!(removed.map(|d| d.source_mtime), Some(5));
    assert_eq!(cache.document_count(), 2);
    assert_eq!(cache.documents_by_source[0].paths, vec!["b.md"]);
    assert!(cache.remove_document("a.md").is_none());
    assert_eq!(cache.document_count(), 2);
}

#[test]
fn rebuild_is_needed_for_what_is_new_or_newer() {
    let mut cache = BuildCache::new();
    cache.update_document(cached("docs", "a.md", 10));
    assert!(cache.document_needs_rebuild("b.md", Some(1)));
    assert!(cache.document_needs_rebuild("a.md", None));
    assert!(cache.document_needs_rebuild("a.md", Some(11)));
    assert!(!cache.document_needs_rebuild("a.md", Some(10)));
    assert!(!cache.document_needs_rebuild("a.md", Some(9)));

    cache.update_static_file(cached_static("x.png", 10));
    assert_eq!(cache.static_file_count(), 1);
    assert!(cache.static_file_needs_copy("y.png", Some(1)));
    assert!(cache.static_file_needs_copy("x.png", None));
    assert!(cache.static_file_needs_copy("x.png", Some(11)));
    assert!(!cache.static_file_needs_copy("x.png", Some(10)));
    cache.update_static_file(cached_static("x.png", 20));
    assert_eq!(cache.static_file_count(), 1);
    assert!(!cache.static_file_needs_copy("x.png", Some(20)));
    assert_eq!(cache.remove_static_file("x.png").map(|f| f.source_mtime), Some(20));
    assert!(cache.remove_static_file("x.png").is_none());
    assert_eq!(cache.static_file_count(), 0);
}

#[test]
fn navigation_is_kept_by_source() {
    let link = |title: &str| {
        NavSection::Link(NavLink {
            title: title.to_string(),
            url: "/x".to_string(),
            children: vec![],
        })
    };
    let mut cache = BuildCache::new();
    assert!(cache.get_nav("docs").is_none());
    cache.set_nav("docs".to_string(), vec![link("a")]);
    cache.set_nav("cli".to_string(), vec![link("b"), link("c")]);
    cache.set_nav("docs".to_string(), vec![]);
    assert_eq!(cache.get_nav("docs").map(|n| n.len()), Some(0));
    assert_eq!(cache.get_nav("cli").map(|n| n.len()), Some(2));
    cache.invalidate_nav("cli");
    assert!(cache.get_nav("cli").is_none());
    cache.invalidate_nav("cli");
    assert_eq!(cache.get_nav("docs").map(|n| n.len()), Some(0));
}

#[test]
fn changed_templates() {
    let found = |path: &str, mtime: u64| TemplateTime { path: path.to_string(), mtime };
    let mut cache = BuildCache::new();
    assert!(!cache.any_template_changed(&vec![]));
    // a template that the cache does not know
    assert!(cache.any_template_changed(&vec![found("/t/page.html", 1)]));
    // only html files are templates
    assert!(!cache.any_template_changed(&vec![found("/t/style.css", 1)]));
    cache.update_template_mtime("/t/page.html".to_string(), 10);
    assert!(!cache.any_template_changed(&vec![found("/t/page.html", 10)]));
    assert!(!cache.any_template_changed(&vec![found("/t/page.html", 9)]));
    assert!(cache.any_template_changed(&vec![
        found("/t/style.css", 99),
        found("/t/page.html", 11),
    ]));
    cache.update_template_mtime("/t/page.html".to_string(), 11);
    assert!(!cache.any_template_changed(&vec![found("/t/page.html", 11)]));
}

#[test]
fn clear_forgets_everything() {
    let mut cache = known();
    cache.update_static_file(cached_static("x.png", 1));
    cache.set_nav("docs".to_string(), vec![]);
    cache.update_template_mtime("/t/page.html".to_string(), 1);
    cache.clear();
    assert_eq!(cache.document_count(), 0);
    assert_eq!(cache.static_file_count(), 0);
    assert!(cache.get_nav("docs").is_none());
    assert!(cache.any_template_changed(&vec![TemplateTime {
        path: "/t/page.html".to_string(),
        mtime: 1
    }]));
    assert!(cache.documents_for_source("docs").is_empty());
}
