use undox::config::{NavItem, TitledEntry};
use undox::document::{ContentItem, Document, FrontMatter, StaticFile};
use undox::nav::{
    auto_generate_nav, build_navigation_by_source, convert_nav_config, convert_nav_item,
    nav_for_source, stem_of_url, LinkEntry, NavTreeNode,
};
use undox::config::{Location, SourceConfig, SourceLocation};
use undox::render::{NavLink, NavSection};
use undox::source::ResolvedSource;

fn make_doc(source_name: &str, source_path: &str, url_path: &str) -> Document {
    Document {
        source_name: source_name.to_string(),
        source_path: source_path.to_string(),
        url_path: url_path.to_string(),
        front_matter: FrontMatter::default(),
        raw_content: String::new(),
    }
}

fn titled_doc(source_path: &str, url_path: &str, title: &str) -> Document {
    let mut doc = make_doc("cli", source_path, url_path);
    doc.front_matter.title = Some(title.to_string());
    doc
}

/// A navigation written out as text, one entry per line.
fn outline(nav: &[NavSection]) -> Vec<String> {
    fn walk(nav: &[NavSection], depth: usize, out: &mut Vec<String>) {
        for entry in nav {
            match entry {
                NavSection::Section { section, items } => {
                    out.push(format!("{}[{}]", "  ".repeat(depth), section));
                    walk(items, depth + 1, out);
                }
                NavSection::Link(NavLink { title, url, children }) => {
                    out.push(format!("{}{} -> {}", "  ".repeat(depth), title, url));
                    walk(children, depth + 1, out);
                }
            }
        }
    }
    let mut out = Vec::new();
    walk(nav, 0, &mut out);
    out
}

#[test]
fn test_auto_generate_nav_simple() {
    let docs = vec![
        make_doc("cli", "index.md", "/cli"),
        make_doc("cli", "installation.md", "/cli/installation"),
        make_doc("cli", "usage.md", "/cli/usage"),
    ];
    let doc_refs: Vec<&Document> = docs.iter().collect();

    let nav = auto_generate_nav(&doc_refs);

    assert_eq!(nav.len(), 3);
    if let NavSection::Link(link) = &nav[0] {
        assert_eq!(link.url, "/cli");
    } else {
        panic!("Expected Link");
    }
}

#[test]
fn test_auto_generate_nav_with_sections() {
    let docs = vec![
        make_doc("cli", "index.md", "/cli"),
        make_doc("cli", "commands/build.md", "/cli/commands/build"),
        make_doc("cli", "commands/serve.md", "/cli/commands/serve"),
    ];
    let doc_refs: Vec<&Document> = docs.iter().collect();

    let nav = auto_generate_nav(&doc_refs);

    assert_eq!(nav.len(), 2);
    if let NavSection::Section { section, items } = &nav[1] {
        assert_eq!(section, "Commands");
        assert_eq!(items.len(), 2);
    } else {
        panic!("Expected Section");
    }
}

#[test]
fn test_autogenerate_nav_nested() {
    let docs = vec![
        make_doc("cli", "index.md", "/cli"),
        make_doc("cli", "commands/build.md", "/cli/commands/build"),
        make_doc("cli", "commands/build/details.md", "/cli/commands/build/details"),
    ];
    let doc_refs: Vec<&Document> = docs.iter().collect();

    let nav = auto_generate_nav(&doc_refs);

    assert_eq!(nav.len(), 2);

    if let NavSection::Link(link) = &nav[0] {
        assert_eq!(link.title, "Index");
    } else {
        panic!("Expected Link at nav[0]");
    }

    if let NavSection::Section { section, items } = &nav[1] {
        assert_eq!(section, "Commands");
        assert_eq!(items.len(), 1);

        if let NavSection::Link(link) = &items[0] {
            assert_eq!(link.title, "Build");
            assert_eq!(link.url, "/cli/commands/build");
            assert_eq!(link.children.len(), 1);

            if let NavSection::Link(child_link) = &link.children[0] {
                assert_eq!(child_link.title, "Details");
                assert_eq!(child_link.url, "/cli/commands/build/details");
            } else {
                panic!("Expected Link in children");
            }
        } else {
            panic!("Expected Link at items[0]");
        }
    } else {
        panic!("Expected Section at nav[1]");
    }
}

#[test]
fn test_convert_nav_config_link_with_children() {
    let docs = vec![
        make_doc("docs", "configuration.md", "/docs/configuration"),
        make_doc("docs", "configuration/root.md", "/docs/configuration/root"),
        make_doc("docs", "configuration/sub.md", "/docs/configuration/sub"),
    ];
    let doc_refs: Vec<&Document> = docs.iter().collect();

    let nav_config: Vec<NavItem> = vec![NavItem::LinkWithChildren {
        path: "configuration.md".to_string(),
        title: Some("Configuration".to_string()),
        children: vec![
            NavItem::Path("configuration/root.md".to_string()),
            NavItem::Path("configuration/sub.md".to_string()),
        ],
    }];

    let nav = convert_nav_config(&nav_config, &doc_refs);

    assert_eq!(nav.len(), 1);

    if let NavSection::Link(link) = &nav[0] {
        assert_eq!(link.title, "Configuration");
        assert_eq!(link.url, "/docs/configuration");
        assert_eq!(link.children.len(), 2);

        if let NavSection::Link(child) = &link.children[0] {
            assert_eq!(child.url, "/docs/configuration/root");
        } else {
            panic!("Expected Link for first child");
        }

        if let NavSection::Link(child) = &link.children[1] {
            assert_eq!(child.url, "/docs/configuration/sub");
        } else {
            panic!("Expected Link for second child");
        }
    } else {
        panic!("Expected Link at nav[0]");
    }
}

#[test]
fn merge_rule_exact_outline() {
    let docs = vec![
        make_doc("cli", "commands/build/details.md", "/cli/commands/build/details"),
        make_doc("cli", "index.md", "/cli"),
        make_doc("cli", "commands/build.md", "/cli/commands/build"),
    ];
    let doc_refs: Vec<&Document> = docs.iter().collect();
    assert_eq!(
        outline(&auto_generate_nav(&doc_refs)),
        vec![
            "Index -> /cli",
            "[Commands]",
            "  Build -> /cli/commands/build",
            "    Details -> /cli/commands/build/details",
        ]
    );
}

#[test]
fn navigation_does_not_depend_on_the_order_of_discovery() {
    let docs = vec![
        make_doc("cli", "index.md", "/cli"),
        make_doc("cli", "usage.md", "/cli/usage"),
        make_doc("cli", "guides/index.md", "/cli/guides"),
        make_doc("cli", "guides/zeta.md", "/cli/guides/zeta"),
        make_doc("cli", "guides/alpha.md", "/cli/guides/alpha"),
        make_doc("cli", "api/v2/ref.md", "/cli/api/v2/ref"),
        make_doc("cli", "api/v1/ref.md", "/cli/api/v1/ref"),
        make_doc("cli", "api.md", "/cli/api"),
    ];
    let forward: Vec<&Document> = docs.iter().collect();
    let backward: Vec<&Document> = docs.iter().rev().collect();
    let mut shuffled: Vec<&Document> = docs.iter().collect();
    shuffled.swap(0, 5);
    shuffled.swap(2, 7);
    shuffled.swap(1, 3);
    let expected = vec![
        "Index -> /cli",
        "Api -> /cli/api",
        "  [V1]",
        "    Ref -> /cli/api/v1/ref",
        "  [V2]",
        "    Ref -> /cli/api/v2/ref",
        "Usage -> /cli/usage",
        "[Guides]",
        "  Index -> /cli/guides",
        "  Alpha -> /cli/guides/alpha",
        "  Zeta -> /cli/guides/zeta",
    ];
    assert_eq!(outline(&auto_generate_nav(&forward)), expected);
    assert_eq!(outline(&auto_generate_nav(&backward)), expected);
    assert_eq!(outline(&auto_generate_nav(&shuffled)), expected);
    // and twice the same input gives twice the same navigation
    assert_eq!(
        outline(&auto_generate_nav(&forward)),
        outline(&auto_generate_nav(&forward))
    );
}

#[test]
fn links_are_ordered_by_title_then_path() {
    let docs = vec![
        titled_doc("b.md", "/cli/b", "Same"),
        titled_doc("a.md", "/cli/a", "Same"),
        titled_doc("z.md", "/cli/z", "Alpha"),
        titled_doc("index.md", "/cli", "Zulu"),
    ];
    let doc_refs: Vec<&Document> = docs.iter().collect();
    assert_eq!(
        outline(&auto_generate_nav(&doc_refs)),
        vec!["Zulu -> /cli", "Alpha -> /cli/z", "Same -> /cli/a", "Same -> /cli/b"]
    );
}

#[test]
fn merge_ignores_letter_case() {
    let docs = vec![
        make_doc("cli", "build.md", "/cli/build"),
        make_doc("cli", "Build/details.md", "/cli/Build/details"),
        make_doc("cli", "other/x.md", "/cli/other/x"),
    ];
    let doc_refs: Vec<&Document> = docs.iter().collect();
    assert_eq!(
        outline(&auto_generate_nav(&doc_refs)),
        vec![
            "Build -> /cli/build",
            "  Details -> /cli/Build/details",
            "[Other]",
            "  X -> /cli/other/x",
        ]
    );
}

#[test]
fn second_link_of_a_stem_has_no_children() {
    let docs = vec![
        titled_doc("build.md", "/cli/build", "A"),
        titled_doc("build.markdown", "/cli/build", "B"),
        make_doc("cli", "build/details.md", "/cli/build/details"),
    ];
    let doc_refs: Vec<&Document> = docs.iter().collect();
    assert_eq!(
        outline(&auto_generate_nav(&doc_refs)),
        vec!["A -> /cli/build", "  Details -> /cli/build/details", "B -> /cli/build"]
    );
}

#[test]
fn empty_source_has_empty_navigation() {
    assert!(auto_generate_nav(&vec![]).is_empty());
    assert!(convert_nav_config(&vec![], &vec![]).is_empty());
}

#[test]
fn section_titles_are_title_cased() {
    let docs = vec![make_doc("cli", "getting-started/first_steps.md", "/cli/getting-started/first_steps")];
    let doc_refs: Vec<&Document> = docs.iter().collect();
    assert_eq!(
        outline(&auto_generate_nav(&doc_refs)),
        vec!["[Getting Started]", "  First Steps -> /cli/getting-started/first_steps"]
    );
}

#[test]
fn unknown_paths_are_dropped() {
    let docs = vec![
        make_doc("docs", "a.md", "/docs/a"),
        titled_doc("b.md", "/docs/b", "Bee"),
    ];
    let doc_refs: Vec<&Document> = docs.iter().collect();
    let nav_config = vec![
        NavItem::Path("a.md".to_string()),
        NavItem::Path("missing.md".to_string()),
        NavItem::Path("guides/".to_string()),
        NavItem::Titled(vec![TitledEntry { title: "Second".to_string(), path: "b.md".to_string() }]),
        NavItem::Titled(vec![TitledEntry { title: "Gone".to_string(), path: "gone.md".to_string() }]),
        NavItem::Titled(vec![]),
        NavItem::Section {
            section: "Empty".to_string(),
            items: vec![NavItem::Path("missing.md".to_string())],
        },
        NavItem::Section {
            section: "Full".to_string(),
            items: vec![
                NavItem::Path("missing.md".to_string()),
                NavItem::Path("b.md".to_string()),
            ],
        },
        NavItem::LinkWithChildren {
            path: "missing.md".to_string(),
            title: None,
            children: vec![NavItem::Path("a.md".to_string())],
        },
        NavItem::LinkWithChildren {
            path: "b.md".to_string(),
            title: None,
            children: vec![NavItem::Path("missing.md".to_string())],
        },
    ];
    assert_eq!(
        outline(&convert_nav_config(&nav_config, &doc_refs)),
        vec![
            "A -> /docs/a",
            "Second -> /docs/b",
            "[Full]",
            "  Bee -> /docs/b",
            "Bee -> /docs/b",
        ]
    );
    assert!(convert_nav_item(&NavItem::Path("missing.md".to_string()), &doc_refs).is_none());
}

#[test]
fn the_last_document_of_a_path_is_linked() {
    let docs = vec![
        titled_doc("a.md", "/docs/first", "First"),
        titled_doc("a.md", "/docs/second", "Second"),
    ];
    let doc_refs: Vec<&Document> = docs.iter().collect();
    let nav = convert_nav_config(&vec![NavItem::Path("a.md".to_string())], &doc_refs);
    assert_eq!(outline(&nav), vec!["Second -> /docs/second"]);
}

#[test]
fn url_stems() {
    let text = |s: &str| stem_of_url(s).into_iter().collect::<String>();
    assert_eq!(text("/cli/commands/Build"), "build");
    assert_eq!(text("/cli/commands/build/"), "build");
    assert_eq!(text("/"), "");
    assert_eq!(text("plain"), "plain");
}

#[test]
fn tree_insertion_keeps_directories_in_order() {
    let entry = |path: &str| LinkEntry {
        is_index: false,
        title: path.to_string(),
        url: format!("/{}", path),
        path: path.to_string(),
    };
    let parts = |path: &str| -> Vec<Vec<char>> {
        path.split('/').map(|p| p.chars().collect()).collect()
    };
    let mut tree = NavTreeNode::new();
    for path in ["m/x", "b/x", "z/x", "b/y", "a", "m/n/o"] {
        tree = tree.insert(&parts(path), 0, entry(path));
    }
    let nav = tree.into_nav_sections();
    let shown: Vec<String> = nav
        .iter()
        .map(|n| match n {
            NavSection::Link(l) => format!("link {}", l.title),
            NavSection::Section { section, items } => format!("{} {}", section, items.len()),
        })
        .collect();
    assert_eq!(shown, vec!["link a", "B 2", "M 2", "Z 1"]);
    match &nav[2] {
        NavSection::Section { items, .. } => match &items[1] {
            NavSection::Section { section, items } => {
                assert_eq!(section, "N");
                assert_eq!(items.len(), 1);
            }
            _ => panic!("expected the section of the inner directory"),
        },
        _ => panic!("expected a section"),
    }
}

#[test]
fn tree_shows_index_first_whatever_the_order_of_insertion() {
    let entry = |is_index: bool, title: &str, path: &str| LinkEntry {
        is_index,
        title: title.to_string(),
        url: format!("/{}", path),
        path: path.to_string(),
    };
    let part = |path: &str| -> Vec<Vec<char>> { vec![path.chars().collect()] };
    let mut tree = NavTreeNode::new();
    tree = tree.insert(&part("zebra.md"), 0, entry(false, "Zebra", "zebra.md"));
    tree = tree.insert(&part("apple.md"), 0, entry(false, "Apple", "apple.md"));
    tree = tree.insert(&part("index.md"), 0, entry(true, "Welcome", "index.md"));
    tree = tree.insert(&part("mango.md"), 0, entry(false, "Mango", "mango.md"));
    let titles: Vec<String> = tree
        .into_nav_sections()
        .iter()
        .map(|n| match n {
            NavSection::Link(l) => l.title.clone(),
            NavSection::Section { section, .. } => section.clone(),
        })
        .collect();
    assert_eq!(titles, vec!["Welcome", "Apple", "Mango", "Zebra"]);
}

fn source(name: &str, nav: Option<Vec<NavItem>>) -> ResolvedSource {
    ResolvedSource {
        config: SourceConfig {
            name: name.to_string(),
            title: None,
            url_prefix: None,
            nav,
            location: SourceLocation::Local {
                local: Location::Path { path: "./docs".to_string() },
            },
        },
        local_path: "/tmp/docs".to_string(),
    }
}

#[test]
fn each_source_has_its_own_navigation() {
    let items = vec![
        ContentItem::Document(make_doc("cli", "usage.md", "/cli/usage")),
        ContentItem::Static(StaticFile::new(
            "cli".to_string(),
            "logo.png".to_string(),
            "/cli/logo.png".to_string(),
        )),
        ContentItem::Document(make_doc("api", "ref.md", "/api/ref")),
        ContentItem::Document(make_doc("cli", "index.md", "/cli")),
        ContentItem::Document(make_doc("api", "extra.md", "/api/extra")),
    ];
    let sources = vec![
        source("cli", None),
        source("api", Some(vec![NavItem::Path("ref.md".to_string())])),
        source("empty", None),
    ];
    let navs = build_navigation_by_source(&items, &sources);
    assert_eq!(navs.len(), 3);
    assert_eq!(navs[0].source_name, "cli");
    assert_eq!(outline(&navs[0].nav), vec!["Index -> /cli", "Usage -> /cli/usage"]);
    assert_eq!(navs[1].source_name, "api");
    assert_eq!(outline(&navs[1].nav), vec!["Ref -> /api/ref"]);
    assert_eq!(navs[2].source_name, "empty");
    assert!(navs[2].nav.is_empty());
    assert_eq!(outline(&nav_for_source(&navs, "api")), vec!["Ref -> /api/ref"]);
    assert!(nav_for_source(&navs, "nope").is_empty());
}

#[test]
fn the_order_of_the_items_does_not_change_any_navigation() {
    let item = |source: &str, path: &str, url: &str| {
        ContentItem::Document(make_doc(source, path, url))
    };
    let make = |order: &[usize]| -> Vec<ContentItem> {
        let all = [
            ("cli", "usage.md", "/cli/usage"),
            ("api", "ref.md", "/api/ref"),
            ("cli", "index.md", "/cli"),
            ("cli", "guides/setup.md", "/cli/guides/setup"),
            ("api", "extra.md", "/api/extra"),
            ("cli", "guides.md", "/cli/guides"),
        ];
        let mut items: Vec<ContentItem> = order
            .iter()
            .map(|&i| item(all[i].0, all[i].1, all[i].2))
            .collect();
        items.insert(
            order[0] % 3,
            ContentItem::Static(StaticFile::new(
                "cli".to_string(),
                "logo.png".to_string(),
                "/cli/logo.png".to_string(),
            )),
        );
        items
    };
    let sources = vec![
        source("cli", None),
        source(
            "api",
            Some(vec![
                NavItem::Path("extra.md".to_string()),
                NavItem::Path("ref.md".to_string()),
            ]),
        ),
    ];
    let shown = |items: &Vec<ContentItem>| -> Vec<(String, Vec<String>)> {
        build_navigation_by_source(items, &sources)
            .iter()
            .map(|n| (n.source_name.clone(), outline(&n.nav)))
            .collect()
    };
    let first = shown(&make(&[0, 1, 2, 3, 4, 5]));
    assert_eq!(first[0].0, "cli");
    assert_eq!(
        first[0].1,
        vec![
            "Index -> /cli",
            "Guides -> /cli/guides",
            "  Setup -> /cli/guides/setup",
            "Usage -> /cli/usage",
        ]
    );
    assert_eq!(first[1].0, "api");
    assert_eq!(first[1].1, vec!["Extra -> /api/extra", "Ref -> /api/ref"]);
    assert_eq!(shown(&make(&[5, 4, 3, 2, 1, 0])), first);
    assert_eq!(shown(&make(&[3, 0, 5, 1, 4, 2])), first);
    assert_eq!(shown(&make(&[0, 1, 2, 3, 4, 5])), first);
}
