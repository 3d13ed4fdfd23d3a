use undox::config::format_root_error;
use undox::render::{icon_svg, with_macro_import};
use undox::serve::{bind_address, display_url};
use undox::text::{replaced_all, replaced_first, text_contains};

fn chars(s: &str) -> Vec<char> {
    s.chars().collect()
}

#[test]
fn shown_urls() {
    assert_eq!(display_url("0.0.0.0", 3000), "http://localhost:3000");
    assert_eq!(display_url("127.0.0.1", 8080), "http://127.0.0.1:8080");
    assert_eq!(display_url("example.org", 0), "http://example.org:0");
    assert_eq!(bind_address("0.0.0.0", 3000), "0.0.0.0:3000");
    assert_eq!(bind_address("::1", 65535), "::1:65535");
}

#[test]
fn icons() {
    let svg = "<svg width=\"24\" height=\"24\"><svg width=\"24\"/></svg>";
    assert_eq!(icon_svg(svg, None, None), svg);
    assert_eq!(
        icon_svg(svg, Some("nav-icon"), None),
        "<svg class=\"nav-icon\" width=\"24\" height=\"24\"><svg width=\"24\"/></svg>"
    );
    assert_eq!(
        icon_svg(svg, None, Some(20)),
        "<svg width=\"20\" height=\"20\"><svg width=\"20\"/></svg>"
    );
    assert_eq!(
        icon_svg(svg, Some("a b"), Some(7)),
        "<svg class=\"a b\" width=\"7\" height=\"7\"><svg width=\"7\"/></svg>"
    );
    assert_eq!(icon_svg("<path/>", Some("x"), Some(1)), "<path/>");
    assert_eq!(icon_svg("", Some("x"), Some(1)), "");
}

#[test]
fn macro_import_comes_first() {
    assert_eq!(
        with_macro_import("# Title"),
        "{% import \"macros.html\" as macros %}\n# Title"
    );
}

#[test]
fn helpful_configuration_errors() {
    assert_eq!(
        format_root_error("missing field `sources` at line 1 column 1"),
        "invalid config: 'sources' list is required\n\nExample:\n  sources:\n    - name: docs\n      local:\n        path: ./content"
    );
    assert_eq!(
        format_root_error("site: missing field `name`"),
        "invalid config: missing required 'name' field (check 'site.name' and each source's 'name')"
    );
    assert_eq!(
        format_root_error("missing field `theme`"),
        "invalid config: 'theme' is required\n\nExample:\n  theme:\n    location:\n      path: ./themes/default"
    );
    assert_eq!(
        format_root_error("sources[0]: location must have either a or b"),
        "invalid config: each source must have either 'local: { path: ... }' for inline content or 'location: { path/git: ... }' for external sources"
    );
    // the first that matches is said
    assert!(format_root_error("missing field `name`, missing field `sources`")
        .starts_with("invalid config: 'sources' list"));
    assert_eq!(format_root_error("something else"), "invalid config: something else");
    assert_eq!(format_root_error(""), "invalid config: ");
}

#[test]
fn substrings() {
    assert!(text_contains("hello world", "lo w"));
    assert!(text_contains("hello", "hello"));
    assert!(!text_contains("hello", "hello!"));
    assert!(!text_contains("hello", "world"));
    assert!(text_contains("hello", ""));
    assert!(!text_contains("", ""));
    assert!(!text_contains("", "a"));
    assert!(text_contains("aab", "ab"));
}

#[test]
fn replacing() {
    let text = |v: Vec<char>| v.into_iter().collect::<String>();
    assert_eq!(text(replaced_all(&chars("a-b-c"), &chars("-"), &chars("+"))), "a+b+c");
    assert_eq!(text(replaced_all(&chars("aaaa"), &chars("aa"), &chars("b"))), "bb");
    assert_eq!(text(replaced_all(&chars("aaa"), &chars("aa"), &chars("b"))), "ba");
    assert_eq!(text(replaced_all(&chars("abc"), &chars(""), &chars("x"))), "abc");
    assert_eq!(text(replaced_all(&chars("abc"), &chars("abc"), &chars(""))), "");
    assert_eq!(text(replaced_all(&chars("abc"), &chars("d"), &chars("x"))), "abc");
    assert_eq!(text(replaced_first(&chars("a-b-c"), &chars("-"), &chars("+"))), "a+b-c");
    assert_eq!(text(replaced_first(&chars("abc"), &chars("d"), &chars("x"))), "abc");
    assert_eq!(text(replaced_first(&chars("abc"), &chars("c"), &chars("xyz"))), "abxyz");
}
