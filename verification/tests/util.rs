use undox::util::title_case;

#[test]
fn test_title_case() {
    assert_eq!(title_case("getting-started"), "Getting Started");
    assert_eq!(title_case("installation"), "Installation");
    assert_eq!(title_case("api_reference"), "Api Reference");
    assert_eq!(title_case("README"), "README");
    assert_eq!(title_case("my-cool-feature"), "My Cool Feature");
}

#[test]
fn title_case_edge_cases() {
    assert_eq!(title_case(""), "");
    assert_eq!(title_case("-"), " ");
    assert_eq!(title_case("a--b"), "A  B");
    // one character may have several in uppercase
    assert_eq!(title_case("\u{df}eta"), "SSeta");
}
