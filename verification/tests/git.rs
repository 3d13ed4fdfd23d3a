use std::hash::{Hash, Hasher};

use undox::config::GitLocation;
use undox::git::{
    branch_ref_name, remote_branch_name, tag_ref_name, to_hex16, FetchAction, GitError,
    GitFetcher,
};

fn location(url: &str, git_ref: Option<&str>, subpath: Option<&str>) -> GitLocation {
    GitLocation {
        url: url.to_string(),
        git_ref: git_ref.map(|s| s.to_string()),
        subpath: subpath.map(|s| s.to_string()),
    }
}

#[test]
fn hexadecimal() {
    let text = |n: u64| to_hex16(n).into_iter().collect::<String>();
    assert_eq!(text(0), "0000000000000000");
    assert_eq!(text(255), "00000000000000ff");
    assert_eq!(text(0x0123456789abcdef), "0123456789abcdef");
    assert_eq!(text(u64::MAX), "ffffffffffffffff");
    assert_eq!(text(0xdeadbeef), format!("{:016x}", 0xdeadbeefu64));
}

#[test]
fn cache_key_is_the_hash_of_the_location() {
    let fetcher = GitFetcher::new("/cache".to_string());
    let loc = location("https://example.com/r.git", Some("main"), Some("docs"));
    let mut hasher = std::collections::hash_map::DefaultHasher::new();
    "https://example.com/r.git".to_string().hash(&mut hasher);
    "main".to_string().hash(&mut hasher);
    "docs".hash(&mut hasher);
    assert_eq!(fetcher.cache_key(&loc), format!("{:016x}", hasher.finish()));
}

#[test]
fn cache_key_tells_locations_apart() {
    let fetcher = GitFetcher::new("/cache".to_string());
    let a = fetcher.cache_key(&location("https://example.com/r.git", None, None));
    let b = fetcher.cache_key(&location("https://example.com/r.git", Some("main"), None));
    let c = fetcher.cache_key(&location("https://example.com/r.git", Some("main"), Some("docs")));
    let d = fetcher.cache_key(&location("https://example.com/other.git", None, None));
    assert_eq!(a.len(), 16);
    assert!(a.chars().all(|ch| ch.is_ascii_hexdigit() && !ch.is_ascii_uppercase()));
    assert_ne!(a, b);
    assert_ne!(b, c);
    assert_ne!(a, d);
    assert_ne!(a, "https://example.com/r.git");
    // the same location has the same key
    assert_eq!(a, fetcher.cache_key(&location("https://example.com/r.git", None, None)));
}

#[test]
fn fetch_plans() {
    let fetcher = GitFetcher::new("/cache".to_string());
    let loc = location("https://example.com/r.git", Some("v1"), None);
    let key = fetcher.cache_key(&loc);
    assert_eq!(fetcher.repo_dir(&loc), format!("/cache/{}", key));

    let plan = fetcher.fetch_plan(&loc, false);
    assert!(matches!(plan.action, FetchAction::Clone));
    assert_eq!(plan.dir, format!("/cache/{}", key));
    assert_eq!(plan.url, "https://example.com/r.git");
    assert_eq!(plan.checkout, Some("v1".to_string()));

    let plan = fetcher.fetch_plan(&loc, true);
    assert!(matches!(plan.action, FetchAction::Update));
    assert_eq!(plan.checkout, Some("v1".to_string()));

    let bare = location("https://example.com/r.git", None, None);
    assert_eq!(fetcher.fetch_plan(&bare, false).checkout, None);
    assert_eq!(fetcher.fetch_plan(&bare, true).checkout, Some("HEAD".to_string()));
}

#[test]
fn content_of_a_checkout() {
    let with = location("u", None, Some("docs/site"));
    let without = location("u", None, None);
    assert_eq!(GitFetcher::content_dir("/cache/abc", &with), "/cache/abc/docs/site");
    assert_eq!(GitFetcher::content_dir("/cache/abc", &without), "/cache/abc");
}

#[test]
fn ref_names() {
    assert_eq!(remote_branch_name("main"), "origin/main");
    assert_eq!(tag_ref_name("v1.0"), "refs/tags/v1.0");
    assert_eq!(branch_ref_name("main"), "refs/heads/main");
}

#[test]
fn git_error_messages() {
    let url = "https://e.com/r".to_string();
    assert_eq!(
        GitError::CloneFailed { url: url.clone(), reason: "no network".to_string() }.message(),
        "failed to clone repository https://e.com/r: no network"
    );
    assert_eq!(
        GitError::FetchFailed { url: url.clone(), reason: "no network".to_string() }.message(),
        "failed to fetch from repository https://e.com/r: no network"
    );
    assert_eq!(
        GitError::CheckoutFailed {
            url: url.clone(),
            git_ref: "v1".to_string(),
            reason: "conflict".to_string()
        }
        .message(),
        "failed to checkout ref 'v1' in https://e.com/r: conflict"
    );
    assert_eq!(
        GitError::RefNotFound { url, git_ref: "v1".to_string() }.message(),
        "ref 'v1' not found in https://e.com/r"
    );
    assert_eq!(
        GitError::CacheDir("denied".to_string()).message(),
        "failed to create cache directory: denied"
    );
    assert_eq!(
        GitError::OpenRepo("corrupt".to_string()).message(),
        "failed to open cached repository: corrupt"
    );
}

#[test]
fn refs_are_looked_for_in_order() {
    let shown: Vec<String> = undox::git::ref_candidates("v1")
        .into_iter()
        .map(|c| match c {
            undox::git::RefCandidate::LocalBranch(n) => format!("local {}", n),
            undox::git::RefCandidate::RemoteBranch(n) => format!("remote {}", n),
            undox::git::RefCandidate::Reference(n) => format!("reference {}", n),
            undox::git::RefCandidate::Revision(n) => format!("revision {}", n),
        })
        .collect();
    assert_eq!(
        shown,
        vec!["local v1", "remote origin/v1", "reference refs/tags/v1", "revision v1"]
    );
}

#[test]
fn head_after_checkout() {
    let shown = |action: undox::git::HeadAction| match action {
        undox::git::HeadAction::SetHead(name) => format!("set {}", name),
        undox::git::HeadAction::TrackRemote { branch, head } => format!("track {} {}", branch, head),
        undox::git::HeadAction::Detach => "detach".to_string(),
    };
    assert_eq!(
        shown(undox::git::head_action("main", Some("refs/heads/main".to_string()), true)),
        "set refs/heads/main"
    );
    assert_eq!(
        shown(undox::git::head_action("main", None, true)),
        "track main refs/heads/main"
    );
    assert_eq!(shown(undox::git::head_action("v1.0", None, false)), "detach");
}
