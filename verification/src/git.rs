//! Git repositories as sources of content.
//!
//! Cloning and fetching are done outside the library. The library says
//! where the clone of a repository is kept and what has to be done to bring
//! it up to date.

use vstd::prelude::*;
use crate::config::{opt_view, GitLocation, GitLocationView};
use crate::paths::{join};
use crate::render::clone_opt;
use crate::text::{append_str, chars_of, owned, string_of, texts};

verus! {

/// Why a repository could not be fetched.
pub enum GitError {
    CloneFailed { url: String, reason: String },
    FetchFailed { url: String, reason: String },
    CheckoutFailed { url: String, git_ref: String, reason: String },
    RefNotFound { url: String, git_ref: String },
    /// The cache directory could not be created.
    CacheDir(String),
    /// The cached repository could not be opened.
    OpenRepo(String),
}

impl GitError {
    /// The error in words.
    pub open spec fn text(&self) -> Seq<char> {
        match self {
            GitError::CloneFailed { url, reason } => "failed to clone repository "@ + url@ + ": "@
                + reason@,
            GitError::FetchFailed { url, reason } => "failed to fetch from repository "@ + url@
                + ": "@ + reason@,
            GitError::CheckoutFailed { url, git_ref, reason } => "failed to checkout ref '"@
                + git_ref@ + "' in "@ + url@ + ": "@ + reason@,
            GitError::RefNotFound { url, git_ref } => "ref '"@ + git_ref@ + "' not found in "@
                + url@,
            GitError::CacheDir(reason) => "failed to create cache directory: "@ + reason@,
            GitError::OpenRepo(reason) => "failed to open cached repository: "@ + reason@,
        }
    }

    /// The error in words.
    pub fn message(&self) -> (r: String)
        ensures
            r@ == self.text(),
    {
        let mut out: Vec<char> = Vec::new();
        match self {
            GitError::CloneFailed { url, reason } => {
                append_str(&mut out, "failed to clone repository ");
                append_str(&mut out, url.as_str());
                append_str(&mut out, ": ");
                append_str(&mut out, reason.as_str());
            },
            GitError::FetchFailed { url, reason } => {
                append_str(&mut out, "failed to fetch from repository ");
                append_str(&mut out, url.as_str());
                append_str(&mut out, ": ");
                append_str(&mut out, reason.as_str());
            },
            GitError::CheckoutFailed { url, git_ref, reason } => {
                append_str(&mut out, "failed to checkout ref '");
                append_str(&mut out, git_ref.as_str());
                append_str(&mut out, "' in ");
                append_str(&mut out, url.as_str());
                append_str(&mut out, ": ");
                append_str(&mut out, reason.as_str());
            },
            GitError::RefNotFound { url, git_ref } => {
                append_str(&mut out, "ref '");
                append_str(&mut out, git_ref.as_str());
                append_str(&mut out, "' not found in ");
                append_str(&mut out, url.as_str());
            },
            GitError::CacheDir(reason) => {
                append_str(&mut out, "failed to create cache directory: ");
                append_str(&mut out, reason.as_str());
            },
            GitError::OpenRepo(reason) => {
                append_str(&mut out, "failed to open cached repository: ");
                append_str(&mut out, reason.as_str());
            },
        }
        assert(out@ =~= self.text());
        string_of(&out)
    }
}

/// The hash that the default hasher of the standard library gives to a
/// list of texts, hashed one after the other.
pub uninterp spec fn texts_hash(parts: Seq<Seq<char>>) -> u64;

/// `std::collections::hash_map::DefaultHasher`, fed with the texts in their
/// order. The hasher is made with `new`, which takes no seed, so the same
/// texts give the same hash wherever the library was built by the same
/// compiler.
#[verifier::external_body]
fn hash_texts(parts: &Vec<String>) -> (r: u64)
    ensures
        r == texts_hash(texts(parts@)),
{
    let mut hasher = std::collections::hash_map::DefaultHasher::new();
    for part in parts {
        std::hash::Hash::hash(part.as_str(), &mut hasher);
    }
    std::hash::Hasher::finish(&hasher)
}

/// The digit of a number below sixteen, in lowercase.
pub open spec fn hex_char(d: u64) -> char {
    if d == 0 {
        '0'
    } else if d == 1 {
        '1'
    } else if d == 2 {
        '2'
    } else if d == 3 {
        '3'
    } else if d == 4 {
        '4'
    } else if d == 5 {
        '5'
    } else if d == 6 {
        '6'
    } else if d == 7 {
        '7'
    } else if d == 8 {
        '8'
    } else if d == 9 {
        '9'
    } else if d == 10 {
        'a'
    } else if d == 11 {
        'b'
    } else if d == 12 {
        'c'
    } else if d == 13 {
        'd'
    } else if d == 14 {
        'e'
    } else {
        'f'
    }
}

/// The `i`th of the sixteen hexadecimal digits of a number, the highest
/// first.
pub open spec fn hex_digit_at(n: u64, i: int) -> char {
    hex_char((n >> ((60 - 4 * i) as u64)) & 0xf)
}

/// A number in sixteen hexadecimal digits, with leading zeros.
pub open spec fn hex16(n: u64) -> Seq<char> {
    Seq::new(16, |i: int| hex_digit_at(n, i))
}

/// Executable form of [`hex_char`].
fn hex_digit(d: u64) -> (c: char)
    ensures
        c == hex_char(d),
{
    if d == 0 {
        '0'
    } else if d == 1 {
        '1'
    } else if d == 2 {
        '2'
    } else if d == 3 {
        '3'
    } else if d == 4 {
        '4'
    } else if d == 5 {
        '5'
    } else if d == 6 {
        '6'
    } else if d == 7 {
        '7'
    } else if d == 8 {
        '8'
    } else if d == 9 {
        '9'
    } else if d == 10 {
        'a'
    } else if d == 11 {
        'b'
    } else if d == 12 {
        'c'
    } else if d == 13 {
        'd'
    } else if d == 14 {
        'e'
    } else {
        'f'
    }
}

/// Writes a number in sixteen hexadecimal digits.
pub fn to_hex16(n: u64) -> (r: Vec<char>)
    ensures
        r@ == hex16(n),
{
    let mut out: Vec<char> = Vec::new();
    let mut i: u64 = 0;
    while i < 16
        invariant
            i <= 16,
            out@.len() == i,
            forall|j: int| 0 <= j < i ==> out@[j] == hex_digit_at(n, j),
        decreases 16 - i,
    {
        let shift: u64 = 60 - 4 * i;
        out.push(hex_digit((n >> shift) & 0xf));
        i += 1;
    }
    assert(out@ =~= hex16(n));
    out
}

/// What the key of a location is the hash of: its URL, then its ref and its
/// path in the repository, as far as it has them.
pub open spec fn key_parts(location: GitLocationView) -> Seq<Seq<char>> {
    let with_ref = match location.git_ref {
        Some(r) => seq![location.url, r],
        None => seq![location.url],
    };
    match location.subpath {
        Some(p) => with_ref.push(p),
        None => with_ref,
    }
}

/// The name under which the clone of a location is kept.
pub open spec fn cache_key_of(location: GitLocationView) -> Seq<char> {
    hex16(texts_hash(key_parts(location)))
}

/// What has to be done to have a repository at hand.
pub enum FetchAction {
    /// Clone it, and check the ref out where one is named.
    Clone,
    /// Fetch from the origin of the clone that is there, and check out the
    /// ref, or `HEAD` where none is named.
    Update,
}

/// What has to be done to have a repository at hand, and where.
pub struct FetchPlan {
    /// The directory of the clone.
    pub dir: String,
    /// The URL of the repository.
    pub url: String,
    pub action: FetchAction,
    /// The ref to check out, if any.
    pub checkout: Option<String>,
}

/// Keeps clones of git repositories in a cache directory.
pub struct GitFetcher {
    pub cache_dir: String,
}

impl GitFetcher {
    /// A fetcher that keeps its clones in the given directory.
    pub fn new(cache_dir: String) -> (r: Self)
        ensures
            r.cache_dir == cache_dir,
    {
        GitFetcher { cache_dir }
    }

    /// The name under which the clone of a location is kept: sixteen
    /// hexadecimal digits made of the hash of its URL, ref and path.
    pub fn cache_key(&self, location: &GitLocation) -> (r: String)
        ensures
            r@ == cache_key_of(location@),
    {
        let mut parts: Vec<String> = Vec::new();
        parts.push(location.url.clone());
        match &location.git_ref {
            Some(r) => {
                parts.push(r.clone());
            },
            None => {},
        }
        match &location.subpath {
            Some(p) => {
                parts.push(p.clone());
            },
            None => {},
        }
        assert(texts(parts@) =~= key_parts(location@));
        let hash = hash_texts(&parts);
        string_of(&to_hex16(hash))
    }

    /// The directory in which the clone of a location is kept.
    pub fn repo_dir(&self, location: &GitLocation) -> (r: String)
        ensures
            r@ == join(self.cache_dir@, cache_key_of(location@)),
    {
        let key = self.cache_key(location);
        crate::paths::join_paths(self.cache_dir.as_str(), key.as_str())
    }

    /// Says what has to be done to have the repository at hand, where
    /// `cached` tells whether the directory of its clone exists.
    pub fn fetch_plan(&self, location: &GitLocation, cached: bool) -> (r: FetchPlan)
        ensures
            r.dir@ == join(self.cache_dir@, cache_key_of(location@)),
            r.url@ == location.url@,
            cached ==> r.action is Update && opt_view(r.checkout) == Some(
                match location@.git_ref {
                    Some(git_ref) => git_ref,
                    None => "HEAD"@,
                },
            ),
            !cached ==> r.action is Clone && opt_view(r.checkout) == location@.git_ref,
    {
        let dir = self.repo_dir(location);
        if cached {
            let checkout = match &location.git_ref {
                Some(r) => r.clone(),
                None => owned("HEAD"),
            };
            FetchPlan {
                dir,
                url: location.url.clone(),
                action: FetchAction::Update,
                checkout: Some(checkout),
            }
        } else {
            FetchPlan {
                dir,
                url: location.url.clone(),
                action: FetchAction::Clone,
                checkout: clone_opt(&location.git_ref),
            }
        }
    }

    /// The directory of the content in a checkout: the path of the location
    /// inside the repository, where it names one.
    pub fn content_dir(repo_path: &str, location: &GitLocation) -> (r: String)
        ensures
            r@ == match location@.subpath {
                Some(p) => join(repo_path@, p),
                None => repo_path@,
            },
    {
        match &location.subpath {
            Some(p) => crate::paths::join_paths(repo_path, p.as_str()),
            None => owned(repo_path),
        }
    }
}

/// The name of the branch that follows `git_ref` on the remote `origin`.
pub fn remote_branch_name(git_ref: &str) -> (r: String)
    ensures
        r@ == "origin/"@ + git_ref@,
{
    let mut out = chars_of("origin/");
    append_str(&mut out, git_ref);
    string_of(&out)
}

/// The full name of the tag `git_ref`.
pub fn tag_ref_name(git_ref: &str) -> (r: String)
    ensures
        r@ == "refs/tags/"@ + git_ref@,
{
    let mut out = chars_of("refs/tags/");
    append_str(&mut out, git_ref);
    string_of(&out)
}

/// The full name of the local branch `git_ref`.
pub fn branch_ref_name(git_ref: &str) -> (r: String)
    ensures
        r@ == "refs/heads/"@ + git_ref@,
{
    let mut out = chars_of("refs/heads/");
    append_str(&mut out, git_ref);
    string_of(&out)
}

/// A way in which a ref may name something in a repository.
pub enum RefCandidate {
    /// A local branch of this name.
    LocalBranch(String),
    /// A branch of the remote `origin`, by its name with the remote.
    RemoteBranch(String),
    /// A reference by its full name.
    Reference(String),
    /// A revision, such as the id of a commit, whole or abbreviated.
    Revision(String),
}

/// The ways in which a ref is looked for, in the order in which they are
/// tried: as a local branch, as a branch of `origin`, as a tag, and as a
/// revision. The first that names something is taken.
pub fn ref_candidates(git_ref: &str) -> (r: Vec<RefCandidate>)
    ensures
        r@.len() == 4,
        r@[0] matches RefCandidate::LocalBranch(name) && name@ == git_ref@,
        r@[1] matches RefCandidate::RemoteBranch(name) && name@ == "origin/"@ + git_ref@,
        r@[2] matches RefCandidate::Reference(name) && name@ == "refs/tags/"@ + git_ref@,
        r@[3] matches RefCandidate::Revision(name) && name@ == git_ref@,
{
    let mut out: Vec<RefCandidate> = Vec::new();
    out.push(RefCandidate::LocalBranch(owned(git_ref)));
    out.push(RefCandidate::RemoteBranch(remote_branch_name(git_ref)));
    out.push(RefCandidate::Reference(tag_ref_name(git_ref)));
    out.push(RefCandidate::Revision(owned(git_ref)));
    out
}

/// What is done with `HEAD` when a ref has been checked out.
pub enum HeadAction {
    /// `HEAD` is set to the local branch, by its full name.
    SetHead(String),
    /// A local branch is made from the branch of `origin`, and `HEAD` is
    /// set to it.
    TrackRemote { branch: String, head: String },
    /// `HEAD` is detached at what was checked out.
    Detach,
}

/// Says what is done with `HEAD` after the checkout of `git_ref`, where
/// `local_branch` is the full name of the local branch of that name, if
/// there is one, and `remote_branch` tells whether `origin` has a branch of
/// that name. A local branch is preferred to one of `origin`; a tag or a
/// commit leaves `HEAD` detached.
pub fn head_action(git_ref: &str, local_branch: Option<String>, remote_branch: bool) -> (r:
    HeadAction)
    ensures
        match local_branch {
            Some(name) => r == HeadAction::SetHead(name),
            None => if remote_branch {
                r matches HeadAction::TrackRemote { branch, head } && branch@ == git_ref@ && head@
                    == "refs/heads/"@ + git_ref@
            } else {
                r is Detach
            },
        },
{
    match local_branch {
        Some(name) => HeadAction::SetHead(name),
        None => {
            if remote_branch {
                HeadAction::TrackRemote { branch: owned(git_ref), head: branch_ref_name(git_ref) }
            } else {
                HeadAction::Detach
            }
        },
    }
}

} // verus!
