use codedb::git_ops::{repo_dir_from_url, repo_name_from_url};

#[test]
fn test_repo_dir_from_url() {
    assert_eq!(
        repo_dir_from_url("https://github.com/ylow/SFrameRust/").unwrap(),
        "github.com/ylow/SFrameRust.git"
    );
    assert_eq!(
        repo_dir_from_url("https://github.com/ylow/SFrameRust.git").unwrap(),
        "github.com/ylow/SFrameRust.git"
    );
    assert_eq!(
        repo_dir_from_url("https://github.com/ylow/SFrameRust").unwrap(),
        "github.com/ylow/SFrameRust.git"
    );
}

#[test]
fn test_repo_dir_from_url_git_protocol() {
    assert_eq!(
        repo_dir_from_url("git://github.com/ylow/SFrameRust").unwrap(),
        "github.com/ylow/SFrameRust.git"
    );
}

#[test]
fn test_repo_dir_from_url_invalid() {
    assert!(repo_dir_from_url("https://").is_err());
}

#[test]
fn repo_name_strips_scheme_slashes_and_git_suffix() {
    assert_eq!(
        repo_name_from_url("https://github.com/ylow/SFrameRust").unwrap(),
        "github.com/ylow/SFrameRust"
    );
    assert_eq!(
        repo_name_from_url("http://host/a/b.git///").unwrap(),
        "host/a/b"
    );
    assert_eq!(repo_name_from_url("host/x.git.git").unwrap(), "host/x");
    // Only one scheme is removed, the first that matches.
    assert_eq!(repo_name_from_url("https://git://x").unwrap(), "git://x");
}

#[test]
fn repo_dir_is_repo_name_with_git_suffix() {
    for url in ["https://a/b", "git://c/d.git", "e/f/", "http://g"] {
        let name = repo_name_from_url(url).unwrap();
        assert_eq!(repo_dir_from_url(url).unwrap(), format!("{name}.git"));
    }
}

#[test]
fn invalid_repo_url_message() {
    let err = repo_name_from_url("git://.git/").unwrap_err();
    assert_eq!(err.url, "git://.git/");
    assert_eq!(err.message(), "Invalid repo URL: git://.git/");
    assert!(repo_dir_from_url("").is_err());
}
