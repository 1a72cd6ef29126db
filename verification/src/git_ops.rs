//! Names of repositories, derived from their URLs.
use vstd::prelude::*;
use vstd::string::*;
use crate::text::{chars_of, ends_with, ends_with_str, slice_chars, starts_with, starts_with_str,
    string_from_chars, trim_char_end,
};

verus! {

/// A URL from which no repository name can be derived.
#[derive(Debug, Clone)]
pub struct InvalidRepoUrl {
    pub url: String,
}

impl InvalidRepoUrl {
    /// The message that describes this error.
    pub fn message(&self) -> (m: String)
        ensures
            m@ == "Invalid repo URL: "@ + self.url@,
    {
        let mut m = "Invalid repo URL: ".to_owned();
        m.append(self.url.as_str());
        m
    }
}

/// The URL without its `https://`, `http://` or `git://` scheme (the first that matches).
pub open spec fn strip_scheme(u: Seq<char>) -> Seq<char> {
    if starts_with(u, "https://"@) {
        u.skip("https://"@.len() as int)
    } else if starts_with(u, "http://"@) {
        u.skip("http://"@.len() as int)
    } else if starts_with(u, "git://"@) {
        u.skip("git://"@.len() as int)
    } else {
        u
    }
}

/// `s` with every trailing repetition of `suffix` removed (`str::trim_end_matches`).
pub open spec fn trim_suffix_all(s: Seq<char>, suffix: Seq<char>) -> Seq<char>
    decreases s.len(),
{
    if suffix.len() > 0 && ends_with(s, suffix) {
        trim_suffix_all(s.take(s.len() - suffix.len()), suffix)
    } else {
        s
    }
}

/// Host and path of a repository URL: no scheme, no trailing `/`, no trailing `.git`.
pub open spec fn repo_path_part(url: Seq<char>) -> Seq<char> {
    trim_suffix_all(trim_char_end(strip_scheme(url), '/'), ".git"@)
}

/// The human-readable name of a repository URL, or `None` when nothing is left of it.
pub open spec fn spec_repo_name(url: Seq<char>) -> Option<Seq<char>> {
    let p = repo_path_part(url);
    if p.len() == 0 {
        None
    } else {
        Some(p)
    }
}

/// The local directory of a repository URL: its name followed by `.git`.
pub open spec fn spec_repo_dir(url: Seq<char>) -> Option<Seq<char>> {
    match spec_repo_name(url) {
        Some(name) => Some(name + ".git"@),
        None => None,
    }
}

/// A URL has a local directory exactly when it has a name, and the directory is
/// the name with `.git` appended; the name itself never ends in `.git`.
pub proof fn law_repo_dir_is_name_with_git_suffix(url: Seq<char>)
    ensures
        spec_repo_dir(url) is Some <==> spec_repo_name(url) is Some,
        spec_repo_name(url) matches Some(name) ==> spec_repo_dir(url) == Some(name + ".git"@)
            && !ends_with(name, ".git"@),
{
    reveal_strlit(".git");
    lemma_trim_suffix_all(trim_char_end(strip_scheme(url), '/'), ".git"@);
}

proof fn lemma_trim_suffix_all(s: Seq<char>, suffix: Seq<char>)
    requires
        suffix.len() > 0,
    ensures
        !ends_with(trim_suffix_all(s, suffix), suffix),
    decreases s.len(),
{
    if ends_with(s, suffix) {
        lemma_trim_suffix_all(s.take(s.len() - suffix.len()), suffix);
    }
}

fn strip_scheme_exec(v: &[char]) -> (r: Vec<char>)
    ensures
        r@ == strip_scheme(v@),
{
    if starts_with_str(v, "https://") {
        let r = slice_chars(v, "https://".unicode_len(), v.len());
        assert(r@ =~= v@.skip("https://"@.len() as int));
        r
    } else if starts_with_str(v, "http://") {
        let r = slice_chars(v, "http://".unicode_len(), v.len());
        assert(r@ =~= v@.skip("http://"@.len() as int));
        r
    } else if starts_with_str(v, "git://") {
        let r = slice_chars(v, "git://".unicode_len(), v.len());
        assert(r@ =~= v@.skip("git://"@.len() as int));
        r
    } else {
        let r = slice_chars(v, 0, v.len());
        assert(r@ =~= v@);
        r
    }
}

fn trim_end_char_exec(v: Vec<char>, c: char) -> (r: Vec<char>)
    ensures
        r@ == trim_char_end(v@, c),
{
    let mut v = v;
    let ghost orig = v@;
    while v.len() > 0 && v[v.len() - 1] == c
        invariant
            trim_char_end(orig, c) == trim_char_end(v@, c),
        decreases v.len(),
    {
        v.pop();
    }
    v
}

fn trim_suffix_exec(v: Vec<char>, suffix: &str) -> (r: Vec<char>)
    ensures
        r@ == trim_suffix_all(v@, suffix@),
{
    let n = suffix.unicode_len();
    let mut v = v;
    let ghost orig = v@;
    while n > 0 && ends_with_str(&v, suffix)
        invariant
            n == suffix@.len(),
            trim_suffix_all(orig, suffix@) == trim_suffix_all(v@, suffix@),
        decreases v.len(),
    {
        let ghost prev = v@;
        let keep = v.len() - n;
        v = slice_chars(&v, 0, keep);
        assert(v@ =~= prev.take(prev.len() - suffix@.len()));
    }
    v
}

fn repo_path_part_exec(url: &str) -> (r: Vec<char>)
    ensures
        r@ == repo_path_part(url@),
{
    let v = chars_of(url);
    let a = strip_scheme_exec(&v);
    let b = trim_end_char_exec(a, '/');
    trim_suffix_exec(b, ".git")
}

/// Derive a human-readable repo name from a URL.
/// e.g. "https://github.com/ylow/SFrameRust" -> "github.com/ylow/SFrameRust"
pub fn repo_name_from_url(url: &str) -> (r: Result<String, InvalidRepoUrl>)
    ensures
        match r {
            Ok(name) => spec_repo_name(url@) == Some(name@),
            Err(e) => spec_repo_name(url@) is None && e.url@ == url@,
        },
{
    let p = repo_path_part_exec(url);
    if p.len() == 0 {
        return Err(InvalidRepoUrl { url: url.to_owned() });
    }
    Ok(string_from_chars(&p))
}

/// Derive a local path for a repo from its URL.
/// "https://github.com/ylow/SFrameRust/" -> "github.com/ylow/SFrameRust.git"
pub fn repo_dir_from_url(url: &str) -> (r: Result<String, InvalidRepoUrl>)
    ensures
        match r {
            Ok(dir) => spec_repo_dir(url@) == Some(dir@),
            Err(e) => spec_repo_dir(url@) is None && e.url@ == url@,
        },
{
    let p = repo_path_part_exec(url);
    if p.len() == 0 {
        return Err(InvalidRepoUrl { url: url.to_owned() });
    }
    let mut dir = string_from_chars(&p);
    dir.append(".git");
    Ok(dir)
}

} // verus!
