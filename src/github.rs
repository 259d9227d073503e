//! GitHub data as the summary shows it, and the owner and name of a GitHub remote.
use vstd::prelude::*;

use crate::text::{
    char_pos, char_pos_from, chars_of, contains, ends_with, starts_with, str_contains,
    str_ends_with, str_starts_with, string_of_range,
};

verus! {

#[derive(Debug, Clone)]
pub struct Stargazer {
    pub login: String,
    pub html_url: String,
}

#[derive(Debug, Clone)]
pub struct Fork {
    pub repo_name: String,
    pub repo_url: String,
    pub owner: String,
    pub owner_url: String,
    pub stars: u32,
}

#[derive(Debug, Clone)]
pub struct GithubStats {
    pub stars: u32,
    pub forks: u32,
}

/// `p` without a `.git` ending.
pub open spec fn without_git_suffix(p: Seq<char>) -> Seq<char> {
    if ends_with(p, ".git"@) {
        p.subrange(0, p.len() - 4)
    } else {
        p
    }
}

/// `owner/name`, split at the first `/`.
pub open spec fn owner_and_name(p: Seq<char>) -> Option<(Seq<char>, Seq<char>)> {
    let i = char_pos(p, '/');
    if 0 <= i < p.len() {
        Some((p.subrange(0, i), p.subrange(i + 1, p.len() as int)))
    } else {
        None
    }
}

/// The owner and repository name of a GitHub remote URL, in SSH form
/// (`git@github.com:owner/name.git`) or HTTP(S) form (`https://github.com/owner/name`).
pub open spec fn github_repo_of(url: Seq<char>) -> Option<(Seq<char>, Seq<char>)> {
    let ssh = "git@github.com:"@;
    if starts_with(url, ssh) {
        owner_and_name(without_git_suffix(url.subrange(ssh.len() as int, url.len() as int)))
    } else if contains(url, "github.com"@) {
        let host = if starts_with(url, "https://"@) {
            Some(url.subrange(8, url.len() as int))
        } else if starts_with(url, "http://"@) {
            Some(url.subrange(7, url.len() as int))
        } else {
            None
        };
        match host {
            Some(h) => if starts_with(h, "github.com/"@) {
                owner_and_name(without_git_suffix(h.subrange(11, h.len() as int)))
            } else {
                None
            },
            None => None,
        }
    } else {
        None
    }
}

/// Splits `v[lo..hi]`, without a `.git` ending, at its first `/`.
fn split_owner_name(v: &Vec<char>, lo: usize) -> (r: Option<(String, String)>)
    requires
        lo <= v@.len(),
    ensures
        match r {
            Some((o, n)) => owner_and_name(without_git_suffix(v@.subrange(lo as int, v@.len() as int)))
                == Some((o@, n@)),
            None => owner_and_name(without_git_suffix(v@.subrange(lo as int, v@.len() as int))) is None,
        },
{
    let ghost p = v@.subrange(lo as int, v@.len() as int);
    let tail = string_of_range(v, lo, v.len());
    let tv = chars_of(tail.as_str());
    let hi = if str_ends_with(&tv, ".git") {
        proof {
            reveal_strlit(".git");
        }
        v.len() - 4
    } else {
        v.len()
    };
    let mut part: Vec<char> = Vec::new();
    let mut i = lo;
    while i < hi
        invariant
            lo <= i <= hi <= v@.len(),
            part@ == v@.subrange(lo as int, i as int),
        decreases hi - i,
    {
        part.push(v[i]);
        assert(part@ =~= v@.subrange(lo as int, i + 1));
        i = i + 1;
    }
    assert(part@ =~= without_git_suffix(p));
    let slash = char_pos_from(&part, 0, '/');
    assert(part@.subrange(0, part@.len() as int) =~= part@);
    if slash < part.len() {
        let owner = string_of_range(&part, 0, slash);
        let name = string_of_range(&part, slash + 1, part.len());
        Some((owner, name))
    } else {
        None
    }
}

pub fn parse_github_url(url: &str) -> (r: Option<(String, String)>)
    ensures
        match r {
            Some((o, n)) => github_repo_of(url@) == Some((o@, n@)),
            None => github_repo_of(url@) is None,
        },
{
    let v = chars_of(url);
    proof {
        reveal_strlit("git@github.com:");
        reveal_strlit("https://");
        reveal_strlit("http://");
        reveal_strlit("github.com/");
    }
    if str_starts_with(&v, "git@github.com:") {
        return split_owner_name(&v, 15);
    }
    if !str_contains(url, "github.com") {
        return None;
    }
    let start: usize = if str_starts_with(&v, "https://") {
        8
    } else if str_starts_with(&v, "http://") {
        7
    } else {
        return None;
    };
    let host = string_of_range(&v, start, v.len());
    let hv = chars_of(host.as_str());
    if !str_starts_with(&hv, "github.com/") {
        return None;
    }
    assert(hv@.subrange(11, hv@.len() as int) =~= v@.subrange(start + 11, v@.len() as int));
    split_owner_name(&v, start + 11)
}

} // verus!
