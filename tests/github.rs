use repo_cli::github::parse_github_url;

#[test]
fn test_parse_ssh_url() {
    let result = parse_github_url("git@github.com:K-NRS/repo-cli.git");
    assert_eq!(result, Some(("K-NRS".to_string(), "repo-cli".to_string())));
}

#[test]
fn test_parse_https_url() {
    let result = parse_github_url("https://github.com/K-NRS/repo-cli.git");
    assert_eq!(result, Some(("K-NRS".to_string(), "repo-cli".to_string())));
}

#[test]
fn test_parse_https_no_git_suffix() {
    let result = parse_github_url("https://github.com/K-NRS/repo-cli");
    assert_eq!(result, Some(("K-NRS".to_string(), "repo-cli".to_string())));
}

#[test]
fn parse_rejects_other_hosts_and_shapes() {
    assert_eq!(parse_github_url("https://gitlab.com/a/b"), None);
    assert_eq!(parse_github_url("ftp://github.com/a/b"), None);
    assert_eq!(parse_github_url("git@github.com:noslash"), None);
    assert_eq!(
        parse_github_url("http://github.com/a/b/c"),
        Some(("a".to_string(), "b/c".to_string()))
    );
}
