use repo_cli::config::{default_true, Config, MessageBoxStyle};
use repo_cli::detect::{detect_project_type, ProjectFiles, ProjectType};
use repo_cli::models::WorkingTreeStatus;
use repo_cli::update::{
    check_for_update, get_platform_asset, is_newer, parse_version, Asset, FetchError, Release,
    UpdateError,
};

#[test]
fn test_detect_none() {
    assert_eq!(detect_project_type(&ProjectFiles::default()), None);
}

#[test]
fn detect_priorities() {
    let rust = ProjectFiles { cargo_toml: true, package_json: true, ..Default::default() };
    assert_eq!(detect_project_type(&rust), Some(ProjectType::Rust));
    let go = ProjectFiles { go_mod: true, ..Default::default() };
    assert_eq!(detect_project_type(&go), Some(ProjectType::Go));
    let bun = ProjectFiles { package_json: true, bun_lockb: true, ..Default::default() };
    assert_eq!(detect_project_type(&bun), Some(ProjectType::Bun));
    let rn = ProjectFiles { package_json: true, app_json: true, react_native_dep: true, bun_lockb: true, ..Default::default() };
    assert_eq!(detect_project_type(&rn), Some(ProjectType::ReactNative));
    let npm = ProjectFiles { package_json: true, ..Default::default() };
    assert_eq!(detect_project_type(&npm), Some(ProjectType::NodeJs));
}

#[test]
fn project_type_names() {
    assert_eq!(ProjectType::from_str("Next.JS"), Some(ProjectType::NextJs));
    assert_eq!(ProjectType::from_str("golang"), Some(ProjectType::Go));
    assert_eq!(ProjectType::from_str("cobol"), None);
    assert_eq!(ProjectType::Pnpm.name(), "Node.js (pnpm)");
    assert_eq!(ProjectType::all().len(), 10);
    assert_eq!(ProjectType::all()[9], ProjectType::Generic);
}

#[test]
fn config_defaults() {
    let c = Config::default();
    assert!(c.show_github_stats);
    assert!(!c.auto_fetch);
    assert_eq!(c.message_box_style, MessageBoxStyle::Box);
    assert!(default_true());
}

#[test]
fn working_tree_counts() {
    let s = WorkingTreeStatus { staged: 2, modified: 3, untracked: 0, conflicted: 0 };
    assert!(!s.is_clean());
    assert_eq!(s.total_changes(), 5);
    let clean = WorkingTreeStatus { staged: 0, modified: 0, untracked: 0, conflicted: 0 };
    assert!(clean.is_clean());
}

#[test]
fn platform_asset_by_name() {
    let asset = |n: &str| Asset { name: n.to_string(), browser_download_url: String::new(), size: 1 };
    let release = Release {
        tag_name: "v1.0.0".to_string(),
        name: None,
        body: None,
        assets: vec![asset("repo-x86_64-pc-windows-msvc.zip"), asset("repo-x86_64-unknown-linux-gnu.tar.gz")],
        html_url: String::new(),
    };
    assert_eq!(
        get_platform_asset(&release, "x86_64-unknown-linux-gnu", false).map(|a| a.name.clone()),
        Some("repo-x86_64-unknown-linux-gnu.tar.gz".to_string())
    );
    assert!(get_platform_asset(&release, "x86_64-unknown-linux-gnu", true).is_none());
    assert!(get_platform_asset(&release, "x86_64-pc-windows-msvc", true).is_some());
}

#[test]
fn test_is_newer() {
    assert!(is_newer("1.0.0", "0.1.0").unwrap());
    assert!(is_newer("v1.0.0", "0.9.9").unwrap());
    assert!(!is_newer("0.1.0", "1.0.0").unwrap());
    assert!(!is_newer("1.0.0", "1.0.0").unwrap());
}

#[test]
fn is_newer_names_the_bad_version() {
    assert_eq!(is_newer("invalid", "1.0.0").unwrap_err().text, "invalid");
    assert_eq!(is_newer("vv2.0.0", "nope").unwrap_err().text, "nope");
    assert!(is_newer("vv2.0.0", "1.0.0").unwrap());
    assert!(!is_newer("1.0.0-rc.1", "1.0.0").unwrap());
}

#[test]
fn test_parse_version() {
    assert!(parse_version("1.0.0").is_ok());
    assert!(parse_version("v1.0.0").is_ok());
    assert!(parse_version("0.1.0").is_ok());
    assert!(parse_version("invalid").is_err());
}

#[test]
fn workflow_templates_differ_by_type() {
    let rust = repo_cli::templates::get_workflow_template(ProjectType::Rust);
    assert!(rust.starts_with("name: Auto Release"));
    assert!(rust.contains("cargo build --release"));
    let go = repo_cli::templates::get_workflow_template(ProjectType::Go);
    assert!(go.contains("go-version"));
    assert_ne!(rust, go);
}

#[test]
fn truncate_with_ellipsis() {
    assert_eq!(repo_cli::text::truncate("hello world", 8), "hello...");
    assert_eq!(repo_cli::text::truncate("short", 8), "short");
    assert_eq!(repo_cli::text::truncate("abcd", 3), "...");
}

#[test]
fn update_check_decisions() {
    let release = |tag: &str| Release {
        tag_name: tag.to_string(),
        name: None,
        body: None,
        assets: vec![],
        html_url: String::new(),
    };
    assert!(matches!(check_for_update(Err(FetchError::NoReleases), "1.0.0"), Ok(None)));
    assert!(matches!(
        check_for_update(Err(FetchError::Other { message: "down".to_string() }), "1.0.0"),
        Err(UpdateError::Fetch { message }) if message == "down"
    ));
    assert!(matches!(check_for_update(Ok(release("v2.0.0")), "1.0.0"), Ok(Some(r)) if r.tag_name == "v2.0.0"));
    assert!(matches!(check_for_update(Ok(release("v1.0.0")), "1.0.0"), Ok(None)));
    assert!(matches!(check_for_update(Ok(release("latest")), "1.0.0"), Err(UpdateError::Version(_))));
}
