use repo_cli::provider::{
    detect_provider, extract_filename, split_diff_by_file, strip_code_blocks, truncate_diff,
    truncate_simple, AiProvider, MAX_DIFF_CHARS,
};

#[test]
fn test_strip_code_blocks() {
    assert_eq!(
        strip_code_blocks("fix(auth): handle null session"),
        "fix(auth): handle null session"
    );
    assert_eq!(
        strip_code_blocks("```\nfix(auth): handle null session\n```"),
        "fix(auth): handle null session"
    );
    assert_eq!(
        strip_code_blocks("```text\nfix(auth): handle null session\n```"),
        "fix(auth): handle null session"
    );
    assert_eq!(
        strip_code_blocks("```\nfix(auth): handle null session\n\nPrevents crash when user logs out\n```"),
        "fix(auth): handle null session\n\nPrevents crash when user logs out"
    );
    assert_eq!(
        strip_code_blocks("```\nfix(auth): handle null session"),
        "```\nfix(auth): handle null session"
    );
    assert_eq!(
        strip_code_blocks("  ```\nfix(auth): handle null session\n```  "),
        "fix(auth): handle null session"
    );
}

#[test]
fn test_truncate_diff_small() {
    let small_diff = "diff --git a/src/main.rs b/src/main.rs\n--- a/src/main.rs\n+++ b/src/main.rs\n@@ -1,3 +1,4 @@\n fn main() {\n+    println!(\"hello\");\n }";
    let result = truncate_diff(small_diff);
    assert_eq!(result, small_diff);
}

#[test]
fn test_truncate_diff_large() {
    let file1 = format!(
        "diff --git a/src/foo.rs b/src/foo.rs\n--- a/src/foo.rs\n+++ b/src/foo.rs\n{}",
        "+line\n".repeat(2000)
    );
    let file2 = format!(
        "diff --git a/src/bar.rs b/src/bar.rs\n--- a/src/bar.rs\n+++ b/src/bar.rs\n{}",
        "+another line\n".repeat(2000)
    );
    let large_diff = format!("{}\n{}", file1, file2);

    let result = truncate_diff(&large_diff);

    assert!(result.len() <= MAX_DIFF_CHARS + 200);
    assert!(result.contains("[2 FILES CHANGED]"));
    assert!(result.contains("src/foo.rs"));
    assert!(result.contains("src/bar.rs"));
    assert!(result.contains("TRUNCATED"));
}

#[test]
fn test_extract_filename() {
    assert_eq!(
        extract_filename("diff --git a/src/main.rs b/src/main.rs"),
        "src/main.rs"
    );
    assert_eq!(
        extract_filename("diff --git a/path/to/file.txt b/path/to/file.txt"),
        "path/to/file.txt"
    );
}

#[test]
fn test_split_diff_by_file() {
    let diff = "diff --git a/foo.rs b/foo.rs\n+foo\ndiff --git a/bar.rs b/bar.rs\n+bar";
    let chunks = split_diff_by_file(diff);
    assert_eq!(chunks.len(), 2);
    assert!(chunks[0].starts_with("diff --git a/foo.rs"));
    assert!(chunks[1].starts_with("diff --git a/bar.rs"));
}

#[test]
fn extract_filename_keeps_other_lines() {
    assert_eq!(extract_filename("--- a/x"), "--- a/x");
    assert_eq!(extract_filename("diff --git b/y b/y"), "b/y");
}

#[test]
fn split_diff_drops_blank_preamble() {
    let chunks = split_diff_by_file("  \ndiff --git a/a b/a\n+1\n");
    assert_eq!(chunks, vec!["diff --git a/a b/a\n+1".to_string()]);
    assert!(split_diff_by_file("").is_empty());
}

#[test]
fn truncate_simple_keeps_whole_lines() {
    let diff = "abc\ndef";
    assert_eq!(
        truncate_simple(diff, 3),
        "[3 FILES CHANGED — showing first 3 chars of 7 total]\n\nabc\n\n[TRUNCATED]"
    );
}

#[test]
fn truncate_diff_without_headers_keeps_one_chunk() {
    let diff = "x\n".repeat(5000);
    let result = truncate_diff(&diff);
    assert!(result.starts_with("[1 FILES CHANGED]\n\n\nx\nx"));
    assert!(result.ends_with("[TRUNCATED — 10000 chars total, 0 files shown, 1 partially/skipped]"));
}

#[test]
fn truncate_diff_many_files_is_simple() {
    let mut diff = String::new();
    for i in 0..60 {
        diff.push_str(&format!("diff --git a/f{} b/f{}\n{}", i, i, "+x\n".repeat(60)));
    }
    let result = truncate_diff(&diff);
    assert!(result.starts_with("[60 FILES CHANGED — showing first "));
    assert!(result.ends_with("\n\n[TRUNCATED]"));
}

#[test]
fn detect_provider_priority() {
    assert_eq!(detect_provider([false, true, true]), Some(AiProvider::Codex));
    assert_eq!(detect_provider([true, true, true]), Some(AiProvider::Claude));
    assert_eq!(detect_provider([false, false, true]), Some(AiProvider::Gemini));
    assert_eq!(detect_provider([false, false, false]), None);
}
