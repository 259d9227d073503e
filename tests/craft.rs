use repo_cli::actions::{RebaseAction, SplitGroup, TodoEntry};
use repo_cli::builder::{App, CraftResult, Key, Mode, Request};
use repo_cli::error::CraftError;
use repo_cli::execute::{classify_rebase_failure, needs_split_run, rebase_base};
use repo_cli::guard::{count_pushed, modified_indices, short_id, validate_state};
use repo_cli::models::CommitInfo;
use repo_cli::plan::validate_targets;
use repo_cli::script::{
    editor_messages, next_message, todo_steps, transform_todo, write_commit_editor,
    write_sequence_editor, write_split_automation, TodoStep,
};
use repo_cli::split::{build_hunk, generate_patch_for_hunks, DiffLine, DiffParseError, Hunk, RawDiffLine};

fn commit(id: &str, message: &str, parent: Option<&str>) -> CommitInfo {
    CommitInfo {
        id: id.to_string(),
        short_id: id[..7].to_string(),
        message: message.to_string(),
        author: "dev".to_string(),
        time: 0,
        parents: parent.map(|p| vec![p.to_string()]).unwrap_or_default(),
    }
}

/// C (newest), B, A (oldest), each on the one before; A's parent is `base`.
fn three_commits() -> Vec<CommitInfo> {
    vec![
        commit("ccccccc111", "C", Some("bbbbbbb111")),
        commit("bbbbbbb111", "B", Some("aaaaaaa111")),
        commit("aaaaaaa111", "A", Some("base000111")),
    ]
}

fn hunk(path: &str, header: &str, line: &str) -> Hunk {
    Hunk {
        file_path: path.to_string(),
        header: header.to_string(),
        lines: vec![DiffLine::Added(line.to_string())],
        old_start: 1,
        new_start: 1,
    }
}

fn m_hunks() -> Vec<Hunk> {
    vec![hunk("x", "@@ -1 +1,2 @@", "a\n"), hunk("x", "@@ -9 +10,2 @@", "b\n"), hunk("y", "@@ -1 +1,2 @@", "c")]
}

fn press(app: &mut App, keys: &[Key]) {
    for k in keys {
        let _ = app.handle_key(*k, false);
    }
}

fn indices(app: &App) -> Vec<usize> {
    app.plan.entries.iter().map(|e| e.original_idx).collect()
}

#[test]
fn reword_one_commit_scenario() {
    let commits = three_commits();
    let entries = vec![
        TodoEntry::pick(0),
        TodoEntry { original_idx: 1, action: RebaseAction::Reword("fix: b".to_string()) },
        TodoEntry::pick(2),
    ];
    let steps = todo_steps(&commits, &entries);
    let todo = "pick aaaaaaa A\npick bbbbbbb B\npick ccccccc C\n\n# Rebase base000..ccccccc\n";
    assert_eq!(
        transform_todo(todo, &steps),
        "pick aaaaaaa A\nreword bbbbbbb B\npick ccccccc C\n\n# Rebase base000..ccccccc\n"
    );
    let messages = editor_messages(&entries);
    assert_eq!(messages, vec![Some("fix: b".to_string())]);
    assert_eq!(next_message(0, messages.len()), (Some(0), 1));
    assert_eq!(next_message(1, messages.len()), (None, 2));
    assert_eq!(rebase_base(&commits, &entries), Some("base000111".to_string()));
}

#[test]
fn rebase_base_of_root_commit() {
    let commits = vec![commit("bbbbbbb111", "B", Some("aaaaaaa111")), commit("aaaaaaa111", "A", None)];
    let entries = vec![TodoEntry::pick(0), TodoEntry::pick(1)];
    assert_eq!(rebase_base(&commits, &entries), None);
    assert_eq!(rebase_base(&commits, &entries[..1]), Some("aaaaaaa111".to_string()));
}

#[test]
fn transform_reorders_and_is_idempotent() {
    let steps = vec![
        TodoStep { keyword: "pick".to_string(), short_id: "ccccccc".to_string() },
        TodoStep { keyword: "squash".to_string(), short_id: "aaaaaaa".to_string() },
        TodoStep { keyword: "drop".to_string(), short_id: "bbbbbbb".to_string() },
    ];
    let todo = "pick aaaaaaa A\n# note\npick bbbbbbb B\npick ccccccc C";
    let once = transform_todo(todo, &steps);
    assert_eq!(once, "pick ccccccc C\nsquash aaaaaaa A\ndrop bbbbbbb B\n# note\n");
    assert_eq!(transform_todo(&once, &steps), once);
    assert_eq!(transform_todo("", &steps), "");
}

#[test]
fn message_counter_never_serves_past_the_end() {
    assert_eq!(next_message(0, 0), (None, 1));
    assert_eq!(next_message(2, 3), (Some(2), 3));
    assert_eq!(next_message(3, 3), (None, 4));
    assert_eq!(next_message(usize::MAX, 3), (None, usize::MAX));
}

#[test]
fn editor_messages_keep_squash_slots() {
    let entries = vec![
        TodoEntry { original_idx: 0, action: RebaseAction::Reword("newest".to_string()) },
        TodoEntry { original_idx: 1, action: RebaseAction::Squash { into_idx: 2, message: None } },
        TodoEntry { original_idx: 2, action: RebaseAction::Squash { into_idx: 3, message: Some("mid".to_string()) } },
        TodoEntry { original_idx: 3, action: RebaseAction::Drop },
    ];
    assert_eq!(
        editor_messages(&entries),
        vec![Some("mid".to_string()), None, Some("newest".to_string())]
    );
}

#[test]
fn patch_groups_scenario() {
    let hunks = m_hunks();
    assert_eq!(
        generate_patch_for_hunks(&hunks, &[0, 2]),
        "--- a/x\n+++ b/x\n@@ -1 +1,2 @@\n+a\n--- a/y\n+++ b/y\n@@ -1 +1,2 @@\n+c\n"
    );
    assert_eq!(
        generate_patch_for_hunks(&hunks, &[1]),
        "--- a/x\n+++ b/x\n@@ -9 +10,2 @@\n+b\n"
    );
    assert_eq!(
        generate_patch_for_hunks(&hunks, &[0, 1]),
        "--- a/x\n+++ b/x\n@@ -1 +1,2 @@\n+a\n@@ -9 +10,2 @@\n+b\n"
    );
    assert_eq!(generate_patch_for_hunks(&hunks, &[]), "");
}

#[test]
fn patch_line_prefixes() {
    let h = Hunk {
        file_path: "f".to_string(),
        header: "@@ -1,3 +1,3 @@".to_string(),
        lines: vec![
            DiffLine::Context("keep\n".to_string()),
            DiffLine::Removed("old\n".to_string()),
            DiffLine::Added("new".to_string()),
            DiffLine::Added(String::new()),
        ],
        old_start: 1,
        new_start: 1,
    };
    assert_eq!(
        generate_patch_for_hunks(&[h.clone()], &[0]),
        "--- a/f\n+++ b/f\n@@ -1,3 +1,3 @@\n keep\n-old\n+new\n+\n"
    );
    assert_eq!(h.summary(), "f +2 -1");
}

#[test]
fn build_hunk_classifies_lines() {
    let raw = vec![
        RawDiffLine { origin: ' ', content: Some("a\n".to_string()) },
        RawDiffLine { origin: '+', content: Some("b\n".to_string()) },
        RawDiffLine { origin: '=', content: None },
        RawDiffLine { origin: '-', content: Some("c\n".to_string()) },
    ];
    let h = build_hunk("src/x.rs".to_string(), Some("@@ -1,2 +1,2 @@\n"), &raw, 1, 1).unwrap();
    assert_eq!(h.header, "@@ -1,2 +1,2 @@");
    assert_eq!(h.lines.len(), 3);
    assert!(matches!(&h.lines[1], DiffLine::Added(s) if s == "b\n"));
    let bad = vec![RawDiffLine { origin: '+', content: None }];
    assert_eq!(
        build_hunk("f".to_string(), Some(" @@ -1 +1 @@ "), &bad, 1, 1).err(),
        Some(DiffParseError::UndecodableLine { header: "@@ -1 +1 @@".to_string() })
    );
    assert_eq!(build_hunk("f".to_string(), None, &raw, 1, 1).err(), Some(DiffParseError::UndecodableHeader));
}

#[test]
fn dirty_tree_refuses_to_start() {
    assert!(matches!(validate_state(false, &[0, 0x100]), Err(CraftError::DirtyWorkingTree)));
    assert!(matches!(validate_state(false, &[0x1]), Err(CraftError::DirtyWorkingTree)));
    assert!(matches!(validate_state(true, &[]), Err(CraftError::DetachedHead)));
    assert!(validate_state(false, &[0, 0x4000]).is_ok());
    assert!(validate_state(false, &[]).is_ok());
}

#[test]
fn conflict_output_is_a_conflict() {
    let e = classify_rebase_failure("", "CONFLICT (content): Merge conflict in x");
    assert!(matches!(&e, CraftError::RebaseConflict { output } if output == "\nCONFLICT (content): Merge conflict in x"));
    assert!(e.message().contains("git rebase --abort"));
    let e = classify_rebase_failure("error: could not apply 1234567", "");
    assert!(matches!(e, CraftError::RebaseConflict { .. }));
    let e = classify_rebase_failure("out", "fatal: bad revision");
    assert!(matches!(&e, CraftError::RebaseFailed { output } if output == "out\nfatal: bad revision"));
}

#[test]
fn split_run_detection() {
    assert!(needs_split_run("interactive rebase in progress; onto 1234567"));
    assert!(needs_split_run("You are currently editing a commit"));
    assert!(!needs_split_run("nothing to commit, working tree clean"));
}

#[test]
fn reorder_keeps_every_entry() {
    let mut app = App::new(three_commits());
    press(&mut app, &[Key::Enter, Key::Char('m'), Key::Char('J')]);
    assert_eq!(app.mode, Mode::ReorderMode);
    assert_eq!(indices(&app), vec![1, 0, 2]);
    assert_eq!(app.plan.commits[1].message, "C");
    assert_eq!(app.cursor, 1);
    press(&mut app, &[Key::Char('J'), Key::Char('J')]);
    assert_eq!(indices(&app), vec![1, 2, 0]);
    let _ = app.handle_key(Key::Char('k'), true);
    assert_eq!(indices(&app), vec![1, 0, 2]);
    press(&mut app, &[Key::Esc]);
    assert_eq!(app.mode, Mode::CommitList);
    let mut sorted = indices(&app);
    sorted.sort();
    assert_eq!(sorted, vec![0, 1, 2]);
}

#[test]
fn reassigning_an_action_replaces_it() {
    let mut app = App::new(three_commits());
    press(&mut app, &[Key::Char('j'), Key::Enter, Key::Char('d')]);
    assert!(matches!(app.plan.entries[1].action, RebaseAction::Drop));
    press(&mut app, &[Key::Enter, Key::Char('r'), Key::End, Key::Backspace, Key::Char('b'), Key::Char('2'), Key::Esc]);
    assert!(matches!(&app.plan.entries[1].action, RebaseAction::Reword(m) if m == "b2"));
    assert_eq!(app.plan.entries[1].original_idx, 1);
    press(&mut app, &[Key::Enter, Key::Char('x')]);
    assert!(matches!(app.plan.entries[1].action, RebaseAction::Pick));
}

#[test]
fn reword_to_same_text_changes_nothing() {
    let mut app = App::new(three_commits());
    press(&mut app, &[Key::Enter, Key::Char('r'), Key::Esc]);
    assert!(matches!(app.plan.entries[0].action, RebaseAction::Pick));
    press(&mut app, &[Key::Enter, Key::Char('r'), Key::Home, Key::Delete, Key::Esc]);
    assert!(matches!(app.plan.entries[0].action, RebaseAction::Pick));
}

#[test]
fn squash_into_itself_is_rejected() {
    let mut app = App::new(three_commits());
    press(&mut app, &[Key::Enter, Key::Char('q'), Key::Enter]);
    assert!(matches!(app.plan.entries[0].action, RebaseAction::Pick));
    press(&mut app, &[Key::Enter, Key::Char('q'), Key::Char('j'), Key::Enter]);
    assert!(matches!(app.plan.entries[0].action, RebaseAction::Squash { into_idx: 1, message: None }));
    let bad = vec![TodoEntry { original_idx: 0, action: RebaseAction::Fixup { into_idx: 0 } }];
    assert!(matches!(validate_targets(&bad), Err(CraftError::SelfTarget { commit: 0 })));
    assert!(validate_targets(&[TodoEntry::pick(0)]).is_ok());
}

#[test]
fn fixup_goes_into_the_row_above() {
    let mut app = App::new(three_commits());
    press(&mut app, &[Key::Enter, Key::Char('f')]);
    assert!(matches!(app.plan.entries[0].action, RebaseAction::Pick));
    press(&mut app, &[Key::Char('j'), Key::Enter, Key::Char('f')]);
    assert!(matches!(app.plan.entries[1].action, RebaseAction::Fixup { into_idx: 0 }));
}

#[test]
fn preview_needs_an_action_and_cancel_cancels() {
    let mut app = App::new(three_commits());
    press(&mut app, &[Key::Char('p')]);
    assert_eq!(app.mode, Mode::CommitList);
    press(&mut app, &[Key::Char('q')]);
    assert!(app.should_quit);
    assert!(matches!(app.finish(), CraftResult::Cancel));
}

#[test]
fn split_session_builds_groups() {
    let mut app = App::new(three_commits());
    press(&mut app, &[Key::Enter]);
    assert_eq!(app.handle_key(Key::Char('s'), false), Request::LoadHunks { commit: 0 });
    app.hunks_loaded(Ok(m_hunks()));
    assert_eq!(app.mode, Mode::SplitView);
    // nothing assigned: finalize is refused
    press(&mut app, &[Key::Enter]);
    assert!(matches!(app.plan.entries[0].action, RebaseAction::Pick));
    assert_eq!(app.mode, Mode::SplitView);
    assert_eq!(app.status, "no hunks assigned to groups");
    press(&mut app, &[Key::Esc]);
    assert_eq!(app.mode, Mode::CommitList);
    // the cached hunks are reused
    assert_eq!(app.handle_key(Key::Enter, false), Request::Nothing);
    assert_eq!(app.handle_key(Key::Char('s'), false), Request::Nothing);
    assert_eq!(app.mode, Mode::SplitView);
    press(&mut app, &[Key::Char(' '), Key::Char('j'), Key::Char('2'), Key::Char('j'), Key::Char('1')]);
    press(&mut app, &[Key::Char('n'), Key::Char('y'), Key::Char('!'), Key::Enter]);
    press(&mut app, &[Key::Enter]);
    let groups: Vec<(Vec<usize>, String)> = match &app.plan.entries[0].action {
        RebaseAction::Split { groups } => groups.iter().map(|g| (g.hunk_indices.clone(), g.message.clone())).collect(),
        _ => panic!("not a split"),
    };
    assert_eq!(groups, vec![(vec![0, 2], "y!".to_string()), (vec![1], "split part 2".to_string())]);
    press(&mut app, &[Key::Char('p'), Key::Char('y')]);
    match app.finish() {
        CraftResult::Execute(entries, cache) => {
            let recipe = write_split_automation("/tmp/s", &entries, &cache).unwrap();
            assert_eq!(
                recipe.script,
                "#!/bin/sh\nset -e\n\ngit reset HEAD^\n\ngit apply --cached '/tmp/s/patch_0_0.patch'\ngit commit -m 'y!'\n\ngit apply --cached '/tmp/s/patch_0_1.patch'\ngit commit -m 'split part 2'\n\ngit rebase --continue\n"
            );
            assert_eq!(recipe.patches.len(), 2);
            assert_eq!(recipe.patches[1].name, "patch_0_1.patch");
            assert_eq!(recipe.patches[1].content, "--- a/x\n+++ b/x\n@@ -9 +10,2 @@\n+b\n");
        }
        CraftResult::Cancel => panic!("cancelled"),
    }
}

#[test]
fn split_hunk_error_returns_to_list() {
    let mut app = App::new(three_commits());
    press(&mut app, &[Key::Enter, Key::Char('s')]);
    app.hunks_loaded(Err("binary".to_string()));
    assert_eq!(app.mode, Mode::CommitList);
    assert!(app.status.contains("binary"));
}

#[test]
fn split_recipe_needs_hunks() {
    let entries = vec![TodoEntry {
        original_idx: 0,
        action: RebaseAction::Split { groups: vec![SplitGroup { hunk_indices: vec![0], message: "m".to_string() }] },
    }];
    let none: Vec<Option<Vec<Hunk>>> = vec![None];
    assert!(matches!(write_split_automation("/t", &entries, &none), Err(CraftError::MissingHunks { commit: 0 })));
    let empty: Vec<Option<Vec<Hunk>>> = vec![Some(vec![])];
    assert!(matches!(write_split_automation("/t", &entries, &empty), Err(CraftError::HunkOutOfRange { commit: 0 })));
}

#[test]
fn hook_scripts_quote_their_arguments() {
    let steps = vec![TodoStep { keyword: "reword".to_string(), short_id: "abc1234".to_string() }];
    assert_eq!(
        write_sequence_editor("/usr/bin/it's", &steps),
        "#!/bin/sh\nexec '/usr/bin/it'\\''s' craft-sequence-edit \"$1\" 'reword' 'abc1234'\n"
    );
    assert_eq!(
        write_commit_editor("/bin/repo", "/tmp/d", 12),
        "#!/bin/sh\nexec '/bin/repo' craft-message-edit '/tmp/d' 12 \"$1\"\n"
    );
}

#[test]
fn guard_helpers() {
    assert_eq!(short_id("0123456789abcdef"), "0123456");
    assert_eq!(short_id("abc"), "abc");
    let entries = vec![
        TodoEntry::pick(0),
        TodoEntry { original_idx: 2, action: RebaseAction::Drop },
        TodoEntry { original_idx: 1, action: RebaseAction::Edit },
    ];
    assert_eq!(modified_indices(&entries), vec![2, 1]);
    assert_eq!(count_pushed(&[2, 1], &[false, true, true]), 2);
    assert_eq!(count_pushed(&[2, 1], &[true, false, false]), 0);
}

#[test]
fn error_messages() {
    assert_eq!(CraftError::NoCommits.message(), "no commits found");
    assert_eq!(CraftError::DetachedHead.message(), "detached HEAD — cannot craft");
    assert_eq!(
        CraftError::SplitAutomationFailed { output: "boom".to_string() }.message(),
        "split automation failed:\nboom"
    );
    assert_eq!(
        CraftError::RebaseConflict { output: "o".to_string() }.message(),
        "rebase conflict:\no\nresolve manually:\n  git rebase --continue\n  git rebase --abort"
    );
    assert_eq!(CraftError::RebaseFailed { output: "x".to_string() }.message(), "rebase failed:\nx");
}

#[test]
fn reorder_down_then_up_restores() {
    let mut app = App::new(three_commits());
    app.plan.selected[0] = true;
    press(&mut app, &[Key::Enter, Key::Char('m'), Key::Char('J')]);
    assert_eq!(app.plan.selected, vec![false, true, false]);
    press(&mut app, &[Key::Char('K')]);
    assert_eq!(indices(&app), vec![0, 1, 2]);
    assert_eq!(app.plan.selected, vec![true, false, false]);
    assert_eq!(app.cursor, 0);
    assert_eq!(app.mode, Mode::ReorderMode);
}

#[test]
fn action_menu_returns_to_list() {
    let mut app = App::new(three_commits());
    press(&mut app, &[Key::Enter, Key::Char('e')]);
    assert_eq!(app.mode, Mode::CommitList);
    assert!(matches!(app.plan.entries[0].action, RebaseAction::Edit));
    press(&mut app, &[Key::Enter, Key::Char('z')]);
    assert_eq!(app.mode, Mode::ActionMenu);
    press(&mut app, &[Key::Esc]);
    assert_eq!(app.mode, Mode::CommitList);
    press(&mut app, &[Key::Enter, Key::Char('s')]);
    app.hunks_loaded(Ok(vec![]));
    assert_eq!(app.mode, Mode::CommitList);
    assert_eq!(app.status, "no hunks to split");
}
