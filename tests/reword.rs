use repo_cli::actions::RebaseAction;
use repo_cli::models::CommitInfo;
use repo_cli::reword::{apply_pick_input, auto_selection, picked, reword_plan, PickStep};
use repo_cli::selection::parse_selection;

#[test]
fn parse_selection_numbers_and_ranges() {
    assert_eq!(parse_selection("3", 5), Some(vec![2]));
    assert_eq!(parse_selection("1-3", 5), Some(vec![0, 1, 2]));
    assert_eq!(parse_selection("4-2", 5), Some(vec![1, 2, 3]));
    assert_eq!(parse_selection("1, 3 ,5", 5), Some(vec![0, 2, 4]));
    assert_eq!(parse_selection(" 2 - 3 ,1", 5), Some(vec![1, 2, 0]));
    assert_eq!(parse_selection("+2", 5), Some(vec![1]));
}

#[test]
fn parse_selection_rejects() {
    assert_eq!(parse_selection("0", 5), None);
    assert_eq!(parse_selection("6", 5), None);
    assert_eq!(parse_selection("1-2-3", 5), None);
    assert_eq!(parse_selection("x", 5), None);
    assert_eq!(parse_selection("1,", 5), None);
    assert_eq!(parse_selection("", 5), None);
    assert_eq!(parse_selection("99999999999999999999999", 5), None);
    assert_eq!(parse_selection("1-", 5), None);
}

#[test]
fn pick_input_toggles_and_skips_merges() {
    let merge = vec![false, true, false];
    let mut sel = vec![false; 3];
    assert_eq!(apply_pick_input(&mut sel, &merge, "1-3\n"), PickStep::Applied { skipped_merges: vec![1] });
    assert_eq!(sel, vec![true, false, true]);
    assert_eq!(apply_pick_input(&mut sel, &merge, "1"), PickStep::Applied { skipped_merges: vec![] });
    assert_eq!(sel, vec![false, false, true]);
    assert_eq!(apply_pick_input(&mut sel, &merge, "zz"), PickStep::Invalid);
    assert_eq!(sel, vec![false, false, true]);
    assert_eq!(apply_pick_input(&mut sel, &merge, " a "), PickStep::Applied { skipped_merges: vec![] });
    assert_eq!(sel, vec![true, false, true]);
    assert_eq!(picked(&sel, &merge), vec![0, 2]);
    assert_eq!(apply_pick_input(&mut sel, &merge, "n"), PickStep::Applied { skipped_merges: vec![] });
    assert_eq!(sel, vec![false, false, false]);
    assert_eq!(apply_pick_input(&mut sel, &merge, "  \n"), PickStep::Done);
}

#[test]
fn auto_selection_modes() {
    let merge = vec![false, true, false, false];
    assert_eq!(auto_selection(&merge, true, None), Some(vec![0, 2, 3]));
    assert_eq!(auto_selection(&merge, false, Some(3)), Some(vec![0, 2]));
    assert_eq!(auto_selection(&merge, false, Some(10)), Some(vec![0, 2, 3]));
    assert_eq!(auto_selection(&merge, false, None), None);
}

#[test]
fn reword_plan_reaches_the_oldest() {
    let plan = reword_plan(5, &vec![(3, "old".to_string()), (1, "newer".to_string())]);
    assert_eq!(plan.len(), 4);
    assert!(matches!(plan[0].action, RebaseAction::Pick));
    assert!(matches!(&plan[1].action, RebaseAction::Reword(m) if m == "newer"));
    assert!(matches!(plan[2].action, RebaseAction::Pick));
    assert!(matches!(&plan[3].action, RebaseAction::Reword(m) if m == "old"));
    assert_eq!(plan[3].original_idx, 3);
    assert!(reword_plan(5, &vec![]).is_empty());
}

#[test]
fn merge_commits() {
    let c = CommitInfo {
        id: "a".to_string(),
        short_id: "a".to_string(),
        message: String::new(),
        author: String::new(),
        time: 0,
        parents: vec!["p".to_string(), "q".to_string()],
    };
    assert!(c.is_merge());
}
