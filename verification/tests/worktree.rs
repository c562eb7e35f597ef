use prism::worktree::{
    create_worktree_step, sanitize_branch, str_contains, worktree_rel_path, WorktreeStep,
};

#[test]
fn sanitize_replaces_separators_and_spaces() {
    assert_eq!(sanitize_branch("feat/x y"), "feat-x-y");
    assert_eq!(sanitize_branch("main"), "main");
    assert_eq!(sanitize_branch(""), "");
    assert_eq!(sanitize_branch("a//b"), "a--b");
}

#[test]
fn rel_path_is_derived_from_project_and_branch() {
    assert_eq!(
        worktree_rel_path("p1", "feat/x"),
        ".prism/worktrees/p1/feat-x"
    );
    assert_eq!(worktree_rel_path("p2", "main"), ".prism/worktrees/p2/main");
}

#[test]
fn substring_search() {
    assert!(str_contains("fatal: branch 'x' already exists here", "already exists"));
    assert!(!str_contains("fatal: not a git repository", "already exists"));
    assert!(str_contains("abc", ""));
    assert!(!str_contains("ab", "abc"));
    assert!(str_contains("aab", "ab"));
}

#[test]
fn first_attempt_success_is_done() {
    assert_eq!(create_worktree_step(true, "", false), WorktreeStep::Done);
}

#[test]
fn existing_branch_earns_a_retry() {
    assert_eq!(
        create_worktree_step(false, "fatal: a branch named 'b' already exists", false),
        WorktreeStep::RetryExisting
    );
}

#[test]
fn other_failure_with_the_copy_on_disk_is_accepted() {
    assert_eq!(
        create_worktree_step(false, "fatal: some other complaint", true),
        WorktreeStep::Done
    );
}

#[test]
fn other_failure_with_nothing_on_disk_is_reported() {
    assert_eq!(
        create_worktree_step(false, "fatal: some other complaint", false),
        WorktreeStep::Fail
    );
}
