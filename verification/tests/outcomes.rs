use siori::config::{
    default_commit_message, default_tag_format, default_true, Config, RepoConfig,
};
use siori::processing::{add_remote_push_message, git_outcome};

#[test]
fn test_git_outcome_success() {
    let r = git_outcome(true, "ok\n", "", "Pushed successfully", "Push failed");
    assert_eq!(r, Ok("Pushed successfully".to_string()));
}

#[test]
fn test_git_outcome_nothing_to_commit() {
    let r = git_outcome(
        true,
        "On branch main\nnothing to commit, working tree clean\n",
        "",
        "Committed successfully",
        "Commit failed",
    );
    assert_eq!(
        r,
        Err("Commit failed: On branch main\nnothing to commit, working tree clean".to_string())
    );
}

#[test]
fn test_git_outcome_no_changes_added() {
    let r = git_outcome(true, "no changes added to commit\n", "", "done", "Commit failed");
    assert_eq!(r, Err("Commit failed: no changes added to commit".to_string()));
}

#[test]
fn test_git_outcome_failure_prefers_stderr() {
    let r = git_outcome(false, "partial\n", " remote rejected \n", "done", "Push failed");
    assert_eq!(r, Err("Push failed: remote rejected".to_string()));
}

#[test]
fn test_git_outcome_failure_falls_back_to_stdout() {
    let r = git_outcome(false, "what stdout said\n", "  \n", "done", "Pull failed");
    assert_eq!(r, Err("Pull failed: what stdout said".to_string()));
}

#[test]
fn test_add_remote_push_messages() {
    assert_eq!(
        add_remote_push_message(false, "already exists\n", false, ""),
        ("Failed: already exists".to_string(), true)
    );
    assert_eq!(
        add_remote_push_message(true, "", true, ""),
        ("Remote added & pushed!".to_string(), false)
    );
    assert_eq!(
        add_remote_push_message(true, "", false, "no route\n"),
        ("Push failed: no route".to_string(), true)
    );
}

#[test]
fn test_config_defaults() {
    assert!(default_true());
    assert_eq!(default_commit_message(), "chore: bump version to {version}");
    assert_eq!(default_tag_format(), "v{version}");
    let c = Config::default();
    assert!(c.ui.show_hints);
    assert!(!c.diff.skip_confirm);
    assert!(c.colors.staged.is_none());
    let r = RepoConfig::default();
    assert!(r.version.confirm);
    assert_eq!(r.version.commit_message, "chore: bump version to {version}");
    assert_eq!(r.version.tag_format, "v{version}");
    assert!(r.version.additional_files.is_empty());
    assert!(r.version.ignore.is_empty());
}
