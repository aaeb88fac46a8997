use siori::app::{Action, App, Tab};
use siori::input::{InputMode, Key, MouseInput};
use siori::processing::Processing;
use siori::status::StatusItem;

fn wt_item(path: &str) -> StatusItem {
    StatusItem {
        path: path.to_string(),
        index_new: false,
        index_modified: false,
        index_deleted: false,
        wt_new: true,
        wt_modified: false,
        wt_deleted: false,
        staged_stats: None,
        unstaged_stats: None,
    }
}

#[test]
fn test_tab_default() {
    assert_eq!(Tab::default(), Tab::Files);
}

#[test]
fn main_test_tab_default() {
    assert_eq!(Tab::default(), Tab::Files);
}

#[test]
fn test_input_mode_default() {
    assert_eq!(InputMode::default(), InputMode::Normal);
}

#[test]
fn main_test_input_mode_default() {
    assert_eq!(InputMode::default(), InputMode::Normal);
}

#[test]
fn test_processing_messages() {
    assert_eq!(Processing::Idle.message(), "");
    assert_eq!(Processing::Pushing.message(), "Pushing...");
    assert_eq!(Processing::Pulling.message(), "Pulling...");
    assert_eq!(Processing::Committing.message(), "Committing...");
    assert_eq!(Processing::PushingTags.message(), "Pushing tags...");
    assert!(!Processing::Idle.is_active());
    assert!(Processing::Pushing.is_active());
}

#[test]
fn test_commit_message_editing() {
    let mut app = App::new();
    app.handle_key(Key::Char('c'), false);
    assert_eq!(app.input_mode, InputMode::Insert);
    for c in "héllo".chars() {
        app.handle_key(Key::Char(c), false);
    }
    assert_eq!(app.commit_message_string(), "héllo");
    // backspace never splits a multi-byte character
    app.handle_key(Key::Left, false);
    app.handle_key(Key::Backspace, false);
    assert_eq!(app.commit_message_string(), "hélo");
    app.handle_key(Key::Home, false);
    app.handle_key(Key::Delete, false);
    assert_eq!(app.commit_message_string(), "élo");
    app.handle_key(Key::Right, false);
    app.handle_key(Key::Char('x'), false);
    assert_eq!(app.commit_message_string(), "éxlo");
    app.handle_key(Key::Esc, false);
    assert_eq!(app.input_mode, InputMode::Normal);
}

#[test]
fn test_empty_commit_message_rejected() {
    let mut app = App::new();
    app.handle_key(Key::Char('c'), false);
    app.handle_key(Key::Char(' '), false);
    let a = app.handle_key(Key::Enter, false);
    assert!(matches!(a, Action::NoOp));
    assert_eq!(app.message, Some(("Empty commit message".to_string(), true)));
    assert_eq!(app.processing, Processing::Idle);
}

#[test]
fn test_commit_starts_background_operation() {
    let mut app = App::new();
    app.handle_key(Key::Char('c'), false);
    for c in " fix: thing ".chars() {
        app.handle_key(Key::Char(c), false);
    }
    let a = app.handle_key(Key::Enter, false);
    match a {
        Action::RunCommit { message, amend } => {
            assert_eq!(message, "fix: thing");
            assert!(!amend);
        },
        _ => panic!("expected a commit to start"),
    }
    assert_eq!(app.processing, Processing::Committing);
    assert_eq!(app.input_mode, InputMode::Normal);
    assert_eq!(app.commit_message_string(), "");
}

#[test]
fn test_input_blocked_while_processing() {
    // no second background operation (nor any state change) while one is
    // in flight
    let mut app = App::new();
    app.begin_processing(Processing::Pushing);
    let a = app.handle_key(Key::Char('p'), false);
    assert!(matches!(a, Action::NoOp));
    let b = app.handle_key(Key::Char('P'), false);
    assert!(matches!(b, Action::NoOp));
    let c = app.handle_key(Key::Char('c'), false);
    assert!(matches!(c, Action::NoOp));
    assert_eq!(app.input_mode, InputMode::Normal);
    assert_eq!(app.processing, Processing::Pushing);
    let m = app.handle_mouse(MouseInput::ScrollDown);
    assert!(matches!(m, Action::NoOp));
}

#[test]
fn test_poll_completion_resets_processing() {
    let mut app = App::new();
    app.begin_processing(Processing::Pulling);
    assert!(!app.check_processing(None));
    assert_eq!(app.processing, Processing::Pulling);
    let refresh = app.check_processing(Some(Err("Pull failed: conflict".to_string())));
    assert!(refresh);
    assert_eq!(app.processing, Processing::Idle);
    assert_eq!(app.message, Some(("Pull failed: conflict".to_string(), true)));
}

#[test]
fn test_normal_mode_operations() {
    let mut app = App::new();
    let a = app.handle_key(Key::Char('P'), false);
    assert!(matches!(a, Action::CheckRemoteThenPush));
    app.handle_key(Key::Tab, false);
    assert_eq!(app.tab, Tab::Log);
    let b = app.handle_key(Key::Char('p'), false);
    assert!(matches!(b, Action::RunPull));
    assert_eq!(app.processing, Processing::Pulling);
}

#[test]
fn test_fullwidth_key_triggers_command() {
    let mut app = App::new();
    // a full-width q from composed input still quits
    assert!(app.running);
    app.handle_key(Key::Char('ｑ'), false);
    assert!(!app.running);
}

#[test]
fn test_stage_plan_of_selection() {
    let mut app = App::new();
    app.refresh_files(&vec![wt_item("a.txt"), wt_item("b.txt")], true);
    app.handle_key(Key::Char('j'), false);
    let a = app.handle_key(Key::Char(' '), false);
    match a {
        Action::ToggleStage { path, was_staged, remove_from_index, pos_in_section } => {
            assert_eq!(path, "b.txt");
            assert!(!was_staged);
            assert!(!remove_from_index);
            assert_eq!(pos_in_section, 1);
        },
        _ => panic!("expected a stage plan"),
    }
}

#[test]
fn test_stage_without_selection_reports() {
    let mut app = App::new();
    let a = app.handle_key(Key::Char(' '), false);
    assert!(matches!(a, Action::NoOp));
    assert_eq!(app.message, Some(("No file selected".to_string(), true)));
}

#[test]
fn test_selection_wraps_around() {
    let mut app = App::new();
    app.refresh_files(&vec![wt_item("a.txt"), wt_item("b.txt")], true);
    assert_eq!(app.files.selected, Some(0));
    app.handle_key(Key::Char('j'), false);
    assert_eq!(app.files.selected, Some(1));
    app.handle_key(Key::Char('j'), false);
    assert_eq!(app.files.selected, Some(0));
    app.handle_key(Key::Char('k'), false);
    assert_eq!(app.files.selected, Some(1));
}

#[test]
fn test_repo_picker_flow() {
    let mut app = App::new();
    app.open_repo_select(vec!["one".to_string(), "two".to_string()], 0);
    assert_eq!(app.input_mode, InputMode::RepoSelect);
    assert_eq!(app.repo_selected, Some(0));
    app.handle_key(Key::Char('j'), false);
    assert_eq!(app.repo_selected, Some(1));
    app.handle_key(Key::Char('j'), false);
    assert_eq!(app.repo_selected, Some(0));
    app.handle_key(Key::Char('k'), false);
    assert_eq!(app.repo_selected, Some(1));
    let a = app.handle_key(Key::Enter, false);
    assert!(matches!(a, Action::SwitchRepo { index: 1 }));
    assert_eq!(app.input_mode, InputMode::Normal);
}

#[test]
fn test_remote_url_flow() {
    let mut app = App::new();
    app.push_no_remote();
    assert_eq!(app.input_mode, InputMode::RemoteUrl);
    let empty = app.handle_key(Key::Enter, false);
    assert!(matches!(empty, Action::NoOp));
    assert_eq!(app.message, Some(("URL is empty".to_string(), true)));
    for c in "git@example:repo.git".chars() {
        app.handle_key(Key::Char(c), false);
    }
    app.handle_key(Key::Backspace, false);
    let a = app.handle_key(Key::Enter, false);
    match a {
        Action::AddRemoteAndPush { url } => assert_eq!(url, "git@example:repo.gi"),
        _ => panic!("expected the remote to be added"),
    }
    assert_eq!(app.input_mode, InputMode::Normal);
    assert_eq!(app.remote_url_string(), "");
}

#[test]
fn test_click_translates_rows() {
    let mut app = App::new();
    app.refresh_files(
        &vec![
            StatusItem {
                path: "s.txt".to_string(),
                index_new: true,
                index_modified: false,
                index_deleted: false,
                wt_new: false,
                wt_modified: false,
                wt_deleted: false,
                staged_stats: None,
                unstaged_stats: None,
            },
            wt_item("u.txt"),
        ],
        true,
    );
    // rows: 8 = staged header, 9 = staged entry, 10 = unstaged header,
    // 11 = first unstaged entry
    app.handle_mouse(MouseInput::LeftClick { column: 0, row: 11 });
    assert_eq!(app.files.selected, Some(1));
    app.handle_mouse(MouseInput::LeftClick { column: 0, row: 9 });
    assert_eq!(app.files.selected, Some(0));
    // a header row changes nothing
    app.handle_mouse(MouseInput::LeftClick { column: 0, row: 10 });
    assert_eq!(app.files.selected, Some(0));
    // the tab bar switches tabs
    app.handle_mouse(MouseInput::LeftClick { column: 0, row: 2 });
    assert_eq!(app.tab, Tab::Log);
    // the title row asks for the repository picker
    let a = app.handle_mouse(MouseInput::LeftClick { column: 0, row: 0 });
    assert!(matches!(a, Action::DetectRepos));
}

#[test]
fn test_spinner_wraps() {
    let mut app = App::new();
    let first = app.spinner_char();
    for _ in 0..10 {
        app.tick_spinner();
    }
    assert_eq!(app.spinner_char(), first);
}

#[test]
fn test_status_label() {
    let mut app = App::new();
    assert_eq!(app.status_label(), "");
    app.set_branch_info("main".to_string(), Some((0, 0)));
    assert_eq!(app.status_label(), "synced");
    app.set_branch_info("main".to_string(), Some((2, 0)));
    assert_eq!(app.status_label(), "↑2");
    app.set_branch_info("main".to_string(), Some((0, 3)));
    assert_eq!(app.status_label(), "↓3");
    app.set_branch_info("main".to_string(), Some((12, 3)));
    assert_eq!(app.status_label(), "↑12  ↓3");
}
