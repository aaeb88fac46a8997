use siori::status::{build_snapshot, FileEntry, FileList, FileStatus, StatusItem};

fn wt_item(path: &str) -> StatusItem {
    StatusItem {
        path: path.to_string(),
        index_new: false,
        index_modified: false,
        index_deleted: false,
        wt_new: false,
        wt_modified: true,
        wt_deleted: false,
        staged_stats: None,
        unstaged_stats: Some((1, 1)),
    }
}

fn index_item(path: &str) -> StatusItem {
    StatusItem {
        path: path.to_string(),
        index_new: false,
        index_modified: true,
        index_deleted: false,
        wt_new: false,
        wt_modified: false,
        wt_deleted: false,
        staged_stats: Some((2, 0)),
        unstaged_stats: None,
    }
}

fn both_item(path: &str) -> StatusItem {
    StatusItem {
        path: path.to_string(),
        index_new: true,
        index_modified: false,
        index_deleted: false,
        wt_new: false,
        wt_modified: true,
        wt_deleted: false,
        staged_stats: Some((3, 0)),
        unstaged_stats: Some((0, 1)),
    }
}

#[test]
fn test_file_status_display() {
    let file = FileEntry {
        path: "test.rs".to_string(),
        status: FileStatus::Added,
        staged: true,
        diff_stats: Some((10, 5)),
    };
    assert_eq!(file.path, "test.rs");
    assert!(file.staged);
}

#[test]
fn main_test_file_status_display() {
    let file = FileEntry {
        path: "test.rs".to_string(),
        status: FileStatus::Added,
        staged: true,
        diff_stats: Some((10, 5)),
    };
    assert_eq!(file.path, "test.rs");
    assert!(file.staged);
}

#[test]
fn test_snapshot_visual_is_permutation() {
    // a path with both kinds of change yields two entries; every entry
    // index appears exactly once in the visual list
    let items = vec![wt_item("a.txt"), both_item("b.txt"), index_item("c.txt")];
    let (files, visual) = build_snapshot(&items, true);
    assert_eq!(files.len(), 4);
    assert_eq!(visual.len(), files.len());
    let mut seen = vec![false; files.len()];
    for &i in &visual {
        assert!(i < files.len());
        assert!(!seen[i]);
        seen[i] = true;
    }
}

#[test]
fn test_snapshot_sections_ordered() {
    let items = vec![wt_item("a.txt"), both_item("b.txt"), index_item("c.txt")];
    let (files, visual) = build_snapshot(&items, true);
    // staged prefix in scan order, then unstaged suffix in scan order
    let staged: Vec<&str> = visual
        .iter()
        .take_while(|&&i| files[i].staged)
        .map(|&i| files[i].path.as_str())
        .collect();
    let unstaged: Vec<&str> = visual
        .iter()
        .skip(staged.len())
        .map(|&i| files[i].path.as_str())
        .collect();
    assert_eq!(staged, vec!["b.txt", "c.txt"]);
    assert_eq!(unstaged, vec!["a.txt", "b.txt"]);
    assert!(visual.iter().skip(staged.len()).all(|&i| !files[i].staged));
}

#[test]
fn test_snapshot_classification_and_stats() {
    let items = vec![both_item("b.txt")];
    let (files, _) = build_snapshot(&items, true);
    assert_eq!(files[0].status, FileStatus::Added);
    assert!(files[0].staged);
    assert_eq!(files[0].diff_stats, Some((3, 0)));
    assert_eq!(files[1].status, FileStatus::Modified);
    assert!(!files[1].staged);
    assert_eq!(files[1].diff_stats, Some((0, 1)));

    // the cheap path leaves the stats out
    let (cheap, _) = build_snapshot(&items, false);
    assert_eq!(cheap[0].diff_stats, None);
    assert_eq!(cheap[1].diff_stats, None);
}

fn assert_same_list(a: &FileList, b: &FileList) {
    assert_eq!(a.files.len(), b.files.len());
    for (x, y) in a.files.iter().zip(b.files.iter()) {
        assert_eq!(x.path, y.path);
        assert_eq!(x.status, y.status);
        assert_eq!(x.staged, y.staged);
        assert_eq!(x.diff_stats, y.diff_stats);
    }
    assert_eq!(a.visual, b.visual);
    assert_eq!(a.selected, b.selected);
}

#[test]
fn test_cheap_refresh_idempotent() {
    // the second cheap rebuild from the same scan changes nothing: the
    // fingerprint left by the first short-circuits it
    let items = vec![wt_item("a.txt"), index_item("b.txt")];
    let mut first = FileList::new();
    first.refresh(&items, false);
    let mut second = FileList::new();
    second.refresh(&items, false);
    second.refresh(&items, false);
    assert_same_list(&first, &second);
    assert!(second.fingerprint.is_some());
}

#[test]
fn test_cheap_refresh_sees_changes() {
    let items = vec![wt_item("a.txt")];
    let mut list = FileList::new();
    list.refresh(&items, false);
    assert_eq!(list.files.len(), 1);
    let more = vec![wt_item("a.txt"), wt_item("b.txt")];
    list.refresh(&more, false);
    assert_eq!(list.files.len(), 2);
}

#[test]
fn test_cursor_follows_staged_file() {
    // unstaged [a, b, c] with b selected; staging b puts it at the head
    // of the now non-empty staged section, and the cursor follows it
    let before = vec![wt_item("a.txt"), wt_item("b.txt"), wt_item("c.txt")];
    let mut list = FileList::new();
    list.refresh(&before, true);
    assert_eq!(list.selected, Some(0));
    list.selected = Some(1);

    let after = vec![wt_item("a.txt"), index_item("b.txt"), wt_item("c.txt")];
    list.refresh(&after, true);
    list.follow_after_toggle(&"b.txt".to_string(), false, 1);
    assert_eq!(list.selected, Some(0));
    let idx = list.visual[0];
    assert_eq!(list.files[idx].path, "b.txt");
    assert!(list.files[idx].staged);
}

#[test]
fn test_stage_only_remaining_file() {
    // staging the only unstaged file while the staged section was empty
    // leaves a valid selection
    let before = vec![wt_item("x.txt")];
    let mut list = FileList::new();
    list.refresh(&before, true);
    assert_eq!(list.selected, Some(0));

    let after = vec![index_item("x.txt")];
    list.refresh(&after, true);
    list.follow_after_toggle(&"x.txt".to_string(), false, 0);
    assert_eq!(list.selected, Some(0));
    assert_eq!(list.visual.len(), 1);
}

#[test]
fn test_unstage_last_staged_file_falls_back() {
    // the unstaged file vanished from its section and is found in the
    // other one by path identity
    let before = vec![index_item("x.txt"), wt_item("y.txt")];
    let mut list = FileList::new();
    list.refresh(&before, true);
    list.selected = Some(0);

    let after = vec![wt_item("x.txt"), wt_item("y.txt")];
    list.refresh(&after, true);
    list.follow_after_toggle(&"x.txt".to_string(), true, 0);
    let v = list.selected.unwrap();
    let idx = list.visual[v];
    assert_eq!(list.files[idx].path, "x.txt");
    assert!(!list.files[idx].staged);
}

#[test]
fn test_empty_scan_clears_selection() {
    let mut list = FileList::new();
    list.refresh(&vec![wt_item("a.txt")], true);
    assert_eq!(list.selected, Some(0));
    list.refresh(&Vec::new(), true);
    assert_eq!(list.selected, None);
    assert!(list.visual.is_empty());
}
