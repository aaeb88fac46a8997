use siori::log::{parse_ls_remote_tags, LogList, RawCommit, RefTip, TagInfo};

fn raw(id: &str, summary: &str, time: i64) -> RawCommit {
    RawCommit { id: id.to_string(), summary: summary.to_string(), time }
}

fn tip(name: &str, target: &str) -> RefTip {
    RefTip { name: name.to_string(), target: target.to_string() }
}

const C1: &str = "0123456789abcdef0123456789abcdef01234567";
const C2: &str = "89abcdef0123456789abcdef0123456789abcdef";

#[test]
fn test_tag_info() {
    let pushed_tag = TagInfo { name: "v1.0.0".to_string(), pushed: true };
    let unpushed_tag = TagInfo { name: "v2.0.0".to_string(), pushed: false };
    assert_eq!(pushed_tag.name, "v1.0.0");
    assert!(pushed_tag.pushed);
    assert_eq!(unpushed_tag.name, "v2.0.0");
    assert!(!unpushed_tag.pushed);
}

#[test]
fn test_log_assembly() {
    let now = 1_000_000i64;
    let raws = vec![raw(C1, "second commit", now - 120), raw(C2, "first commit", now - 7200)];
    let refs = vec![
        tip("refs/remotes/origin/main", C2),
        tip("refs/tags/v1.0.0", C2),
        tip("refs/heads/main", C1),
    ];
    let mut log = LogList::new();
    log.rebuild(&raws, &refs, &Some(C1.to_string()), true, &vec!["v1.0.0".to_string()], now);

    assert_eq!(log.commits.len(), 2);
    assert_eq!(log.selected, Some(0));

    let head = &log.commits[0];
    assert_eq!(head.id, "0123456");
    assert_eq!(head.full_id, C1);
    assert_eq!(head.message, "second commit");
    assert_eq!(head.time, "2 min ago");
    assert!(head.is_head);
    assert!(head.remote_branches.is_empty());
    assert!(head.tags.is_empty());

    let older = &log.commits[1];
    assert_eq!(older.id, "89abcde");
    assert!(!older.is_head);
    assert_eq!(older.remote_branches, vec!["origin/main".to_string()]);
    assert_eq!(older.tags, vec![TagInfo { name: "v1.0.0".to_string(), pushed: true }]);
    assert_eq!(older.time, "2 hours ago");
}

#[test]
fn test_log_cap_at_hundred() {
    let now = 0i64;
    let mut raws = Vec::new();
    for i in 0..150 {
        raws.push(raw(&format!("{:040}", i), "one of many", now));
    }
    let mut log = LogList::new();
    log.rebuild(&raws, &Vec::new(), &None, false, &Vec::new(), now);
    assert_eq!(log.commits.len(), 100);
}

#[test]
fn test_cheap_rebuild_keeps_pushed_state() {
    // the cheap rebuild must keep the previous pushed flag for known
    // tags, default new tags to not-pushed, and ignore any listing
    let now = 1_000_000i64;
    let raws = vec![raw(C1, "tip", now)];
    let refs = vec![tip("refs/tags/v1.0.0", C1)];
    let mut log = LogList::new();
    log.rebuild(&raws, &refs, &Some(C1.to_string()), true, &vec!["v1.0.0".to_string()], now);
    assert!(log.commits[0].tags[0].pushed);

    let refs2 = vec![tip("refs/tags/v1.0.0", C1), tip("refs/tags/v2.0.0", C1)];
    log.rebuild(&raws, &refs2, &Some(C1.to_string()), false, &Vec::new(), now);
    let tags = &log.commits[0].tags;
    assert_eq!(tags.len(), 2);
    assert_eq!(tags[0], TagInfo { name: "v1.0.0".to_string(), pushed: true });
    assert_eq!(tags[1], TagInfo { name: "v2.0.0".to_string(), pushed: false });
}

#[test]
fn test_full_rebuild_refreshes_pushed_state() {
    let now = 1_000_000i64;
    let raws = vec![raw(C1, "tip", now)];
    let refs = vec![tip("refs/tags/v1.0.0", C1)];
    let mut log = LogList::new();
    log.rebuild(&raws, &refs, &Some(C1.to_string()), true, &vec!["v1.0.0".to_string()], now);
    assert!(log.commits[0].tags[0].pushed);
    // the tag disappeared from the remote: a full rebuild notices
    log.rebuild(&raws, &refs, &Some(C1.to_string()), true, &Vec::new(), now);
    assert!(!log.commits[0].tags[0].pushed);
}

#[test]
fn test_unpushed_tag_count() {
    let now = 0i64;
    let raws = vec![raw(C1, "a", now), raw(C2, "b", now)];
    let refs = vec![
        tip("refs/tags/v1", C1),
        tip("refs/tags/v2", C2),
        tip("refs/tags/v3", C2),
    ];
    let mut log = LogList::new();
    log.rebuild(&raws, &refs, &None, true, &vec!["v2".to_string()], now);
    assert_eq!(log.unpushed_tag_count(), 2);
}

#[test]
fn test_parse_ls_remote_tags() {
    let listing = "0123 HEAD\n\
                   0123\trefs/tags/v1.0.0\n\
                   4567\trefs/tags/v1.1.0^{}\n\
                   89ab\trefs/heads/main\n";
    let tags = parse_ls_remote_tags(listing);
    assert_eq!(
        tags,
        vec!["v1.0.0".to_string(), "v1.1.0".to_string(), "refs/heads/main".to_string()]
    );
}
