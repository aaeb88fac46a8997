use vstd::prelude::*;
use vstd::seq_lib::lemma_multiset_commutative;
use vstd::seq_lib::group_to_multiset_ensures;
use vstd::multiset::Multiset;

verus! {

/// Mutually exclusive classification of one change.
#[derive(Clone, Copy, PartialEq, Eq, Structural, Debug)]
pub enum FileStatus {
    Added,
    Modified,
    Deleted,
    Untracked,
}

/// One filesystem path under version-control attention. A path with both an
/// indexed and a working-tree change yields two distinct entries, one per
/// section; entries never survive a rebuild by identity, only by value.
#[derive(Clone, Debug)]
pub struct FileEntry {
    pub path: String,
    pub status: FileStatus,
    pub staged: bool,
    /// Insertions and deletions for the change; absent when stats were not
    /// computed (cheap refresh) or were unavailable.
    pub diff_stats: Option<(usize, usize)>,
}

/// Mathematical image of a [`FileEntry`].
#[verifier::ext_equal]
pub struct FileEntryV {
    pub path: Seq<char>,
    pub status: FileStatus,
    pub staged: bool,
    pub diff_stats: Option<(usize, usize)>,
}

impl View for FileEntry {
    type V = FileEntryV;

    open spec fn view(&self) -> FileEntryV {
        FileEntryV {
            path: self.path@,
            status: self.status,
            staged: self.staged,
            diff_stats: self.diff_stats,
        }
    }
}

/// One entry of a repository status scan, as plain values: the change bits
/// reported for the path, and the per-side diff stats the caller computed
/// for it (used only when stats are requested).
#[derive(Clone, Debug)]
pub struct StatusItem {
    pub path: String,
    pub index_new: bool,
    pub index_modified: bool,
    pub index_deleted: bool,
    pub wt_new: bool,
    pub wt_modified: bool,
    pub wt_deleted: bool,
    pub staged_stats: Option<(usize, usize)>,
    pub unstaged_stats: Option<(usize, usize)>,
}

/// Mathematical image of a [`StatusItem`].
#[verifier::ext_equal]
pub struct StatusItemV {
    pub path: Seq<char>,
    pub index_new: bool,
    pub index_modified: bool,
    pub index_deleted: bool,
    pub wt_new: bool,
    pub wt_modified: bool,
    pub wt_deleted: bool,
    pub staged_stats: Option<(usize, usize)>,
    pub unstaged_stats: Option<(usize, usize)>,
}

impl View for StatusItem {
    type V = StatusItemV;

    open spec fn view(&self) -> StatusItemV {
        StatusItemV {
            path: self.path@,
            index_new: self.index_new,
            index_modified: self.index_modified,
            index_deleted: self.index_deleted,
            wt_new: self.wt_new,
            wt_modified: self.wt_modified,
            wt_deleted: self.wt_deleted,
            staged_stats: self.staged_stats,
            unstaged_stats: self.unstaged_stats,
        }
    }
}

pub open spec fn file_views(s: Seq<FileEntry>) -> Seq<FileEntryV> {
    s.map_values(|e: FileEntry| e@)
}

pub open spec fn item_views(s: Seq<StatusItem>) -> Seq<StatusItemV> {
    s.map_values(|it: StatusItem| it@)
}

/// The scan reports an index-side (staged) change for this path.
pub open spec fn item_has_staged(it: StatusItemV) -> bool {
    it.index_new || it.index_modified || it.index_deleted
}

/// The scan reports a working-tree (unstaged) change for this path.
pub open spec fn item_has_unstaged(it: StatusItemV) -> bool {
    it.wt_new || it.wt_modified || it.wt_deleted
}

pub open spec fn staged_status(it: StatusItemV) -> FileStatus {
    if it.index_new {
        FileStatus::Added
    } else if it.index_deleted {
        FileStatus::Deleted
    } else {
        FileStatus::Modified
    }
}

pub open spec fn unstaged_status(it: StatusItemV) -> FileStatus {
    if it.wt_new {
        FileStatus::Untracked
    } else if it.wt_deleted {
        FileStatus::Deleted
    } else {
        FileStatus::Modified
    }
}

pub open spec fn staged_entry(it: StatusItemV, with_stats: bool) -> FileEntryV {
    FileEntryV {
        path: it.path,
        status: staged_status(it),
        staged: true,
        diff_stats: if with_stats {
            it.staged_stats
        } else {
            Option::None
        },
    }
}

pub open spec fn unstaged_entry(it: StatusItemV, with_stats: bool) -> FileEntryV {
    FileEntryV {
        path: it.path,
        status: unstaged_status(it),
        staged: false,
        diff_stats: if with_stats {
            it.unstaged_stats
        } else {
            Option::None
        },
    }
}

/// The file entries one scan item contributes: its staged entry (if any)
/// first, then its unstaged entry (if any).
pub open spec fn item_entries(it: StatusItemV, with_stats: bool) -> Seq<FileEntryV> {
    (if item_has_staged(it) {
        seq![staged_entry(it, with_stats)]
    } else {
        Seq::<FileEntryV>::empty()
    }) + (if item_has_unstaged(it) {
        seq![unstaged_entry(it, with_stats)]
    } else {
        Seq::<FileEntryV>::empty()
    })
}

/// The full file-entry collection a scan produces, in scan order.
pub open spec fn snapshot_entries(items: Seq<StatusItemV>, with_stats: bool) -> Seq<FileEntryV>
    decreases items.len(),
{
    if items.len() == 0 {
        Seq::<FileEntryV>::empty()
    } else {
        snapshot_entries(items.drop_last(), with_stats) + item_entries(items.last(), with_stats)
    }
}

/// The indices of the entries of one section, in scan order.
pub open spec fn section_positions(files: Seq<FileEntryV>, staged: bool) -> Seq<int>
    decreases files.len(),
{
    if files.len() == 0 {
        Seq::<int>::empty()
    } else {
        section_positions(files.drop_last(), staged) + (if files.last().staged == staged {
            seq![files.len() - 1]
        } else {
            Seq::<int>::empty()
        })
    }
}

/// Display order over the file entries: the staged section first, then the
/// unstaged section, each in scan order.
pub open spec fn spec_visual(files: Seq<FileEntryV>) -> Seq<int> {
    section_positions(files, true) + section_positions(files, false)
}

pub open spec fn visual_views(v: Seq<usize>) -> Seq<int> {
    v.map_values(|i: usize| i as int)
}

/// Builds the file-entry collection and its visual list from one status
/// scan. When `compute_diff_stats` is false the per-entry stats are left
/// out (the cheap-refresh path).
pub fn build_snapshot(items: &Vec<StatusItem>, compute_diff_stats: bool) -> (r: (
    Vec<FileEntry>,
    Vec<usize>,
))
    ensures
        file_views(r.0@) == snapshot_entries(item_views(items@), compute_diff_stats),
        visual_views(r.1@) == spec_visual(file_views(r.0@)),
{
    let mut files: Vec<FileEntry> = Vec::new();
    let mut staged_idx: Vec<usize> = Vec::new();
    let mut unstaged_idx: Vec<usize> = Vec::new();
    let mut i: usize = 0;
    proof {
        assert(item_views(items@).take(0) =~= Seq::<StatusItemV>::empty());
        assert(file_views(files@) =~= Seq::<FileEntryV>::empty());
        assert(visual_views(staged_idx@) =~= Seq::<int>::empty());
        assert(visual_views(unstaged_idx@) =~= Seq::<int>::empty());
    }
    while i < items.len()
        invariant
            i <= items@.len(),
            file_views(files@) == snapshot_entries(
                item_views(items@).take(i as int),
                compute_diff_stats,
            ),
            visual_views(staged_idx@) == section_positions(file_views(files@), true),
            visual_views(unstaged_idx@) == section_positions(file_views(files@), false),
        decreases items@.len() - i,
    {
        let it = &items[i];
        let ghost pre_files = file_views(files@);
        let has_staged = it.index_new || it.index_modified || it.index_deleted;
        let has_unstaged = it.wt_new || it.wt_modified || it.wt_deleted;
        if has_staged {
            let status = if it.index_new {
                FileStatus::Added
            } else if it.index_deleted {
                FileStatus::Deleted
            } else {
                FileStatus::Modified
            };
            let stats = if compute_diff_stats {
                it.staged_stats
            } else {
                Option::None
            };
            staged_idx.push(files.len());
            files.push(
                FileEntry { path: it.path.clone(), status, staged: true, diff_stats: stats },
            );
            proof {
                assert(file_views(files@).drop_last() =~= pre_files);
                assert(file_views(files@).last() =~= staged_entry(it@, compute_diff_stats));
                assert(visual_views(staged_idx@) =~= section_positions(file_views(files@), true));
                assert(visual_views(unstaged_idx@) =~= section_positions(
                    file_views(files@),
                    false,
                ));
            }
        }
        let ghost mid_files = file_views(files@);
        if has_unstaged {
            let status = if it.wt_new {
                FileStatus::Untracked
            } else if it.wt_deleted {
                FileStatus::Deleted
            } else {
                FileStatus::Modified
            };
            let stats = if compute_diff_stats {
                it.unstaged_stats
            } else {
                Option::None
            };
            unstaged_idx.push(files.len());
            files.push(
                FileEntry { path: it.path.clone(), status, staged: false, diff_stats: stats },
            );
            proof {
                assert(file_views(files@).drop_last() =~= mid_files);
                assert(file_views(files@).last() =~= unstaged_entry(it@, compute_diff_stats));
                assert(visual_views(unstaged_idx@) =~= section_positions(
                    file_views(files@),
                    true == false,
                ));
                assert(visual_views(staged_idx@) =~= section_positions(file_views(files@), true));
            }
        }
        proof {
            assert(file_views(files@) =~= pre_files + item_entries(it@, compute_diff_stats));
            let pre_items = item_views(items@).take(i as int);
            let now_items = item_views(items@).take(i + 1);
            assert(now_items.drop_last() =~= pre_items);
            assert(now_items.last() == it@);
            assert(file_views(files@) =~= snapshot_entries(now_items, compute_diff_stats));
        }
        i = i + 1;
    }
    proof {
        assert(item_views(items@).take(i as int) =~= item_views(items@));
    }
    let mut visual = staged_idx;
    visual.append(&mut unstaged_idx);
    proof {
        assert(visual_views(visual@) =~= spec_visual(file_views(files@)));
    }
    (files, visual)
}

/// The entries a section's positions point at: every position is in range,
/// carries the section's staged flag, and positions rise in scan order.
pub proof fn lemma_section_positions(files: Seq<FileEntryV>, staged: bool)
    ensures
        forall|j: int|
            0 <= j < section_positions(files, staged).len() ==> 0 <= #[trigger] section_positions(
                files,
                staged,
            )[j] < files.len() && files[section_positions(files, staged)[j]].staged == staged,
        forall|j1: int, j2: int|
            0 <= j1 < j2 < section_positions(files, staged).len() ==> section_positions(
                files,
                staged,
            )[j1] < section_positions(files, staged)[j2],
    decreases files.len(),
{
    if files.len() == 0 {
    } else {
        let pre = files.drop_last();
        lemma_section_positions(pre, staged);
        assert(forall|k: int| 0 <= k < pre.len() ==> pre[k] == files[k]);
    }
}

/// The visual list is a permutation of the entry indices: every index in
/// range occurs exactly once, and nothing else occurs at all.
pub proof fn lemma_visual_permutation(files: Seq<FileEntryV>)
    ensures
        spec_visual(files).len() == files.len(),
        forall|k: int|
            0 <= k < files.len() ==> #[trigger] spec_visual(files).to_multiset().count(k) == 1,
        forall|k: int|
            !(0 <= k < files.len()) ==> #[trigger] spec_visual(files).to_multiset().count(k) == 0,
    decreases files.len(),
{
    broadcast use group_to_multiset_ensures;

    let vis = spec_visual(files);
    lemma_multiset_commutative(section_positions(files, true), section_positions(files, false));
    if files.len() == 0 {
        assert(vis =~= Seq::<int>::empty());
        assert(forall|k: int| vis.to_multiset().count(k) == 0) by {
            assert(forall|k: int| !vis.contains(k));
        }
    } else {
        let pre = files.drop_last();
        let n = files.len() - 1;
        lemma_visual_permutation(pre);
        let pre_vis = spec_visual(pre);
        lemma_multiset_commutative(section_positions(pre, true), section_positions(pre, false));
        if files.last().staged {
            assert(section_positions(files, true) =~= section_positions(pre, true) + seq![n]);
            assert(section_positions(files, false) =~= section_positions(pre, false));
            lemma_multiset_commutative(section_positions(pre, true), seq![n]);
        } else {
            assert(section_positions(files, true) =~= section_positions(pre, true));
            assert(section_positions(files, false) =~= section_positions(pre, false) + seq![n]);
            lemma_multiset_commutative(section_positions(pre, false), seq![n]);
        }
        assert(seq![n].to_multiset() =~= Multiset::<int>::empty().insert(n)) by {
            assert(seq![n] =~= Seq::<int>::empty().push(n));
        }
        assert(forall|k: int|
            #[trigger] vis.to_multiset().count(k) == pre_vis.to_multiset().count(k) + (if k == n {
                1int
            } else {
                0int
            }));
    }
}

/// Staged entries occupy a contiguous prefix of the visual list and
/// unstaged entries the contiguous suffix, each in original scan order.
pub proof fn lemma_visual_sections(files: Seq<FileEntryV>)
    ensures
        spec_visual(files).len() == files.len(),
        forall|v: int|
            0 <= v < spec_visual(files).len() ==> 0 <= #[trigger] spec_visual(files)[v]
                < files.len(),
        forall|v: int|
            0 <= v < section_positions(files, true).len() ==> files[#[trigger] spec_visual(
                files,
            )[v]].staged,
        forall|v: int|
            section_positions(files, true).len() <= v < spec_visual(files).len()
                ==> !files[#[trigger] spec_visual(files)[v]].staged,
        forall|v1: int, v2: int|
            0 <= v1 < v2 < section_positions(files, true).len() ==> #[trigger] spec_visual(
                files,
            )[v1] < #[trigger] spec_visual(files)[v2],
        forall|v1: int, v2: int|
            section_positions(files, true).len() <= v1 < v2 < spec_visual(files).len()
                ==> #[trigger] spec_visual(files)[v1] < #[trigger] spec_visual(files)[v2],
{
    lemma_section_positions(files, true);
    lemma_section_positions(files, false);
    lemma_visual_permutation(files);
}

/// The path and status bits of one scan entry: exactly what the
/// cheap-refresh fingerprint records (diff stats are deliberately left
/// out).
#[derive(Clone, Debug)]
pub struct StatusKey {
    pub path: String,
    pub index_new: bool,
    pub index_modified: bool,
    pub index_deleted: bool,
    pub wt_new: bool,
    pub wt_modified: bool,
    pub wt_deleted: bool,
}

/// Mathematical image of a [`StatusKey`].
#[verifier::ext_equal]
pub struct StatusKeyV {
    pub path: Seq<char>,
    pub index_new: bool,
    pub index_modified: bool,
    pub index_deleted: bool,
    pub wt_new: bool,
    pub wt_modified: bool,
    pub wt_deleted: bool,
}

impl View for StatusKey {
    type V = StatusKeyV;

    open spec fn view(&self) -> StatusKeyV {
        StatusKeyV {
            path: self.path@,
            index_new: self.index_new,
            index_modified: self.index_modified,
            index_deleted: self.index_deleted,
            wt_new: self.wt_new,
            wt_modified: self.wt_modified,
            wt_deleted: self.wt_deleted,
        }
    }
}

pub open spec fn key_of(it: StatusItemV) -> StatusKeyV {
    StatusKeyV {
        path: it.path,
        index_new: it.index_new,
        index_modified: it.index_modified,
        index_deleted: it.index_deleted,
        wt_new: it.wt_new,
        wt_modified: it.wt_modified,
        wt_deleted: it.wt_deleted,
    }
}

pub open spec fn keys_of(items: Seq<StatusItemV>) -> Seq<StatusKeyV> {
    items.map_values(|it: StatusItemV| key_of(it))
}

pub open spec fn key_views(ks: Seq<StatusKey>) -> Seq<StatusKeyV> {
    ks.map_values(|k: StatusKey| k@)
}

fn compute_keys(items: &Vec<StatusItem>) -> (r: Vec<StatusKey>)
    ensures
        key_views(r@) == keys_of(item_views(items@)),
{
    let mut r: Vec<StatusKey> = Vec::new();
    let mut i: usize = 0;
    while i < items.len()
        invariant
            i <= items@.len(),
            key_views(r@) == keys_of(item_views(items@).take(i as int)),
        decreases items@.len() - i,
    {
        let it = &items[i];
        let ghost pre_r = r@;
        r.push(
            StatusKey {
                path: it.path.clone(),
                index_new: it.index_new,
                index_modified: it.index_modified,
                index_deleted: it.index_deleted,
                wt_new: it.wt_new,
                wt_modified: it.wt_modified,
                wt_deleted: it.wt_deleted,
            },
        );
        proof {
            let s = item_views(items@);
            assert(key_views(pre_r).len() == pre_r.len());
            assert(keys_of(s.take(i as int)).len() == s.take(i as int).len());
            assert(pre_r.len() == i as int);
            assert forall|k: int| 0 <= k < i + 1 implies #[trigger] key_views(r@)[k] == keys_of(
                s.take(i + 1),
            )[k] by {
                assert(keys_of(s.take(i + 1))[k] == key_of(s.take(i + 1)[k]));
                if k < i as int {
                    assert(r@[k] == pre_r[k]);
                    assert(key_views(pre_r)[k] == keys_of(s.take(i as int))[k]);
                } else {
                    assert(r@[k]@ =~= key_of(s[k]));
                }
            }
            assert(key_views(r@) =~~= keys_of(s.take(i + 1)));
        }
        i = i + 1;
    }
    proof {
        assert(item_views(items@).take(i as int) =~= item_views(items@));
    }
    r
}

fn same_keys(a: &Vec<StatusKey>, b: &Vec<StatusKey>) -> (r: bool)
    ensures
        r <==> key_views(a@) == key_views(b@),
{
    if a.len() != b.len() {
        proof {
            assert(key_views(a@).len() != key_views(b@).len());
        }
        return false;
    }
    let mut i: usize = 0;
    while i < a.len()
        invariant
            a@.len() == b@.len(),
            i <= a@.len(),
            forall|k: int| 0 <= k < i ==> key_views(a@)[k] == key_views(b@)[k],
        decreases a@.len() - i,
    {
        let x = &a[i];
        let y = &b[i];
        let eq = x.path == y.path && x.index_new == y.index_new && x.index_modified
            == y.index_modified && x.index_deleted == y.index_deleted && x.wt_new == y.wt_new
            && x.wt_modified == y.wt_modified && x.wt_deleted == y.wt_deleted;
        if !eq {
            proof {
                assert(key_views(a@)[i as int] != key_views(b@)[i as int]);
            }
            return false;
        }
        proof {
            assert(key_views(a@)[i as int] =~= key_views(b@)[i as int]);
        }
        i = i + 1;
    }
    proof {
        assert(key_views(a@) =~~= key_views(b@));
    }
    true
}

/// The dual-section file list: the rebuilt entries, their display order,
/// the selection cursor, and the fingerprint of the scan behind the last
/// cheap rebuild.
pub struct FileList {
    pub files: Vec<FileEntry>,
    pub visual: Vec<usize>,
    pub selected: Option<usize>,
    pub fingerprint: Option<Vec<StatusKey>>,
}

/// Mathematical image of a [`FileList`].
#[verifier::ext_equal]
pub struct FileListV {
    pub files: Seq<FileEntryV>,
    pub visual: Seq<int>,
    pub selected: Option<usize>,
    pub fingerprint: Option<Seq<StatusKeyV>>,
}

impl View for FileList {
    type V = FileListV;

    open spec fn view(&self) -> FileListV {
        FileListV {
            files: file_views(self.files@),
            visual: visual_views(self.visual@),
            selected: self.selected,
            fingerprint: match self.fingerprint {
                Option::Some(ks) => Option::Some(key_views(ks@)),
                Option::None => Option::None,
            },
        }
    }
}

impl FileListV {
    /// Well-formedness: the visual list is exactly the display order of
    /// the files, and the cursor obeys the clamp rule.
    pub open spec fn wf(self) -> bool {
        &&& self.visual == spec_visual(self.files)
        &&& match self.selected {
            Option::Some(i) => i < self.visual.len(),
            Option::None => self.visual.len() == 0,
        }
    }
}

/// The rebuild transition: on the cheap path an unchanged fingerprint
/// short-circuits the whole rebuild; otherwise the entries and the visual
/// list are rebuilt from the scan and the cursor is reconciled.
pub open spec fn spec_refresh(
    pre: FileListV,
    items: Seq<StatusItemV>,
    with_stats: bool,
) -> FileListV {
    if !with_stats && pre.fingerprint == Option::Some(keys_of(items)) {
        pre
    } else {
        let files = snapshot_entries(items, with_stats);
        FileListV {
            files: files,
            visual: spec_visual(files),
            selected: crate::cursor::spec_reconciled(pre.selected, spec_visual(files).len() as int),
            fingerprint: if with_stats {
                pre.fingerprint
            } else {
                Option::Some(keys_of(items))
            },
        }
    }
}

impl FileList {
    /// An empty, well-formed list with no selection and no fingerprint.
    pub fn new() -> (r: FileList)
        ensures
            r@.files.len() == 0,
            r@.visual.len() == 0,
            r@.selected is None,
            r@.fingerprint is None,
            r@.wf(),
    {
        let r = FileList {
            files: Vec::new(),
            visual: Vec::new(),
            selected: Option::None,
            fingerprint: Option::None,
        };
        proof {
            assert(r@.visual =~= spec_visual(r@.files));
        }
        r
    }

    /// Rebuilds the list from one status scan; on the cheap path
    /// (`compute_diff_stats == false`) an unchanged scan leaves the whole
    /// state untouched.
    pub fn refresh(&mut self, items: &Vec<StatusItem>, compute_diff_stats: bool)
        ensures
            final(self)@ == spec_refresh(old(self)@, item_views(items@), compute_diff_stats),
            old(self)@.wf() ==> final(self)@.wf(),
    {
        if !compute_diff_stats {
            let keys = compute_keys(items);
            let skip = match &self.fingerprint {
                Option::Some(fp) => same_keys(fp, &keys),
                Option::None => false,
            };
            if skip {
                proof {
                    assert(self@ =~~= spec_refresh(
                        old(self)@,
                        item_views(items@),
                        compute_diff_stats,
                    ));
                }
                return ;
            }
            self.fingerprint = Option::Some(keys);
        }
        let (files, visual) = build_snapshot(items, compute_diff_stats);
        self.files = files;
        self.visual = visual;
        proof {
            lemma_visual_permutation(file_views(self.files@));
        }
        self.selected = crate::cursor::reconcile_selection(self.selected, self.visual.len());
        proof {
            assert(self@ =~~= spec_refresh(old(self)@, item_views(items@), compute_diff_stats));
        }
    }
}

/// The second of two identical cheap rebuilds changes nothing: the
/// fingerprint left behind by the first short-circuits it.
pub proof fn lemma_cheap_refresh_idempotent(pre: FileListV, items: Seq<StatusItemV>)
    ensures
        spec_refresh(spec_refresh(pre, items, false), items, false) == spec_refresh(
            pre,
            items,
            false,
        ),
{
    let s1 = spec_refresh(pre, items, false);
    assert(s1.fingerprint == Option::Some(keys_of(items)));
}

/// Number of entries in the staged section.
pub fn staged_count(files: &Vec<FileEntry>) -> (n: usize)
    ensures
        n as int == section_positions(file_views(files@), true).len(),
{
    let mut n: usize = 0;
    let mut i: usize = 0;
    proof {
        assert(file_views(files@).take(0) =~= Seq::<FileEntryV>::empty());
    }
    while i < files.len()
        invariant
            i <= files@.len(),
            n <= i,
            n as int == section_positions(file_views(files@).take(i as int), true).len(),
        decreases files@.len() - i,
    {
        let staged = files[i].staged;
        proof {
            let fv = file_views(files@);
            assert(fv.take(i + 1).drop_last() =~= fv.take(i as int));
            assert(fv.take(i + 1).last() == fv[i as int]);
        }
        if staged {
            n = n + 1;
        }
        i = i + 1;
    }
    proof {
        assert(file_views(files@).take(i as int) =~= file_views(files@));
    }
    n
}

/// Visual position `v` of the list carries an entry for `path` with the
/// given staged flag.
pub open spec fn visual_entry_is(l: FileListV, v: int, path: Seq<char>, staged: bool) -> bool {
    &&& 0 <= v < l.visual.len()
    &&& 0 <= l.visual[v] < l.files.len()
    &&& l.files[l.visual[v]].path == path
    &&& l.files[l.visual[v]].staged == staged
}

/// The first visual position at or after `from` carrying an entry for
/// `path` in the given section.
pub open spec fn spec_find_visual(l: FileListV, path: Seq<char>, staged: bool, from: int) -> Option<
    int,
>
    decreases l.visual.len() - from,
{
    if from < 0 || from >= l.visual.len() {
        Option::None
    } else if visual_entry_is(l, from, path, staged) {
        Option::Some(from)
    } else {
        spec_find_visual(l, path, staged, from + 1)
    }
}

/// The landing position when the toggled file is gone from the rebuilt
/// list: the same relative position within its old section, clamped to
/// that section's new length; when its old section emptied, the start of
/// the opposite section or the end of the surviving one; 0 when both
/// sections are empty.
pub open spec fn spec_fallback(was_staged: bool, pos: int, staged_n: int, unstaged_n: int) -> int {
    if was_staged {
        if staged_n > 0 {
            if pos < staged_n - 1 {
                pos
            } else {
                staged_n - 1
            }
        } else if unstaged_n > 0 {
            staged_n
        } else {
            0
        }
    } else {
        if unstaged_n > 0 {
            staged_n + (if pos < unstaged_n - 1 {
                pos
            } else {
                unstaged_n - 1
            })
        } else if staged_n > 0 {
            staged_n - 1
        } else {
            0
        }
    }
}

fn fallback_position(was_staged: bool, pos: usize, staged_n: usize, unstaged_n: usize) -> (r: usize)
    requires
        staged_n + unstaged_n <= usize::MAX,
    ensures
        r as int == spec_fallback(was_staged, pos as int, staged_n as int, unstaged_n as int),
        staged_n + unstaged_n > 0 ==> (r as int) < staged_n + unstaged_n,
        staged_n + unstaged_n == 0 ==> r == 0,
{
    if was_staged {
        if staged_n > 0 {
            if pos < staged_n - 1 {
                pos
            } else {
                staged_n - 1
            }
        } else if unstaged_n > 0 {
            staged_n
        } else {
            0
        }
    } else {
        if unstaged_n > 0 {
            staged_n + (if pos < unstaged_n - 1 {
                pos
            } else {
                unstaged_n - 1
            })
        } else if staged_n > 0 {
            staged_n - 1
        } else {
            0
        }
    }
}

/// The cursor-follow rule: in a non-empty rebuilt list the toggled file is
/// sought by path identity in its opposite section and its first visual
/// position selected; failing that, the fallback position; an empty list
/// leaves the selection as the clamp rule set it.
pub open spec fn spec_followed(
    l: FileListV,
    path: Seq<char>,
    was_staged: bool,
    pos: int,
) -> Option<usize> {
    if l.visual.len() == 0 {
        l.selected
    } else {
        match spec_find_visual(l, path, !was_staged, 0) {
            Option::Some(v) => Option::Some(v as usize),
            Option::None => Option::Some(
                spec_fallback(
                    was_staged,
                    pos,
                    section_positions(l.files, true).len() as int,
                    section_positions(l.files, false).len() as int,
                ) as usize,
            ),
        }
    }
}

impl FileList {
    /// Scans the visual list for the first entry with this path and
    /// staged flag.
    pub fn find_visual(&self, path: &String, staged: bool) -> (r: Option<usize>)
        requires
            self@.wf(),
        ensures
            match r {
                Option::Some(v) => v < self@.visual.len() && spec_find_visual(
                    self@,
                    path@,
                    staged,
                    0,
                ) == Option::Some(v as int),
                Option::None => spec_find_visual(self@, path@, staged, 0) is None,
            },
    {
        proof {
            lemma_visual_sections(self@.files);
        }
        let mut v: usize = 0;
        while v < self.visual.len()
            invariant
                self@.wf(),
                v <= self@.visual.len(),
                self@.visual.len() == self.visual@.len(),
                spec_find_visual(self@, path@, staged, 0) == spec_find_visual(
                    self@,
                    path@,
                    staged,
                    v as int,
                ),
                forall|j: int|
                    0 <= j < self@.visual.len() ==> 0 <= #[trigger] self@.visual[j]
                        < self@.files.len(),
            decreases self@.visual.len() - v,
        {
            let idx = self.visual[v];
            proof {
                assert(self@.visual[v as int] == idx as int);
            }
            let hit = self.files[idx].staged == staged && self.files[idx].path == *path;
            proof {
                assert(hit == visual_entry_is(self@, v as int, path@, staged));
            }
            if hit {
                return Option::Some(v);
            }
            v = v + 1;
        }
        Option::None
    }

    /// Cursor-follow after a stage/unstage of `path` and the rebuild that
    /// followed: re-selects the same file in its opposite section by path
    /// identity, or falls back to the nearest position of its old section.
    pub fn follow_after_toggle(&mut self, path: &String, was_staged: bool, pos_in_section: usize)
        requires
            old(self)@.wf(),
        ensures
            final(self)@.files == old(self)@.files,
            final(self)@.visual == old(self)@.visual,
            final(self)@.fingerprint == old(self)@.fingerprint,
            final(self)@.selected == spec_followed(
                old(self)@,
                path@,
                was_staged,
                pos_in_section as int,
            ),
            final(self)@.wf(),
    {
        if self.visual.len() == 0 {
            proof {
                assert(self@.visual.len() == 0);
            }
            return ;
        }
        match self.find_visual(path, !was_staged) {
            Option::Some(v) => {
                self.selected = Option::Some(v);
            },
            Option::None => {
                let staged_n = staged_count(&self.files);
                proof {
                    lemma_visual_permutation(self@.files);
                    assert(self@.visual.len() == section_positions(self@.files, true).len()
                        + section_positions(self@.files, false).len());
                }
                let unstaged_n = self.visual.len() - staged_n;
                let idx = fallback_position(was_staged, pos_in_section, staged_n, unstaged_n);
                self.selected = Option::Some(idx);
            },
        }
    }
}

proof fn lemma_find_first(l: FileListV, path: Seq<char>, staged: bool, from: int, v: int)
    requires
        0 <= from <= v,
        visual_entry_is(l, v, path, staged),
        forall|m: int| from <= m < v ==> !(#[trigger] visual_entry_is(l, m, path, staged)),
    ensures
        spec_find_visual(l, path, staged, from) == Option::Some(v),
    decreases v - from,
{
    if from < v {
        lemma_find_first(l, path, staged, from + 1, v);
    }
}

proof fn lemma_find_in_range(l: FileListV, path: Seq<char>, staged: bool, from: int)
    requires
        0 <= from,
    ensures
        spec_find_visual(l, path, staged, from) matches Option::Some(v) ==> from <= v
            < l.visual.len() && visual_entry_is(l, v, path, staged),
    decreases l.visual.len() - from,
{
    if from < l.visual.len() && !visual_entry_is(l, from, path, staged) {
        lemma_find_in_range(l, path, staged, from + 1);
    }
}

/// Cursor-follow, positive case: when the toggled file stands in the
/// rebuilt list — same path, opposite section — the follow rule selects
/// precisely its first visual position, never a fallback and never an
/// arbitrary index.
pub proof fn lemma_follow_selects_moved_file(
    l: FileListV,
    path: Seq<char>,
    was_staged: bool,
    staged_now: bool,
    pos: int,
    v: int,
)
    requires
        l.wf(),
        v <= usize::MAX,
        staged_now == !was_staged,
        visual_entry_is(l, v, path, staged_now),
        forall|m: int| 0 <= m < v ==> !(#[trigger] visual_entry_is(l, m, path, staged_now)),
    ensures
        spec_followed(l, path, was_staged, pos) == Option::Some(v as usize),
{
    lemma_find_first(l, path, staged_now, 0, v);
}

/// Cursor-follow, boundary case: whatever was toggled and wherever it
/// went, the follow rule leaves a selection the clamp rule allows — an
/// in-range index when the rebuilt list is non-empty, and the reconciled
/// empty-list selection (`None`) otherwise.
pub proof fn lemma_follow_selection_valid(
    l: FileListV,
    path: Seq<char>,
    was_staged: bool,
    pos: int,
)
    requires
        l.wf(),
        0 <= pos,
        l.visual.len() <= usize::MAX,
    ensures
        l.visual.len() > 0 ==> (spec_followed(l, path, was_staged, pos) matches Some(i) && (
        i as int) < l.visual.len()),
        l.visual.len() == 0 ==> spec_followed(l, path, was_staged, pos) is None,
{
    if l.visual.len() > 0 {
        lemma_find_in_range(l, path, !was_staged, 0);
        lemma_visual_permutation(l.files);
        assert(l.visual.len() == section_positions(l.files, true).len() + section_positions(
            l.files,
            false,
        ).len());
    }
}

} // verus!
