use vstd::prelude::*;
use vstd::string::StrSliceExecFns;
use crate::text::{chars_of, find_at, matches_at, match_at, spec_find, string_from_chars, subvec};
use crate::version::spec_lines_from;
use crate::version::split_lines;
use crate::version::line_views;
use crate::timefmt::{format_relative_age, spec_relative_age};
use crate::cursor::{reconcile_selection, spec_reconciled};

verus! {

/// One tag hanging on a commit, and whether the configured remote also
/// has it.
#[derive(Clone, PartialEq, Debug)]
pub struct TagInfo {
    pub name: String,
    pub pushed: bool,
}

/// Mathematical image of a [`TagInfo`].
#[verifier::ext_equal]
pub struct TagInfoV {
    pub name: Seq<char>,
    pub pushed: bool,
}

impl View for TagInfo {
    type V = TagInfoV;

    open spec fn view(&self) -> TagInfoV {
        TagInfoV { name: self.name@, pushed: self.pushed }
    }
}

/// One revision of the traversed history, ready for display.
#[derive(Clone, Debug)]
pub struct CommitEntry {
    /// Short (7 character) display id.
    pub id: String,
    /// Full hex id, kept for exact operations such as tagging.
    pub full_id: String,
    /// First line of the commit message.
    pub message: String,
    /// Humanized relative age.
    pub time: String,
    pub is_head: bool,
    /// Remote-tracking branch names whose tip is this commit.
    pub remote_branches: Vec<String>,
    pub tags: Vec<TagInfo>,
}

/// Mathematical image of a [`CommitEntry`].
#[verifier::ext_equal]
pub struct CommitEntryV {
    pub id: Seq<char>,
    pub full_id: Seq<char>,
    pub message: Seq<char>,
    pub time: Seq<char>,
    pub is_head: bool,
    pub remote_branches: Seq<Seq<char>>,
    pub tags: Seq<TagInfoV>,
}

pub open spec fn str_views(s: Seq<String>) -> Seq<Seq<char>> {
    s.map_values(|s: String| s@)
}

pub open spec fn tag_views(s: Seq<TagInfo>) -> Seq<TagInfoV> {
    s.map_values(|t: TagInfo| t@)
}

impl View for CommitEntry {
    type V = CommitEntryV;

    open spec fn view(&self) -> CommitEntryV {
        CommitEntryV {
            id: self.id@,
            full_id: self.full_id@,
            message: self.message@,
            time: self.time@,
            is_head: self.is_head,
            remote_branches: str_views(self.remote_branches@),
            tags: tag_views(self.tags@),
        }
    }
}

/// One commit as the history walk hands it over: full hex id, summary
/// line, commit time in seconds.
#[derive(Clone, Debug)]
pub struct RawCommit {
    pub id: String,
    pub summary: String,
    pub time: i64,
}

/// Mathematical image of a [`RawCommit`].
#[verifier::ext_equal]
pub struct RawCommitV {
    pub id: Seq<char>,
    pub summary: Seq<char>,
    pub time: i64,
}

impl View for RawCommit {
    type V = RawCommitV;

    open spec fn view(&self) -> RawCommitV {
        RawCommitV { id: self.id@, summary: self.summary@, time: self.time }
    }
}

/// One reference together with the commit its tip peels to.
#[derive(Clone, Debug)]
pub struct RefTip {
    pub name: String,
    pub target: String,
}

/// Mathematical image of a [`RefTip`].
#[verifier::ext_equal]
pub struct RefTipV {
    pub name: Seq<char>,
    pub target: Seq<char>,
}

impl View for RefTip {
    type V = RefTipV;

    open spec fn view(&self) -> RefTipV {
        RefTipV { name: self.name@, target: self.target@ }
    }
}

pub open spec fn commit_views(s: Seq<CommitEntry>) -> Seq<CommitEntryV> {
    s.map_values(|c: CommitEntry| c@)
}

pub open spec fn raw_views(s: Seq<RawCommit>) -> Seq<RawCommitV> {
    s.map_values(|c: RawCommit| c@)
}

pub open spec fn ref_views(s: Seq<RefTip>) -> Seq<RefTipV> {
    s.map_values(|r: RefTip| r@)
}

pub open spec fn opt_str_view(o: Option<String>) -> Option<Seq<char>> {
    match o {
        Option::Some(s) => Option::Some(s@),
        Option::None => Option::None,
    }
}

/// The suffixes (after `prefix`) of the names of the references that carry
/// `prefix` and peel to `target`, in reference order.
pub open spec fn suffixes_for(
    refs: Seq<RefTipV>,
    target: Seq<char>,
    prefix: Seq<char>,
) -> Seq<Seq<char>>
    decreases refs.len(),
{
    if refs.len() == 0 {
        Seq::<Seq<char>>::empty()
    } else {
        suffixes_for(refs.drop_last(), target, prefix) + (if matches_at(
            refs.last().name,
            prefix,
            0,
        ) && refs.last().target == target {
            seq![refs.last().name.skip(prefix.len() as int)]
        } else {
            Seq::<Seq<char>>::empty()
        })
    }
}

/// The pushed flag a tag last carried anywhere in these commits, scanning
/// a commit's tags in order and later commits after earlier ones (the
/// last occurrence wins), if the tag occurs at all.
pub open spec fn last_tag_status_in(tags: Seq<TagInfoV>, name: Seq<char>) -> Option<bool>
    decreases tags.len(),
{
    if tags.len() == 0 {
        Option::None
    } else if tags.last().name == name {
        Option::Some(tags.last().pushed)
    } else {
        last_tag_status_in(tags.drop_last(), name)
    }
}

pub open spec fn last_tag_status(commits: Seq<CommitEntryV>, name: Seq<char>) -> Option<bool>
    decreases commits.len(),
{
    if commits.len() == 0 {
        Option::None
    } else {
        match last_tag_status_in(commits.last().tags, name) {
            Option::Some(b) => Option::Some(b),
            Option::None => last_tag_status(commits.drop_last(), name),
        }
    }
}

/// Whether a tag is shown as pushed: on a full rebuild, exactly when the
/// remote listing names it; on a cheap rebuild, whatever it showed before,
/// defaulting to not-pushed for a tag never seen.
pub open spec fn spec_tag_pushed(
    name: Seq<char>,
    check_remote: bool,
    remote_tags: Seq<Seq<char>>,
    prev: Seq<CommitEntryV>,
) -> bool {
    if check_remote {
        remote_tags.contains(name)
    } else {
        match last_tag_status(prev, name) {
            Option::Some(b) => b,
            Option::None => false,
        }
    }
}

pub open spec fn spec_tags(
    names: Seq<Seq<char>>,
    check_remote: bool,
    remote_tags: Seq<Seq<char>>,
    prev: Seq<CommitEntryV>,
) -> Seq<TagInfoV> {
    names.map_values(
        |n: Seq<char>| TagInfoV { name: n, pushed: spec_tag_pushed(n, check_remote, remote_tags, prev) },
    )
}

/// The display id: the first seven characters of the full id.
pub open spec fn spec_short_id(id: Seq<char>) -> Seq<char> {
    if id.len() <= 7 {
        id
    } else {
        id.take(7)
    }
}

/// The log entry one walked commit becomes.
pub open spec fn spec_commit_entry(
    rc: RawCommitV,
    refs: Seq<RefTipV>,
    head_id: Option<Seq<char>>,
    check_remote: bool,
    remote_tags: Seq<Seq<char>>,
    prev: Seq<CommitEntryV>,
    now: int,
) -> CommitEntryV {
    CommitEntryV {
        id: spec_short_id(rc.id),
        full_id: rc.id,
        message: rc.summary,
        time: spec_relative_age(now - rc.time),
        is_head: head_id == Option::Some(rc.id),
        remote_branches: suffixes_for(refs, rc.id, "refs/remotes/"@),
        tags: spec_tags(
            suffixes_for(refs, rc.id, "refs/tags/"@),
            check_remote,
            remote_tags,
            prev,
        ),
    }
}

/// The assembled log: the first hundred walked commits, each annotated.
pub open spec fn spec_log(
    raws: Seq<RawCommitV>,
    refs: Seq<RefTipV>,
    head_id: Option<Seq<char>>,
    check_remote: bool,
    remote_tags: Seq<Seq<char>>,
    prev: Seq<CommitEntryV>,
    now: int,
) -> Seq<CommitEntryV> {
    (if raws.len() <= 100 {
        raws
    } else {
        raws.take(100)
    }).map_values(
        |rc: RawCommitV| spec_commit_entry(rc, refs, head_id, check_remote, remote_tags, prev, now),
    )
}

/// The display form of a remote-tracking branch name.
pub fn remote_label(branch: &str) -> (r: String)
    ensures
        r@ == seq!['['] + branch@ + seq![']'],
{
    let mut v: Vec<char> = Vec::new();
    v.push('[');
    let mut mid = chars_of(branch);
    v.append(&mut mid);
    v.push(']');
    proof {
        assert(v@ =~= seq!['['] + branch@ + seq![']']);
    }
    string_from_chars(&v)
}

fn short_id(id: &String) -> (r: String)
    ensures
        r@ == spec_short_id(id@),
{
    let n = id.as_str().unicode_len();
    if n <= 7 {
        id.clone()
    } else {
        let s = id.as_str().substring_char(0, 7);
        proof {
            assert(s@ =~= id@.take(7));
        }
        s.to_owned()
    }
}

fn contains_string(v: &Vec<String>, s: &String) -> (r: bool)
    ensures
        r <==> str_views(v@).contains(s@),
{
    let mut i: usize = 0;
    while i < v.len()
        invariant
            i <= v@.len(),
            forall|k: int| 0 <= k < i ==> #[trigger] str_views(v@)[k] != s@,
        decreases v@.len() - i,
    {
        if v[i] == *s {
            proof {
                assert(str_views(v@)[i as int] == s@);
            }
            return true;
        }
        i = i + 1;
    }
    proof {
        assert forall|k: int| 0 <= k < str_views(v@).len() implies #[trigger] str_views(v@)[k]
            != s@ by {}
    }
    false
}

fn collect_suffixes(refs: &Vec<RefTip>, target: &String, prefix: &Vec<char>) -> (r: Vec<String>)
    ensures
        str_views(r@) == suffixes_for(ref_views(refs@), target@, prefix@),
{
    let mut r: Vec<String> = Vec::new();
    let mut i: usize = 0;
    proof {
        assert(ref_views(refs@).take(0) =~= Seq::<RefTipV>::empty());
        assert(str_views(r@) =~= Seq::<Seq<char>>::empty());
    }
    while i < refs.len()
        invariant
            i <= refs@.len(),
            str_views(r@) == suffixes_for(ref_views(refs@).take(i as int), target@, prefix@),
        decreases refs@.len() - i,
    {
        let rf = &refs[i];
        let name_chars = chars_of(rf.name.as_str());
        let hit = match_at(&name_chars, prefix, 0) && rf.target == *target;
        proof {
            let rv = ref_views(refs@);
            assert(rv.take(i + 1).drop_last() =~= rv.take(i as int));
            assert(rv.take(i + 1).last() == rv[i as int]);
        }
        if hit {
            let n = rf.name.as_str().unicode_len();
            let suffix = rf.name.as_str().substring_char(prefix.len(), n).to_owned();
            let ghost pre_r = r@;
            r.push(suffix);
            proof {
                let rv = ref_views(refs@);
                assert(suffix@ =~= rv[i as int].name.skip(prefix@.len() as int));
                assert(str_views(pre_r.push(suffix)) =~= str_views(pre_r).push(suffix@));
                assert(str_views(r@) =~= suffixes_for(rv.take(i + 1), target@, prefix@));
            }
        } else {
            proof {
                assert(str_views(r@) =~= suffixes_for(
                    ref_views(refs@).take(i + 1),
                    target@,
                    prefix@,
                ));
            }
        }
        i = i + 1;
    }
    proof {
        assert(ref_views(refs@).take(i as int) =~= ref_views(refs@));
    }
    r
}

fn tag_status_in(tags: &Vec<TagInfo>, name: &String) -> (r: Option<bool>)
    ensures
        r == last_tag_status_in(tag_views(tags@), name@),
{
    let mut j: usize = tags.len();
    proof {
        assert(tag_views(tags@).take(tags@.len() as int) =~= tag_views(tags@));
    }
    while j > 0
        invariant
            j <= tags@.len(),
            last_tag_status_in(tag_views(tags@), name@) == last_tag_status_in(
                tag_views(tags@).take(j as int),
                name@,
            ),
        decreases j,
    {
        j = j - 1;
        proof {
            assert(tag_views(tags@).take(j + 1).drop_last() =~= tag_views(tags@).take(j as int));
            assert(tag_views(tags@).take(j + 1).last() == tag_views(tags@)[j as int]);
        }
        if tags[j].name == *name {
            return Option::Some(tags[j].pushed);
        }
    }
    proof {
        assert(tag_views(tags@).take(0) =~= Seq::<TagInfoV>::empty());
    }
    Option::None
}

fn tag_status(commits: &Vec<CommitEntry>, name: &String) -> (r: Option<bool>)
    ensures
        r == last_tag_status(commit_views(commits@), name@),
{
    let mut j: usize = commits.len();
    proof {
        assert(commit_views(commits@).take(commits@.len() as int) =~= commit_views(commits@));
    }
    while j > 0
        invariant
            j <= commits@.len(),
            last_tag_status(commit_views(commits@), name@) == last_tag_status(
                commit_views(commits@).take(j as int),
                name@,
            ),
        decreases j,
    {
        j = j - 1;
        proof {
            assert(commit_views(commits@).take(j + 1).drop_last() =~= commit_views(
                commits@,
            ).take(j as int));
            assert(commit_views(commits@).take(j + 1).last() == commit_views(commits@)[j as int]);
        }
        let found = tag_status_in(&commits[j].tags, name);
        if let Option::Some(b) = found {
            return Option::Some(b);
        }
    }
    proof {
        assert(commit_views(commits@).take(0) =~= Seq::<CommitEntryV>::empty());
    }
    Option::None
}

fn build_tags(
    names: &Vec<String>,
    check_remote: bool,
    remote_tags: &Vec<String>,
    prev: &Vec<CommitEntry>,
) -> (r: Vec<TagInfo>)
    ensures
        tag_views(r@) == spec_tags(
            str_views(names@),
            check_remote,
            str_views(remote_tags@),
            commit_views(prev@),
        ),
{
    let mut r: Vec<TagInfo> = Vec::new();
    let mut k: usize = 0;
    proof {
        assert(str_views(names@).take(0) =~= Seq::<Seq<char>>::empty());
        assert(tag_views(r@) =~= spec_tags(
            str_views(names@).take(0),
            check_remote,
            str_views(remote_tags@),
            commit_views(prev@),
        ));
    }
    while k < names.len()
        invariant
            k <= names@.len(),
            tag_views(r@) == spec_tags(
                str_views(names@).take(k as int),
                check_remote,
                str_views(remote_tags@),
                commit_views(prev@),
            ),
        decreases names@.len() - k,
    {
        let name = &names[k];
        let pushed = if check_remote {
            contains_string(remote_tags, name)
        } else {
            match tag_status(prev, name) {
                Option::Some(b) => b,
                Option::None => false,
            }
        };
        let ghost pre_r = r@;
        r.push(TagInfo { name: name.clone(), pushed });
        proof {
            let nv = str_views(names@);
            assert(nv.take(k + 1) =~= nv.take(k as int).push(nv[k as int]));
            assert(tag_views(r@) =~= tag_views(pre_r).push(r@.last()@));
            assert(tag_views(r@) =~~= spec_tags(
                nv.take(k + 1),
                check_remote,
                str_views(remote_tags@),
                commit_views(prev@),
            ));
        }
        k = k + 1;
    }
    proof {
        assert(str_views(names@).take(names@.len() as int) =~= str_views(names@));
    }
    r
}

fn build_entry(
    rc: &RawCommit,
    refs: &Vec<RefTip>,
    head_id: &Option<String>,
    check_remote: bool,
    remote_tags: &Vec<String>,
    prev: &Vec<CommitEntry>,
    now: i64,
) -> (r: CommitEntry)
    ensures
        r@ == spec_commit_entry(
            rc@,
            ref_views(refs@),
            opt_str_view(*head_id),
            check_remote,
            str_views(remote_tags@),
            commit_views(prev@),
            now as int,
        ),
{
    let remotes_prefix = chars_of("refs/remotes/");
    let tags_prefix = chars_of("refs/tags/");
    let branches = collect_suffixes(refs, &rc.id, &remotes_prefix);
    let tag_names = collect_suffixes(refs, &rc.id, &tags_prefix);
    let tags = build_tags(&tag_names, check_remote, remote_tags, prev);
    let is_head = match head_id {
        Option::Some(h) => *h == rc.id,
        Option::None => false,
    };
    let r = CommitEntry {
        id: short_id(&rc.id),
        full_id: rc.id.clone(),
        message: rc.summary.clone(),
        time: format_relative_age(now, rc.time),
        is_head,
        remote_branches: branches,
        tags,
    };
    proof {
        assert(r@ =~~= spec_commit_entry(
            rc@,
            ref_views(refs@),
            opt_str_view(*head_id),
            check_remote,
            str_views(remote_tags@),
            commit_views(prev@),
            now as int,
        ));
    }
    r
}

/// The commit list and its cursor.
pub struct LogList {
    pub commits: Vec<CommitEntry>,
    pub selected: Option<usize>,
}

/// Mathematical image of a [`LogList`].
#[verifier::ext_equal]
pub struct LogListV {
    pub commits: Seq<CommitEntryV>,
    pub selected: Option<usize>,
}

impl View for LogList {
    type V = LogListV;

    open spec fn view(&self) -> LogListV {
        LogListV { commits: commit_views(self.commits@), selected: self.selected }
    }
}

impl LogListV {
    /// Well-formedness: the cursor obeys the clamp rule.
    pub open spec fn wf(self) -> bool {
        match self.selected {
            Option::Some(i) => i < self.commits.len(),
            Option::None => self.commits.len() == 0,
        }
    }
}

/// Number of tags shown as not pushed, over all commits.
pub open spec fn spec_unpushed_in(tags: Seq<TagInfoV>) -> int
    decreases tags.len(),
{
    if tags.len() == 0 {
        0
    } else {
        spec_unpushed_in(tags.drop_last()) + (if tags.last().pushed {
            0int
        } else {
            1int
        })
    }
}

pub open spec fn spec_unpushed(commits: Seq<CommitEntryV>) -> int
    decreases commits.len(),
{
    if commits.len() == 0 {
        0
    } else {
        spec_unpushed(commits.drop_last()) + spec_unpushed_in(commits.last().tags)
    }
}

impl LogList {
    /// An empty, well-formed log with no selection.
    pub fn new() -> (r: LogList)
        ensures
            r@.commits.len() == 0,
            r@.selected is None,
            r@.wf(),
    {
        LogList { commits: Vec::new(), selected: Option::None }
    }

    /// Assembles the log from one history walk: the first hundred commits,
    /// each annotated with remote branches and tags; then reconciles the
    /// cursor. The previous entries are the source of the stale pushed
    /// flags used on a cheap rebuild.
    pub fn rebuild(
        &mut self,
        raws: &Vec<RawCommit>,
        refs: &Vec<RefTip>,
        head_id: &Option<String>,
        check_remote_tags: bool,
        remote_tags: &Vec<String>,
        now: i64,
    )
        ensures
            final(self)@.commits == spec_log(
                raw_views(raws@),
                ref_views(refs@),
                opt_str_view(*head_id),
                check_remote_tags,
                str_views(remote_tags@),
                old(self)@.commits,
                now as int,
            ),
            final(self)@.selected == spec_reconciled(
                old(self)@.selected,
                final(self)@.commits.len() as int,
            ),
            final(self)@.wf(),
    {
        let count = if raws.len() > 100 {
            100
        } else {
            raws.len()
        };
        let ghost capped = if raw_views(raws@).len() <= 100 {
            raw_views(raws@)
        } else {
            raw_views(raws@).take(100)
        };
        let ghost entry_of = |rc: RawCommitV|
            spec_commit_entry(
                rc,
                ref_views(refs@),
                opt_str_view(*head_id),
                check_remote_tags,
                str_views(remote_tags@),
                commit_views(self.commits@),
                now as int,
            );
        let mut acc: Vec<CommitEntry> = Vec::new();
        let mut i: usize = 0;
        proof {
            assert(capped.take(0) =~= Seq::<RawCommitV>::empty());
            assert(commit_views(acc@) =~= capped.take(0).map_values(entry_of));
        }
        while i < count
            invariant
                count == capped.len(),
                count <= raws@.len(),
                i <= count,
                entry_of == (|rc: RawCommitV|
                    spec_commit_entry(
                        rc,
                        ref_views(refs@),
                        opt_str_view(*head_id),
                        check_remote_tags,
                        str_views(remote_tags@),
                        commit_views(self.commits@),
                        now as int,
                    )),
                capped == (if raw_views(raws@).len() <= 100 {
                    raw_views(raws@)
                } else {
                    raw_views(raws@).take(100)
                }),
                commit_views(acc@) == capped.take(i as int).map_values(entry_of),
            decreases count - i,
        {
            let entry = build_entry(
                &raws[i],
                refs,
                head_id,
                check_remote_tags,
                remote_tags,
                &self.commits,
                now,
            );
            let ghost pre_acc = acc@;
            acc.push(entry);
            proof {
                assert(capped[i as int] == raw_views(raws@)[i as int]);
                assert(capped.take(i + 1) =~= capped.take(i as int).push(capped[i as int]));
                crate::text::lemma_map_values_push(capped.take(i as int), entry_of, capped[i as int]);
                assert(commit_views(acc@) =~= commit_views(pre_acc).push(entry@));
                assert(entry@ == entry_of(capped[i as int]));
            }
            i = i + 1;
        }
        proof {
            assert(capped.take(count as int) =~= capped);
        }
        self.commits = acc;
        self.selected = reconcile_selection(self.selected, self.commits.len());
    }

    /// How many tags over the whole log are shown as not pushed (saturating
    /// at the machine limit).
    pub fn unpushed_tag_count(&self) -> (n: usize)
        ensures
            n as int == if spec_unpushed(self@.commits) <= usize::MAX as int {
                spec_unpushed(self@.commits)
            } else {
                usize::MAX as int
            },
    {
        let mut n: usize = 0;
        let mut i: usize = 0;
        proof {
            assert(commit_views(self.commits@).take(0) =~= Seq::<CommitEntryV>::empty());
        }
        while i < self.commits.len()
            invariant
                i <= self.commits@.len(),
                n as int == if spec_unpushed(commit_views(self.commits@).take(i as int))
                    <= usize::MAX as int {
                    spec_unpushed(commit_views(self.commits@).take(i as int))
                } else {
                    usize::MAX as int
                },
            decreases self.commits@.len() - i,
        {
            let tags = &self.commits[i].tags;
            let ghost cv = commit_views(self.commits@);
            let ghost pre_total = spec_unpushed(cv.take(i as int));
            let mut j: usize = 0;
            proof {
                assert(tag_views(tags@).take(0) =~= Seq::<TagInfoV>::empty());
            }
            while j < tags.len()
                invariant
                    j <= tags@.len(),
                    pre_total == spec_unpushed(cv.take(i as int)),
                    pre_total >= 0,
                    n as int == if pre_total + spec_unpushed_in(tag_views(tags@).take(j as int))
                        <= usize::MAX as int {
                        pre_total + spec_unpushed_in(tag_views(tags@).take(j as int))
                    } else {
                        usize::MAX as int
                    },
                decreases tags@.len() - j,
            {
                proof {
                    assert(tag_views(tags@).take(j + 1).drop_last() =~= tag_views(tags@).take(
                        j as int,
                    ));
                    assert(tag_views(tags@).take(j + 1).last() == tag_views(tags@)[j as int]);
                    lemma_unpushed_in_nonneg(tag_views(tags@).take(j as int));
                }
                if !tags[j].pushed {
                    if n < usize::MAX {
                        n = n + 1;
                    }
                }
                j = j + 1;
            }
            proof {
                assert(tag_views(tags@).take(tags@.len() as int) =~= tag_views(tags@));
                assert(cv.take(i + 1).drop_last() =~= cv.take(i as int));
                assert(cv.take(i + 1).last() == cv[i as int]);
                assert(cv[i as int].tags == tag_views(tags@));
            }
            i = i + 1;
        }
        proof {
            assert(commit_views(self.commits@).take(self.commits@.len() as int) =~= commit_views(
                self.commits@,
            ));
        }
        n
    }
}

proof fn lemma_unpushed_in_nonneg(tags: Seq<TagInfoV>)
    ensures
        spec_unpushed_in(tags) >= 0,
    decreases tags.len(),
{
    if tags.len() > 0 {
        lemma_unpushed_in_nonneg(tags.drop_last());
    }
}

/// Tag pushed-state staleness, first half: a cheap (local-only) rebuild
/// never consults a remote listing — whatever listing is passed in, the
/// assembled log is the same.
pub proof fn lemma_cheap_rebuild_ignores_remote(
    raws: Seq<RawCommitV>,
    refs: Seq<RefTipV>,
    head_id: Option<Seq<char>>,
    remote_a: Seq<Seq<char>>,
    remote_b: Seq<Seq<char>>,
    prev: Seq<CommitEntryV>,
    now: int,
)
    ensures
        spec_log(raws, refs, head_id, false, remote_a, prev, now) == spec_log(
            raws,
            refs,
            head_id,
            false,
            remote_b,
            prev,
            now,
        ),
{
    let la = spec_log(raws, refs, head_id, false, remote_a, prev, now);
    let lb = spec_log(raws, refs, head_id, false, remote_b, prev, now);
    assert forall|c: int| 0 <= c < la.len() implies la[c] == lb[c] by {
        let capped = if raws.len() <= 100 {
            raws
        } else {
            raws.take(100)
        };
        let names = suffixes_for(refs, capped[c].id, "refs/tags/"@);
        assert(spec_tags(names, false, remote_a, prev) =~~= spec_tags(names, false, remote_b, prev));
        assert(la[c] =~~= lb[c]);
    }
    assert(la =~~= lb);
}

/// Tag pushed-state staleness, second half: on a cheap rebuild every
/// assembled tag carries exactly the pushed flag it last had in the
/// previous log, and a tag never seen before is shown as not pushed.
pub proof fn lemma_cheap_rebuild_preserves_pushed(
    raws: Seq<RawCommitV>,
    refs: Seq<RefTipV>,
    head_id: Option<Seq<char>>,
    remote_tags: Seq<Seq<char>>,
    prev: Seq<CommitEntryV>,
    now: int,
)
    ensures
        forall|c: int, t: int|
            #![trigger spec_log(raws, refs, head_id, false, remote_tags, prev, now)[c].tags[t]]
            0 <= c < spec_log(raws, refs, head_id, false, remote_tags, prev, now).len() && 0 <= t
                < spec_log(raws, refs, head_id, false, remote_tags, prev, now)[c].tags.len()
                ==> spec_log(raws, refs, head_id, false, remote_tags, prev, now)[c].tags[t].pushed
                == (match last_tag_status(
                prev,
                spec_log(raws, refs, head_id, false, remote_tags, prev, now)[c].tags[t].name,
            ) {
                Option::Some(b) => b,
                Option::None => false,
            }),
{
    let l = spec_log(raws, refs, head_id, false, remote_tags, prev, now);
    assert forall|c: int, t: int|
        0 <= c < l.len() && 0 <= t < l[c].tags.len() implies #[trigger] l[c].tags[t].pushed == (
    match last_tag_status(prev, l[c].tags[t].name) {
        Option::Some(b) => b,
        Option::None => false,
    }) by {
        let capped = if raws.len() <= 100 {
            raws
        } else {
            raws.take(100)
        };
        let names = suffixes_for(refs, capped[c].id, "refs/tags/"@);
        assert(l[c].tags == spec_tags(names, false, remote_tags, prev));
        assert(l[c].tags[t] == TagInfoV {
            name: names[t],
            pushed: spec_tag_pushed(names[t], false, remote_tags, prev),
        });
    }
}

/// The name with every trailing `^{}` peel marker removed.
pub open spec fn strip_carets(s: Seq<char>) -> Seq<char>
    decreases s.len(),
{
    if s.len() >= 3 && s.subrange(s.len() - 3, s.len() as int) == "^{}"@ {
        strip_carets(s.take(s.len() - 3))
    } else {
        s
    }
}

/// The tag name one line of a remote tag listing contributes: the second
/// tab-separated field, its `refs/tags/` prefix dropped and its trailing
/// peel markers stripped; a line without a tab contributes none.
pub open spec fn spec_remote_tag_of_line(line: Seq<char>) -> Option<Seq<char>> {
    match spec_find(line, seq!['\t'], 0) {
        Option::None => Option::None,
        Option::Some(t1) => {
            let end = match spec_find(line, seq!['\t'], t1 + 1) {
                Option::Some(t2) => t2,
                Option::None => line.len() as int,
            };
            let field = line.subrange(t1 + 1, end);
            let name = if matches_at(field, "refs/tags/"@, 0) {
                field.skip(10)
            } else {
                field
            };
            Option::Some(strip_carets(name))
        },
    }
}

/// The tag names a remote tag listing holds, line by line.
pub open spec fn spec_remote_tags(lines: Seq<Seq<char>>) -> Seq<Seq<char>>
    decreases lines.len(),
{
    if lines.len() == 0 {
        Seq::<Seq<char>>::empty()
    } else {
        spec_remote_tags(lines.drop_last()) + (match spec_remote_tag_of_line(lines.last()) {
            Option::Some(t) => seq![t],
            Option::None => Seq::<Seq<char>>::empty(),
        })
    }
}

fn remote_tag_of_line(line: &Vec<char>) -> (r: Option<String>)
    ensures
        match r {
            Option::Some(t) => spec_remote_tag_of_line(line@) == Option::Some(t@),
            Option::None => spec_remote_tag_of_line(line@) is None,
        },
{
    let tab: Vec<char> = vec!['\t'];
    proof {
        assert(tab@ =~= seq!['\t']);
    }
    let nline = line.len();
    let t1 = match find_at(line, &tab, 0) {
        Option::Some(t) => t,
        Option::None => {
            return Option::None;
        },
    };
    proof {
        assert(t1 + 1 <= nline);
    }
    let end = match find_at(line, &tab, t1 + 1) {
        Option::Some(t2) => t2,
        Option::None => line.len(),
    };
    let field = subvec(line, t1 + 1, end);
    let prefix = chars_of("refs/tags/");
    proof {
        reveal_strlit("refs/tags/");
    }
    let mut name = if match_at(&field, &prefix, 0) {
        proof {
            assert(field@.skip(10) =~= field@.subrange(10, field@.len() as int));
        }
        subvec(&field, 10, field.len())
    } else {
        field
    };
    let ghost name0 = name@;
    let carets = chars_of("^{}");
    proof {
        reveal_strlit("^{}");
    }
    loop
        invariant_except_break
            carets@ == "^{}"@,
            carets@.len() == 3,
            strip_carets(name0) == strip_carets(name@),
        ensures
            strip_carets(name0) == name@,
        decreases name@.len(),
    {
        let n = name.len();
        if n >= 3 && match_at(&name, &carets, n - 3) {
            let ghost pre_name = name@;
            proof {
                assert(pre_name.subrange(pre_name.len() - 3, pre_name.len() as int) == "^{}"@);
            }
            name.truncate(n - 3);
            proof {
                assert(name@ =~= pre_name.take(pre_name.len() - 3));
            }
        } else {
            proof {
                if name@.len() >= 3 && name@.subrange(name@.len() - 3, name@.len() as int)
                    == "^{}"@ {
                    assert(matches_at(name@, "^{}"@, name@.len() - 3));
                }
                assert(strip_carets(name@) == name@);
            }
            break ;
        }
    }
    Option::Some(string_from_chars(&name))
}

/// Parses a remote tag listing (one reference per line, hash and name
/// separated by a tab) into the tag names it announces.
pub fn parse_ls_remote_tags(output: &str) -> (r: Vec<String>)
    ensures
        str_views(r@) == spec_remote_tags(spec_lines_from(output@, 0)),
{
    let chars = chars_of(output);
    let lines = split_lines(&chars);
    let ghost lv = line_views(lines@);
    let mut r: Vec<String> = Vec::new();
    let mut j: usize = 0;
    proof {
        assert(lv.take(0) =~= Seq::<Seq<char>>::empty());
        assert(str_views(r@) =~= spec_remote_tags(lv.take(0)));
    }
    while j < lines.len()
        invariant
            j <= lines@.len(),
            lv == line_views(lines@),
            line_views(lines@) == spec_lines_from(output@, 0),
            str_views(r@) == spec_remote_tags(lv.take(j as int)),
        decreases lines@.len() - j,
    {
        proof {
            assert(lv.take(j + 1).drop_last() =~= lv.take(j as int));
            assert(lv.take(j + 1).last() == lv[j as int]);
            assert(lv[j as int] == lines@[j as int]@);
        }
        match remote_tag_of_line(&lines[j]) {
            Option::Some(t) => {
                let ghost pre = r@;
                r.push(t);
                proof {
                    assert(str_views(pre.push(t)) =~= str_views(pre).push(t@));
                    assert(str_views(r@) =~= spec_remote_tags(lv.take(j + 1)));
                }
            },
            Option::None => {
                proof {
                    assert(str_views(r@) =~= spec_remote_tags(lv.take(j + 1)));
                }
            },
        }
        j = j + 1;
    }
    proof {
        assert(lv.take(lines@.len() as int) =~= lv);
    }
    r
}

} // verus!
