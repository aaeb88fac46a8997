use vstd::prelude::*;
use crate::cursor::{next_selection, prev_selection, spec_next, spec_prev};
use crate::input::{normalize_fullwidth, spec_normalize_fullwidth, InputMode, Key, MouseInput};
use crate::log::LogList;
use crate::processing::Processing;
use crate::status::{section_positions, staged_count, FileList, FileStatus};
use crate::text::{chars_of, push_dec_u64, spec_dec, spec_trim, string_from_chars, trim_chars};

verus! {

/// The two tabs of the interface.
#[derive(Default, Clone, Copy, PartialEq, Eq, Structural, Debug)]
pub enum Tab {
    #[default]
    Files,
    Log,
}

/// What the surrounding process is asked to perform after a state
/// transition. The core only decides; it never touches the repository,
/// the network or the clock itself.
#[derive(Clone, Debug)]
pub enum Action {
    /// Nothing to do.
    NoOp,
    /// Stage or unstage (per `was_staged`) the entry at this path. When
    /// the path is a directory the caller uses the recursive external
    /// add/reset; otherwise `remove_from_index` says whether the
    /// operation is an index removal (unstaging an added file, staging a
    /// deleted one) rather than an add or reset. The section data feeds
    /// the cursor-follow after the rebuild.
    ToggleStage { path: String, was_staged: bool, remove_from_index: bool, pos_in_section: usize },
    /// Run the (possibly amending) commit in the background.
    RunCommit { message: String, amend: bool },
    /// Check whether a remote is configured, then either start the
    /// background push or report back that none is set.
    CheckRemoteThenPush,
    /// Run the pull in the background.
    RunPull,
    /// Push all tags in the background.
    RunPushTags,
    /// Add the remote under this URL, then push.
    AddRemoteAndPush { url: String },
    /// Open the repository at this position of the picker list.
    SwitchRepo { index: usize },
    /// Enumerate the nearby repositories for the picker.
    DetectRepos,
    /// Delete a tag, locally and (when it was pushed) on the remote.
    TagDelete { name: String, remote: bool },
    /// Create or move a tag, deleting the old name first when renaming,
    /// and push it when the old one had been pushed.
    TagUpdate {
        delete_old: Option<String>,
        delete_old_remote: bool,
        name: String,
        commit_id: String,
        push: bool,
    },
    /// Rebuild everything from the repository.
    Refresh,
}

/// The whole interactive state: one aggregate owned by the event loop and
/// mutated only through these methods.
pub struct App {
    pub tab: Tab,
    pub running: bool,
    pub input_mode: InputMode,
    /// The commit message being typed, and the cursor inside it (a
    /// character index, so editing never splits a character).
    pub commit_message: Vec<char>,
    pub cursor_pos: usize,
    pub is_amending: bool,
    pub remote_url: Vec<char>,
    pub tag_input: Vec<char>,
    pub editing_tag: Option<String>,
    pub files: FileList,
    pub log: LogList,
    pub branch_name: String,
    pub ahead_behind: Option<(usize, usize)>,
    /// The transient status message and whether it is an error.
    pub message: Option<(String, bool)>,
    pub available_repos: Vec<String>,
    pub repo_selected: Option<usize>,
    pub processing: Processing,
    pub spinner_frame: usize,
}

/// Mathematical image of the [`App`] state.
#[verifier::ext_equal]
pub struct AppV {
    pub tab: Tab,
    pub running: bool,
    pub input_mode: InputMode,
    pub commit_message: Seq<char>,
    pub cursor_pos: usize,
    pub is_amending: bool,
    pub remote_url: Seq<char>,
    pub tag_input: Seq<char>,
    pub editing_tag: Option<Seq<char>>,
    pub files: crate::status::FileListV,
    pub log: crate::log::LogListV,
    pub branch_name: Seq<char>,
    pub ahead_behind: Option<(usize, usize)>,
    pub message: Option<(Seq<char>, bool)>,
    pub available_repos: Seq<Seq<char>>,
    pub repo_selected: Option<usize>,
    pub processing: Processing,
    pub spinner_frame: usize,
}

impl View for App {
    type V = AppV;

    open spec fn view(&self) -> AppV {
        AppV {
            tab: self.tab,
            running: self.running,
            input_mode: self.input_mode,
            commit_message: self.commit_message@,
            cursor_pos: self.cursor_pos,
            is_amending: self.is_amending,
            remote_url: self.remote_url@,
            tag_input: self.tag_input@,
            editing_tag: match self.editing_tag {
                Option::Some(t) => Option::Some(t@),
                Option::None => Option::None,
            },
            files: self.files@,
            log: self.log@,
            branch_name: self.branch_name@,
            ahead_behind: self.ahead_behind,
            message: match self.message {
                Option::Some(m) => Option::Some((m.0@, m.1)),
                Option::None => Option::None,
            },
            available_repos: crate::log::str_views(self.available_repos@),
            repo_selected: self.repo_selected,
            processing: self.processing,
            spinner_frame: self.spinner_frame,
        }
    }
}

impl AppV {
    /// Well-formedness carried across every transition: the two list
    /// cursors obey the clamp rule, the text cursor stays inside the
    /// commit message, the picker selection stays inside the picker list,
    /// and the spinner frame stays inside the frame set.
    pub open spec fn wf(self) -> bool {
        &&& self.files.wf()
        &&& self.log.wf()
        &&& self.cursor_pos <= self.commit_message.len()
        &&& match self.repo_selected {
            Option::Some(i) => i < self.available_repos.len(),
            Option::None => true,
        }
        &&& self.spinner_frame < 10
    }
}


/// `s` with another spinner frame.
pub open spec fn with_spinner(s: AppV, frame: usize) -> AppV {
    AppV { spinner_frame: frame, ..s }
}

/// `s` with another transient message.
pub open spec fn with_message(s: AppV, m: Option<(Seq<char>, bool)>) -> AppV {
    AppV { message: m, ..s }
}

/// `s` with the other tab active.
pub open spec fn with_tab(s: AppV, t: Tab) -> AppV {
    AppV { tab: t, ..s }
}

/// `s` with another file-list selection.
pub open spec fn with_files_selected(s: AppV, sel: Option<usize>) -> AppV {
    AppV { files: crate::status::FileListV { selected: sel, ..s.files }, ..s }
}

/// `s` with another log selection.
pub open spec fn with_log_selected(s: AppV, sel: Option<usize>) -> AppV {
    AppV { log: crate::log::LogListV { selected: sel, ..s.log }, ..s }
}

/// `s` with another processing slot.
pub open spec fn with_processing(s: AppV, p: Processing) -> AppV {
    AppV { processing: p, ..s }
}

/// `s` with another file list.
pub open spec fn with_files(s: AppV, f: crate::status::FileListV) -> AppV {
    AppV { files: f, ..s }
}

/// `s` with another commit log.
pub open spec fn with_log(s: AppV, l: crate::log::LogListV) -> AppV {
    AppV { log: l, ..s }
}

/// `s` with other branch information.
pub open spec fn with_branch(s: AppV, name: Seq<char>, ab: Option<(usize, usize)>) -> AppV {
    AppV { branch_name: name, ahead_behind: ab, ..s }
}

/// The transition into the URL dialog when a push finds no remote.
pub open spec fn spec_push_no_remote(s: AppV) -> AppV {
    AppV {
        input_mode: InputMode::RemoteUrl,
        remote_url: Seq::<char>::empty(),
        message: Option::Some(("No remote configured. Enter repository URL:"@, true)),
        ..s
    }
}

/// The spinner animation frames.
pub open spec fn spec_spinner_char(frame: int) -> char {
    if frame == 0 {
        '⠋'
    } else if frame == 1 {
        '⠙'
    } else if frame == 2 {
        '⠹'
    } else if frame == 3 {
        '⠸'
    } else if frame == 4 {
        '⠼'
    } else if frame == 5 {
        '⠴'
    } else if frame == 6 {
        '⠦'
    } else if frame == 7 {
        '⠧'
    } else if frame == 8 {
        '⠇'
    } else {
        '⠏'
    }
}

impl App {
    /// The initial state: both lists empty, the Files tab and normal mode
    /// active, nothing running and nothing selected.
    pub fn new() -> (r: App)
        ensures
            r@.tab == Tab::Files,
            r@.running,
            r@.input_mode == InputMode::Normal,
            r@.commit_message.len() == 0,
            r@.cursor_pos == 0,
            !r@.is_amending,
            r@.remote_url.len() == 0,
            r@.tag_input.len() == 0,
            r@.editing_tag is None,
            r@.files.files.len() == 0,
            r@.files.selected is None,
            r@.files.fingerprint is None,
            r@.log.commits.len() == 0,
            r@.log.selected is None,
            r@.branch_name.len() == 0,
            r@.ahead_behind is None,
            r@.message is None,
            r@.available_repos.len() == 0,
            r@.repo_selected is None,
            r@.processing == Processing::Idle,
            r@.spinner_frame == 0,
            r@.wf(),
    {
        let r = App {
            tab: Tab::Files,
            running: true,
            input_mode: InputMode::Normal,
            commit_message: Vec::new(),
            cursor_pos: 0,
            is_amending: false,
            remote_url: Vec::new(),
            tag_input: Vec::new(),
            editing_tag: Option::None,
            files: FileList::new(),
            log: LogList::new(),
            branch_name: String::new(),
            ahead_behind: Option::None,
            message: Option::None,
            available_repos: Vec::new(),
            repo_selected: Option::None,
            processing: Processing::Idle,
            spinner_frame: 0,
        };
        proof {
            assert(crate::log::str_views(r.available_repos@) =~= Seq::<Seq<char>>::empty());
        }
        r
    }

    /// Advances the spinner one animation frame, wrapping around the
    /// frame set.
    pub fn tick_spinner(&mut self)
        requires
            old(self)@.spinner_frame < 10,
        ensures
            final(self)@ == with_spinner(old(self)@, ((old(self)@.spinner_frame + 1) % 10) as usize),
    {
        self.spinner_frame = (self.spinner_frame + 1) % 10;
        proof {
            assert(self@ =~~= with_spinner(
                old(self)@,
                ((old(self)@.spinner_frame + 1) % 10) as usize,
            ));
        }
    }

    /// The spinner character of the current frame.
    pub fn spinner_char(&self) -> (r: char)
        requires
            self@.spinner_frame < 10,
        ensures
            r == spec_spinner_char(self@.spinner_frame as int),
    {
        match self.spinner_frame {
            0 => '⠋',
            1 => '⠙',
            2 => '⠹',
            3 => '⠸',
            4 => '⠼',
            5 => '⠴',
            6 => '⠦',
            7 => '⠧',
            8 => '⠇',
            _ => '⠏',
        }
    }

    /// Sets the transient status message.
    pub fn set_message(&mut self, text: String, is_error: bool)
        ensures
            final(self)@ == with_message(old(self)@, Option::Some((text@, is_error))),
    {
        self.message = Option::Some((text, is_error));
        proof {
            assert(self@ =~~= with_message(old(self)@, Option::Some((text@, is_error))));
        }
    }

    /// Length of the list the active tab shows.
    pub fn current_list_len(&self) -> (n: usize)
        ensures
            n == (if self@.tab == Tab::Files {
                self@.files.visual.len()
            } else {
                self@.log.commits.len()
            }),
    {
        match self.tab {
            Tab::Files => self.files.visual.len(),
            Tab::Log => self.log.commits.len(),
        }
    }

    /// Switches between the Files and Log tabs.
    pub fn toggle_tab(&mut self)
        ensures
            final(self)@ == with_tab(
                old(self)@,
                if old(self)@.tab == Tab::Files {
                    Tab::Log
                } else {
                    Tab::Files
                },
            ),
    {
        self.tab = match self.tab {
            Tab::Files => Tab::Log,
            Tab::Log => Tab::Files,
        };
        proof {
            assert(self@ =~~= with_tab(
                old(self)@,
                if old(self)@.tab == Tab::Files {
                    Tab::Log
                } else {
                    Tab::Files
                },
            ));
        }
    }

    /// The selection of the active tab's list, one step down with
    /// wrap-around.
    pub fn select_next(&mut self)
        requires
            old(self)@.wf(),
        ensures
            final(self)@.wf(),
            old(self)@.tab == Tab::Files ==> final(self)@ == with_files_selected(
                old(self)@,
                spec_next(old(self)@.files.selected, old(self)@.files.visual.len() as int),
            ),
            old(self)@.tab == Tab::Log ==> final(self)@ == with_log_selected(
                old(self)@,
                spec_next(old(self)@.log.selected, old(self)@.log.commits.len() as int),
            ),
    {
        match self.tab {
            Tab::Files => {
                proof {
                    crate::status::lemma_visual_permutation(self@.files.files);
                }
                self.files.selected = next_selection(self.files.selected, self.files.visual.len());
            },
            Tab::Log => {
                self.log.selected = next_selection(self.log.selected, self.log.commits.len());
            },
        }
        proof {
            if old(self)@.tab == Tab::Files {
                assert(self@ =~~= with_files_selected(
                    old(self)@,
                    spec_next(old(self)@.files.selected, old(self)@.files.visual.len() as int),
                ));
            } else {
                assert(self@ =~~= with_log_selected(
                    old(self)@,
                    spec_next(old(self)@.log.selected, old(self)@.log.commits.len() as int),
                ));
            }
        }
    }

    /// The selection of the active tab's list, one step up with
    /// wrap-around.
    pub fn select_prev(&mut self)
        requires
            old(self)@.wf(),
        ensures
            final(self)@.wf(),
            old(self)@.tab == Tab::Files ==> final(self)@ == with_files_selected(
                old(self)@,
                spec_prev(old(self)@.files.selected, old(self)@.files.visual.len() as int),
            ),
            old(self)@.tab == Tab::Log ==> final(self)@ == with_log_selected(
                old(self)@,
                spec_prev(old(self)@.log.selected, old(self)@.log.commits.len() as int),
            ),
    {
        match self.tab {
            Tab::Files => {
                proof {
                    crate::status::lemma_visual_permutation(self@.files.files);
                }
                self.files.selected = prev_selection(self.files.selected, self.files.visual.len());
            },
            Tab::Log => {
                self.log.selected = prev_selection(self.log.selected, self.log.commits.len());
            },
        }
        proof {
            if old(self)@.tab == Tab::Files {
                assert(self@ =~~= with_files_selected(
                    old(self)@,
                    spec_prev(old(self)@.files.selected, old(self)@.files.visual.len() as int),
                ));
            } else {
                assert(self@ =~~= with_log_selected(
                    old(self)@,
                    spec_prev(old(self)@.log.selected, old(self)@.log.commits.len() as int),
                ));
            }
        }
    }

    /// Selects an index of the active tab's list; out-of-range indices are
    /// ignored.
    pub fn select_index(&mut self, index: usize)
        requires
            old(self)@.wf(),
        ensures
            final(self)@.wf(),
            old(self)@.tab == Tab::Files ==> final(self)@ == with_files_selected(
                old(self)@,
                if (index as int) < old(self)@.files.visual.len() {
                    Option::Some(index)
                } else {
                    old(self)@.files.selected
                },
            ),
            old(self)@.tab == Tab::Log ==> final(self)@ == with_log_selected(
                old(self)@,
                if (index as int) < old(self)@.log.commits.len() {
                    Option::Some(index)
                } else {
                    old(self)@.log.selected
                },
            ),
    {
        let len = self.current_list_len();
        if index < len {
            match self.tab {
                Tab::Files => {
                    proof {
                        crate::status::lemma_visual_permutation(self@.files.files);
                    }
                    self.files.selected = Option::Some(index);
                },
                Tab::Log => {
                    self.log.selected = Option::Some(index);
                },
            }
        }
        proof {
            if old(self)@.tab == Tab::Files {
                assert(self@ =~~= with_files_selected(
                    old(self)@,
                    if (index as int) < old(self)@.files.visual.len() {
                        Option::Some(index)
                    } else {
                        old(self)@.files.selected
                    },
                ));
            } else {
                assert(self@ =~~= with_log_selected(
                    old(self)@,
                    if (index as int) < old(self)@.log.commits.len() {
                        Option::Some(index)
                    } else {
                        old(self)@.log.selected
                    },
                ));
            }
        }
    }

    /// Marks the given background operation as running. The caller must
    /// have made sure nothing else is in flight.
    pub fn begin_processing(&mut self, kind: Processing)
        requires
            old(self)@.processing == Processing::Idle,
            kind != Processing::Idle,
        ensures
            final(self)@ == with_processing(old(self)@, kind),
    {
        self.processing = kind;
        proof {
            assert(self@ =~~= with_processing(old(self)@, kind));
        }
    }

    /// Takes the completion a background operation delivered (if any):
    /// shows its message, marks the slot idle again, and says whether a
    /// full refresh is owed. Must be polled every tick while an operation
    /// is in flight.
    pub fn check_processing(&mut self, outcome: Option<Result<String, String>>) -> (refresh: bool)
        ensures
            match outcome {
                Option::Some(res) => refresh && final(self)@ == with_message(
                    with_processing(old(self)@, Processing::Idle),
                    Option::Some(
                        match res {
                            Result::Ok(m) => (m@, false),
                            Result::Err(m) => (m@, true),
                        },
                    ),
                ),
                Option::None => !refresh && final(self)@ == old(self)@,
            },
    {
        match outcome {
            Option::Some(res) => {
                match res {
                    Result::Ok(m) => {
                        self.message = Option::Some((m, false));
                    },
                    Result::Err(m) => {
                        self.message = Option::Some((m, true));
                    },
                }
                self.processing = Processing::Idle;
                proof {
                    assert(self@ =~~= with_message(
                        with_processing(old(self)@, Processing::Idle),
                        self@.message,
                    ));
                }
                true
            },
            Option::None => false,
        }
    }
}

/// The ahead/behind summary shown beside the branch name.
pub open spec fn spec_status_label(ab: Option<(usize, usize)>) -> Seq<char> {
    match ab {
        Option::None => Seq::<char>::empty(),
        Option::Some((a, b)) => if a == 0 && b == 0 {
            "synced"@
        } else if b == 0 {
            "↑"@ + spec_dec(a as int)
        } else if a == 0 {
            "↓"@ + spec_dec(b as int)
        } else {
            "↑"@ + spec_dec(a as int) + "  ↓"@ + spec_dec(b as int)
        },
    }
}

impl App {
    /// The ahead/behind label: empty when unknown, `synced` when even,
    /// else the non-zero counts with their arrows.
    pub fn status_label(&self) -> (r: String)
        ensures
            r@ == spec_status_label(self@.ahead_behind),
    {
        match self.ahead_behind {
            Option::None => String::new(),
            Option::Some((a, b)) => {
                if a == 0 && b == 0 {
                    "synced".to_owned()
                } else if b == 0 {
                    let mut v = chars_of("↑");
                    push_dec_u64(a as u64, &mut v);
                    string_from_chars(&v)
                } else if a == 0 {
                    let mut v = chars_of("↓");
                    push_dec_u64(b as u64, &mut v);
                    string_from_chars(&v)
                } else {
                    let mut v = chars_of("↑");
                    push_dec_u64(a as u64, &mut v);
                    let mut mid = chars_of("  ↓");
                    v.append(&mut mid);
                    push_dec_u64(b as u64, &mut v);
                    string_from_chars(&v)
                }
            },
        }
    }

    /// Whether the commit at a walk position is classified unpushed: the
    /// first *ahead* commits of the newest-first walk are exactly the
    /// ones the upstream lacks.
    pub fn commit_is_unpushed(&self, index: usize) -> (r: bool)
        ensures
            r == (match self@.ahead_behind {
                Option::Some(p) => (index as int) < p.0 as int,
                Option::None => false,
            }),
    {
        let ahead = match self.ahead_behind {
            Option::Some(p) => p.0,
            Option::None => 0,
        };
        index < ahead
    }
}

/// Mathematical image of an [`Action`].
#[verifier::ext_equal]
pub enum ActionV {
    NoOp,
    ToggleStage { path: Seq<char>, was_staged: bool, remove_from_index: bool, pos_in_section: usize },
    RunCommit { message: Seq<char>, amend: bool },
    CheckRemoteThenPush,
    RunPull,
    RunPushTags,
    AddRemoteAndPush { url: Seq<char> },
    SwitchRepo { index: usize },
    DetectRepos,
    TagDelete { name: Seq<char>, remote: bool },
    TagUpdate {
        delete_old: Option<Seq<char>>,
        delete_old_remote: bool,
        name: Seq<char>,
        commit_id: Seq<char>,
        push: bool,
    },
    Refresh,
}

impl View for Action {
    type V = ActionV;

    open spec fn view(&self) -> ActionV {
        match self {
            Action::NoOp => ActionV::NoOp,
            Action::ToggleStage { path, was_staged, remove_from_index, pos_in_section } => (
            ActionV::ToggleStage {
                path: path@,
                was_staged: *was_staged,
                remove_from_index: *remove_from_index,
                pos_in_section: *pos_in_section,
            }),
            Action::RunCommit { message, amend } => (ActionV::RunCommit {
                message: message@,
                amend: *amend,
            }),
            Action::CheckRemoteThenPush => ActionV::CheckRemoteThenPush,
            Action::RunPull => ActionV::RunPull,
            Action::RunPushTags => ActionV::RunPushTags,
            Action::AddRemoteAndPush { url } => ActionV::AddRemoteAndPush { url: url@ },
            Action::SwitchRepo { index } => ActionV::SwitchRepo { index: *index },
            Action::DetectRepos => ActionV::DetectRepos,
            Action::TagDelete { name, remote } => (ActionV::TagDelete {
                name: name@,
                remote: *remote,
            }),
            Action::TagUpdate { delete_old, delete_old_remote, name, commit_id, push } => (
            ActionV::TagUpdate {
                delete_old: match delete_old {
                    Option::Some(o) => Option::Some(o@),
                    Option::None => Option::None,
                },
                delete_old_remote: *delete_old_remote,
                name: name@,
                commit_id: commit_id@,
                push: *push,
            }),
            Action::Refresh => ActionV::Refresh,
        }
    }
}

/// Keys after IME folding: full-width characters reach the dispatcher as
/// their ASCII counterparts.
pub open spec fn spec_normalize_key(key: Key) -> Key {
    match key {
        Key::Char(c) => Key::Char(spec_normalize_fullwidth(c)),
        _ => key,
    }
}

/// One key in Insert mode: point-cursor editing of the commit message,
/// Enter committing, Esc cancelling.
pub open spec fn spec_key_insert(s: AppV, key: Key) -> (AppV, ActionV) {
    match key {
        Key::Esc => (AppV { input_mode: InputMode::Normal, ..s }, ActionV::NoOp),
        Key::Enter => {
            let t = spec_trim(s.commit_message);
            if t.len() == 0 {
                (
                    AppV { message: Option::Some(("Empty commit message"@, true)), ..s },
                    ActionV::NoOp,
                )
            } else {
                (
                    AppV {
                        commit_message: Seq::<char>::empty(),
                        cursor_pos: 0,
                        is_amending: false,
                        input_mode: InputMode::Normal,
                        processing: Processing::Committing,
                        ..s
                    },
                    ActionV::RunCommit { message: t, amend: s.is_amending },
                )
            }
        },
        Key::Backspace => (
            if s.cursor_pos > 0 {
                AppV {
                    commit_message: s.commit_message.remove(s.cursor_pos - 1),
                    cursor_pos: (s.cursor_pos - 1) as usize,
                    ..s
                }
            } else {
                s
            },
            ActionV::NoOp,
        ),
        Key::Delete => (
            if s.cursor_pos < s.commit_message.len() {
                AppV { commit_message: s.commit_message.remove(s.cursor_pos as int), ..s }
            } else {
                s
            },
            ActionV::NoOp,
        ),
        Key::Left => (
            AppV {
                cursor_pos: if s.cursor_pos > 0 {
                    (s.cursor_pos - 1) as usize
                } else {
                    0
                },
                ..s
            },
            ActionV::NoOp,
        ),
        Key::Right => (
            AppV {
                cursor_pos: if s.cursor_pos < s.commit_message.len() {
                    (s.cursor_pos + 1) as usize
                } else {
                    s.cursor_pos
                },
                ..s
            },
            ActionV::NoOp,
        ),
        Key::Home => (AppV { cursor_pos: 0, ..s }, ActionV::NoOp),
        Key::End => (AppV { cursor_pos: s.commit_message.len() as usize, ..s }, ActionV::NoOp),
        Key::Char(c) => (
            AppV {
                commit_message: s.commit_message.insert(s.cursor_pos as int, c),
                cursor_pos: (s.cursor_pos + 1) as usize,
                ..s
            },
            ActionV::NoOp,
        ),
        _ => (s, ActionV::NoOp),
    }
}

/// One key in RemoteUrl mode: line editing of the URL, Enter adding the
/// remote and pushing, Esc cancelling.
pub open spec fn spec_key_remote_url(s: AppV, key: Key) -> (AppV, ActionV) {
    match key {
        Key::Esc => (
            AppV {
                input_mode: InputMode::Normal,
                remote_url: Seq::<char>::empty(),
                message: Option::Some(("Cancelled"@, false)),
                ..s
            },
            ActionV::NoOp,
        ),
        Key::Enter => {
            let u = spec_trim(s.remote_url);
            if u.len() == 0 {
                (AppV { message: Option::Some(("URL is empty"@, true)), ..s }, ActionV::NoOp)
            } else {
                (
                    AppV { remote_url: Seq::<char>::empty(), input_mode: InputMode::Normal, ..s },
                    ActionV::AddRemoteAndPush { url: u },
                )
            }
        },
        Key::Backspace => (
            if s.remote_url.len() > 0 {
                AppV { remote_url: s.remote_url.drop_last(), ..s }
            } else {
                s
            },
            ActionV::NoOp,
        ),
        Key::Char(c) => (AppV { remote_url: s.remote_url.push(c), ..s }, ActionV::NoOp),
        _ => (s, ActionV::NoOp),
    }
}

/// One key in the repository picker: wrap-around navigation, Enter
/// choosing, Esc cancelling.
pub open spec fn spec_key_repo_select(s: AppV, key: Key) -> (AppV, ActionV) {
    match key {
        Key::Esc => (AppV { input_mode: InputMode::Normal, ..s }, ActionV::NoOp),
        Key::Enter => {
            match s.repo_selected {
                Option::Some(i) => if i < s.available_repos.len() {
                    (
                        AppV { input_mode: InputMode::Normal, ..s },
                        ActionV::SwitchRepo { index: i },
                    )
                } else {
                    (s, ActionV::NoOp)
                },
                Option::None => (s, ActionV::NoOp),
            }
        },
        Key::Char(c) => if c == 'j' {
            (
                AppV {
                    repo_selected: spec_next(s.repo_selected, s.available_repos.len() as int),
                    ..s
                },
                ActionV::NoOp,
            )
        } else if c == 'k' {
            (
                AppV {
                    repo_selected: spec_prev(s.repo_selected, s.available_repos.len() as int),
                    ..s
                },
                ActionV::NoOp,
            )
        } else {
            (s, ActionV::NoOp)
        },
        Key::Down => (
            AppV { repo_selected: spec_next(s.repo_selected, s.available_repos.len() as int), ..s },
            ActionV::NoOp,
        ),
        Key::Up => (
            AppV { repo_selected: spec_prev(s.repo_selected, s.available_repos.len() as int), ..s },
            ActionV::NoOp,
        ),
        _ => (s, ActionV::NoOp),
    }
}

/// One key in TagInput mode: line editing of the tag name, Enter creating
/// or renaming the tag on the selected commit, Esc cancelling.
pub open spec fn spec_key_tag_input(s: AppV, key: Key) -> (AppV, ActionV) {
    match key {
        Key::Esc => (
            AppV {
                input_mode: InputMode::Normal,
                tag_input: Seq::<char>::empty(),
                editing_tag: Option::None,
                ..s
            },
            ActionV::NoOp,
        ),
        Key::Enter => {
            let name = spec_trim(s.tag_input);
            if name.len() == 0 {
                (
                    AppV {
                        input_mode: InputMode::Normal,
                        message: Option::Some(("Tag name is empty"@, true)),
                        ..s
                    },
                    ActionV::NoOp,
                )
            } else {
                match s.log.selected {
                    Option::Some(i) => if i < s.log.commits.len() {
                        let c = s.log.commits[i as int];
                        let was_pushed = c.tags.len() > 0 && c.tags[0].pushed;
                        (
                            AppV {
                                tag_input: Seq::<char>::empty(),
                                editing_tag: Option::None,
                                input_mode: InputMode::Normal,
                                ..s
                            },
                            ActionV::TagUpdate {
                                delete_old: match s.editing_tag {
                                    Option::Some(o) => if o != name {
                                        Option::Some(o)
                                    } else {
                                        Option::None
                                    },
                                    Option::None => Option::None,
                                },
                                delete_old_remote: was_pushed,
                                name: name,
                                commit_id: c.full_id,
                                push: was_pushed,
                            },
                        )
                    } else {
                        (s, ActionV::NoOp)
                    },
                    Option::None => (s, ActionV::NoOp),
                }
            }
        },
        Key::Backspace => (
            if s.tag_input.len() > 0 {
                AppV { tag_input: s.tag_input.drop_last(), ..s }
            } else {
                s
            },
            ActionV::NoOp,
        ),
        Key::Char(c) => (AppV { tag_input: s.tag_input.push(c), ..s }, ActionV::NoOp),
        _ => (s, ActionV::NoOp),
    }
}

/// Moving the active tab's selection one step down.
pub open spec fn spec_select_next(s: AppV) -> AppV {
    if s.tab == Tab::Files {
        with_files_selected(s, spec_next(s.files.selected, s.files.visual.len() as int))
    } else {
        with_log_selected(s, spec_next(s.log.selected, s.log.commits.len() as int))
    }
}

/// Moving the active tab's selection one step up.
pub open spec fn spec_select_prev(s: AppV) -> AppV {
    if s.tab == Tab::Files {
        with_files_selected(s, spec_prev(s.files.selected, s.files.visual.len() as int))
    } else {
        with_log_selected(s, spec_prev(s.log.selected, s.log.commits.len() as int))
    }
}

/// The stage/unstage plan for the current file selection: the selected
/// entry's path and section, the data the cursor-follow needs, and
/// whether the operation works on the index by removal; validation
/// failures only set a message.
pub open spec fn spec_stage_plan(s: AppV) -> (AppV, ActionV) {
    match s.files.selected {
        Option::None => (
            AppV { message: Option::Some(("No file selected"@, true)), ..s },
            ActionV::NoOp,
        ),
        Option::Some(v) => if v < s.files.visual.len() && 0 <= s.files.visual[v as int]
            < s.files.files.len() {
            let e = s.files.files[s.files.visual[v as int]];
            let stn = section_positions(s.files.files, true).len();
            (
                s,
                ActionV::ToggleStage {
                    path: e.path,
                    was_staged: e.staged,
                    remove_from_index: if e.staged {
                        e.status == FileStatus::Added
                    } else {
                        e.status == FileStatus::Deleted
                    },
                    pos_in_section: if e.staged {
                        v
                    } else {
                        (v - stn) as usize
                    },
                },
            )
        } else {
            (AppV { message: Option::Some(("Invalid selection"@, true)), ..s }, ActionV::NoOp)
        },
    }
}

/// Opening the tag dialog for the selected commit, pre-filled with its
/// tag when it has one.
pub open spec fn spec_open_tag_input(s: AppV) -> (AppV, ActionV) {
    match s.log.selected {
        Option::Some(i) => if i < s.log.commits.len() {
            let c = s.log.commits[i as int];
            if c.tags.len() > 0 {
                (
                    AppV {
                        tag_input: c.tags[0].name,
                        editing_tag: Option::Some(c.tags[0].name),
                        input_mode: InputMode::TagInput,
                        ..s
                    },
                    ActionV::NoOp,
                )
            } else {
                (
                    AppV {
                        tag_input: Seq::<char>::empty(),
                        editing_tag: Option::None,
                        input_mode: InputMode::TagInput,
                        ..s
                    },
                    ActionV::NoOp,
                )
            }
        } else {
            (s, ActionV::NoOp)
        },
        Option::None => (s, ActionV::NoOp),
    }
}

/// The deletion plan for the selected commit's tag.
pub open spec fn spec_delete_tag_plan(s: AppV) -> (AppV, ActionV) {
    match s.log.selected {
        Option::Some(i) => if i < s.log.commits.len() {
            let c = s.log.commits[i as int];
            if c.tags.len() == 0 {
                (
                    AppV { message: Option::Some(("No tag on this commit"@, true)), ..s },
                    ActionV::NoOp,
                )
            } else {
                let t = c.tags[0];
                (
                    AppV {
                        message: Option::Some(
                            (
                                if t.pushed {
                                    "Deleted tag: "@ + t.name + " (local + remote)"@
                                } else {
                                    "Deleted tag: "@ + t.name
                                },
                                false,
                            ),
                        ),
                        ..s
                    },
                    ActionV::TagDelete { name: t.name, remote: t.pushed },
                )
            }
        } else {
            (s, ActionV::NoOp)
        },
        Option::None => (s, ActionV::NoOp),
    }
}

/// Entering amend mode: only the HEAD commit may be amended; its message
/// is loaded into the editor and the Files tab shown.
pub open spec fn spec_start_amend(s: AppV) -> (AppV, ActionV) {
    match s.log.selected {
        Option::Some(i) => if i < s.log.commits.len() {
            let c = s.log.commits[i as int];
            if !c.is_head {
                (
                    AppV { message: Option::Some(("Can only amend HEAD commit"@, true)), ..s },
                    ActionV::NoOp,
                )
            } else {
                (
                    AppV {
                        commit_message: c.message,
                        cursor_pos: c.message.len() as usize,
                        is_amending: true,
                        input_mode: InputMode::Insert,
                        tab: Tab::Files,
                        ..s
                    },
                    ActionV::NoOp,
                )
            }
        } else {
            (s, ActionV::NoOp)
        },
        Option::None => (s, ActionV::NoOp),
    }
}

/// One key in Normal mode, in the dispatch order of the key table.
pub open spec fn spec_key_normal(s: AppV, key: Key, ctrl: bool) -> (AppV, ActionV) {
    if key == Key::Char('q') {
        (AppV { running: false, ..s }, ActionV::NoOp)
    } else if key == Key::Tab {
        (
            AppV {
                tab: if s.tab == Tab::Files {
                    Tab::Log
                } else {
                    Tab::Files
                },
                ..s
            },
            ActionV::NoOp,
        )
    } else if key == Key::Char('j') || key == Key::Down {
        (spec_select_next(s), ActionV::NoOp)
    } else if key == Key::Char('k') || key == Key::Up {
        (spec_select_prev(s), ActionV::NoOp)
    } else if key == Key::Char(' ') && s.tab == Tab::Files {
        spec_stage_plan(s)
    } else if key == Key::Char('c') && s.tab == Tab::Files {
        (AppV { input_mode: InputMode::Insert, ..s }, ActionV::NoOp)
    } else if key == Key::Char('P') {
        (s, ActionV::CheckRemoteThenPush)
    } else if key == Key::Char('p') && s.tab == Tab::Log {
        (AppV { processing: Processing::Pulling, ..s }, ActionV::RunPull)
    } else if key == Key::Char('t') && s.tab == Tab::Log {
        spec_open_tag_input(s)
    } else if key == Key::Char('T') && s.tab == Tab::Log {
        (AppV { processing: Processing::PushingTags, ..s }, ActionV::RunPushTags)
    } else if key == Key::Char('d') && s.tab == Tab::Log {
        spec_delete_tag_plan(s)
    } else if key == Key::Char('e') && s.tab == Tab::Log {
        spec_start_amend(s)
    } else if key == Key::Char('r') {
        (s, ActionV::DetectRepos)
    } else if key == Key::Char('R') {
        (s, ActionV::Refresh)
    } else if key == Key::Char('c') && ctrl {
        (AppV { running: false, ..s }, ActionV::NoOp)
    } else {
        (s, ActionV::NoOp)
    }
}

/// The whole key contract: nothing while a background operation is in
/// flight; otherwise the key is IME-normalized, the transient message
/// cleared, and the active mode's table applied.
pub open spec fn spec_handle_key(s: AppV, key: Key, ctrl: bool) -> (AppV, ActionV) {
    if s.processing != Processing::Idle {
        (s, ActionV::NoOp)
    } else {
        let k = spec_normalize_key(key);
        let s1 = AppV { message: Option::None, ..s };
        match s.input_mode {
            InputMode::Normal => spec_key_normal(s1, k, ctrl),
            InputMode::Insert => spec_key_insert(s1, k),
            InputMode::RemoteUrl => spec_key_remote_url(s1, k),
            InputMode::RepoSelect => spec_key_repo_select(s1, k),
            InputMode::TagInput => spec_key_tag_input(s1, k),
        }
    }
}

/// Mouse input: nothing while a background operation is in flight;
/// scrolling moves the selection, a left click selects what stands under
/// the pointer (accounting for the section headers of the Files tab and
/// the two-line commit rows of the Log tab), the title row opens the
/// repository picker and the tab row switches tabs.
pub open spec fn spec_handle_click(s: AppV, y: u16) -> (AppV, ActionV) {
    if y == 0 {
        (s, ActionV::DetectRepos)
    } else if 1 <= y <= 3 {
        (
            AppV {
                tab: if s.tab == Tab::Files {
                    Tab::Log
                } else {
                    Tab::Files
                },
                ..s
            },
            ActionV::NoOp,
        )
    } else if s.tab == Tab::Files && y >= 8 {
        let row = y - 8;
        let stn = section_positions(s.files.files, true).len() as int;
        if row == 0 || row == stn + 1 {
            (s, ActionV::NoOp)
        } else {
            let idx = if row <= stn {
                row - 1
            } else {
                row - 2
            };
            if idx < s.files.visual.len() {
                (with_files_selected(s, Option::Some(idx as usize)), ActionV::NoOp)
            } else {
                (s, ActionV::NoOp)
            }
        }
    } else if s.tab == Tab::Log && y >= 6 {
        let idx = (y - 6) / 2;
        if idx < s.log.commits.len() {
            (with_log_selected(s, Option::Some(idx as usize)), ActionV::NoOp)
        } else {
            (s, ActionV::NoOp)
        }
    } else {
        (s, ActionV::NoOp)
    }
}

pub open spec fn spec_handle_mouse(s: AppV, m: MouseInput) -> (AppV, ActionV) {
    if s.processing != Processing::Idle {
        (s, ActionV::NoOp)
    } else {
        match m {
            MouseInput::ScrollDown => (spec_select_next(s), ActionV::NoOp),
            MouseInput::ScrollUp => (spec_select_prev(s), ActionV::NoOp),
            MouseInput::LeftClick { column, row } => spec_handle_click(s, row),
        }
    }
}

/// Background-operation exclusivity: while one is in flight, neither a
/// key nor a mouse event changes any state or yields any action, so the
/// dispatcher cannot start a second operation (nor anything else).
pub proof fn lemma_input_blocked_while_processing(s: AppV, key: Key, ctrl: bool, m: MouseInput)
    requires
        s.processing != Processing::Idle,
    ensures
        spec_handle_key(s, key, ctrl) == (s, ActionV::NoOp),
        spec_handle_mouse(s, m) == (s, ActionV::NoOp),
{
}

impl App {
    fn key_insert(&mut self, k: Key) -> (a: Action)
        requires
            old(self)@.wf(),
        ensures
            final(self)@ == spec_key_insert(old(self)@, k).0,
            a@ == spec_key_insert(old(self)@, k).1,
            final(self)@.wf(),
    {
        let a = match k {
            Key::Esc => {
                self.input_mode = InputMode::Normal;
                Action::NoOp
            },
            Key::Enter => {
                let t = trim_chars(&self.commit_message);
                if t.len() == 0 {
                    self.message = Option::Some(("Empty commit message".to_owned(), true));
                    Action::NoOp
                } else {
                    let msg = string_from_chars(&t);
                    let amend = self.is_amending;
                    self.commit_message = Vec::new();
                    self.cursor_pos = 0;
                    self.is_amending = false;
                    self.input_mode = InputMode::Normal;
                    self.processing = Processing::Committing;
                    Action::RunCommit { message: msg, amend }
                }
            },
            Key::Backspace => {
                if self.cursor_pos > 0 {
                    self.commit_message.remove(self.cursor_pos - 1);
                    self.cursor_pos = self.cursor_pos - 1;
                }
                Action::NoOp
            },
            Key::Delete => {
                if self.cursor_pos < self.commit_message.len() {
                    self.commit_message.remove(self.cursor_pos);
                }
                Action::NoOp
            },
            Key::Left => {
                if self.cursor_pos > 0 {
                    self.cursor_pos = self.cursor_pos - 1;
                }
                Action::NoOp
            },
            Key::Right => {
                if self.cursor_pos < self.commit_message.len() {
                    self.cursor_pos = self.cursor_pos + 1;
                }
                Action::NoOp
            },
            Key::Home => {
                self.cursor_pos = 0;
                Action::NoOp
            },
            Key::End => {
                self.cursor_pos = self.commit_message.len();
                Action::NoOp
            },
            Key::Char(c) => {
                self.commit_message.insert(self.cursor_pos, c);
                let n2 = self.commit_message.len();
                proof {
                    assert(self.cursor_pos < n2);
                }
                self.cursor_pos = self.cursor_pos + 1;
                Action::NoOp
            },
            _ => Action::NoOp,
        };
        proof {
            assert(self@ =~~= spec_key_insert(old(self)@, k).0);
            assert(a@ =~~= spec_key_insert(old(self)@, k).1);
        }
        a
    }

    fn key_remote_url(&mut self, k: Key) -> (a: Action)
        requires
            old(self)@.wf(),
        ensures
            final(self)@ == spec_key_remote_url(old(self)@, k).0,
            a@ == spec_key_remote_url(old(self)@, k).1,
            final(self)@.wf(),
    {
        let a = match k {
            Key::Esc => {
                self.input_mode = InputMode::Normal;
                self.remote_url = Vec::new();
                self.message = Option::Some(("Cancelled".to_owned(), false));
                Action::NoOp
            },
            Key::Enter => {
                let t = trim_chars(&self.remote_url);
                if t.len() == 0 {
                    self.message = Option::Some(("URL is empty".to_owned(), true));
                    Action::NoOp
                } else {
                    let url = string_from_chars(&t);
                    self.remote_url = Vec::new();
                    self.input_mode = InputMode::Normal;
                    Action::AddRemoteAndPush { url }
                }
            },
            Key::Backspace => {
                self.remote_url.pop();
                Action::NoOp
            },
            Key::Char(c) => {
                self.remote_url.push(c);
                Action::NoOp
            },
            _ => Action::NoOp,
        };
        proof {
            if k == Key::Backspace && old(self)@.remote_url.len() > 0 {
                assert(self@.remote_url =~= old(self)@.remote_url.drop_last());
            }
            assert(self@ =~~= spec_key_remote_url(old(self)@, k).0);
            assert(a@ =~~= spec_key_remote_url(old(self)@, k).1);
        }
        a
    }

    fn key_repo_select(&mut self, k: Key) -> (a: Action)
        requires
            old(self)@.wf(),
        ensures
            final(self)@ == spec_key_repo_select(old(self)@, k).0,
            a@ == spec_key_repo_select(old(self)@, k).1,
            final(self)@.wf(),
    {
        let a = match k {
            Key::Esc => {
                self.input_mode = InputMode::Normal;
                Action::NoOp
            },
            Key::Enter => {
                match self.repo_selected {
                    Option::Some(i) => if i < self.available_repos.len() {
                        self.input_mode = InputMode::Normal;
                        Action::SwitchRepo { index: i }
                    } else {
                        Action::NoOp
                    },
                    Option::None => Action::NoOp,
                }
            },
            Key::Char(c) => {
                if c == 'j' {
                    self.repo_selected = next_selection(
                        self.repo_selected,
                        self.available_repos.len(),
                    );
                } else if c == 'k' {
                    self.repo_selected = prev_selection(
                        self.repo_selected,
                        self.available_repos.len(),
                    );
                }
                Action::NoOp
            },
            Key::Down => {
                self.repo_selected = next_selection(
                    self.repo_selected,
                    self.available_repos.len(),
                );
                Action::NoOp
            },
            Key::Up => {
                self.repo_selected = prev_selection(
                    self.repo_selected,
                    self.available_repos.len(),
                );
                Action::NoOp
            },
            _ => Action::NoOp,
        };
        proof {
            assert(self@ =~~= spec_key_repo_select(old(self)@, k).0);
            assert(a@ =~~= spec_key_repo_select(old(self)@, k).1);
        }
        a
    }

    fn key_tag_input(&mut self, k: Key) -> (a: Action)
        requires
            old(self)@.wf(),
        ensures
            final(self)@ == spec_key_tag_input(old(self)@, k).0,
            a@ == spec_key_tag_input(old(self)@, k).1,
            final(self)@.wf(),
    {
        let a = match k {
            Key::Esc => {
                self.input_mode = InputMode::Normal;
                self.tag_input = Vec::new();
                self.editing_tag = Option::None;
                Action::NoOp
            },
            Key::Enter => {
                let t = trim_chars(&self.tag_input);
                if t.len() == 0 {
                    self.input_mode = InputMode::Normal;
                    self.message = Option::Some(("Tag name is empty".to_owned(), true));
                    Action::NoOp
                } else {
                    match self.log.selected {
                        Option::Some(i) => {
                            proof {
                                assert(i < self@.log.commits.len());
                                assert(self@.log.commits[i as int] == self.log.commits@[
                                i as int]@);
                            }
                            let name = string_from_chars(&t);
                            let c = &self.log.commits[i];
                            let was_pushed = c.tags.len() > 0 && c.tags[0].pushed;
                            let commit_id = c.full_id.clone();
                            proof {
                                if c.tags@.len() > 0 {
                                    assert(self@.log.commits[i as int].tags[0]
                                        == c.tags@[0]@);
                                }
                            }
                            let delete_old = match &self.editing_tag {
                                Option::Some(o) => if !(*o == name) {
                                    Option::Some(o.clone())
                                } else {
                                    Option::None
                                },
                                Option::None => Option::None,
                            };
                            self.tag_input = Vec::new();
                            self.editing_tag = Option::None;
                            self.input_mode = InputMode::Normal;
                            Action::TagUpdate {
                                delete_old,
                                delete_old_remote: was_pushed,
                                name,
                                commit_id,
                                push: was_pushed,
                            }
                        },
                        Option::None => Action::NoOp,
                    }
                }
            },
            Key::Backspace => {
                self.tag_input.pop();
                Action::NoOp
            },
            Key::Char(c) => {
                self.tag_input.push(c);
                Action::NoOp
            },
            _ => Action::NoOp,
        };
        proof {
            if k == Key::Backspace && old(self)@.tag_input.len() > 0 {
                assert(self@.tag_input =~= old(self)@.tag_input.drop_last());
            }
            assert(self@ =~~= spec_key_tag_input(old(self)@, k).0);
            assert(a@ =~~= spec_key_tag_input(old(self)@, k).1);
        }
        a
    }

    fn stage_plan(&mut self) -> (a: Action)
        requires
            old(self)@.wf(),
        ensures
            final(self)@ == spec_stage_plan(old(self)@).0,
            a@ == spec_stage_plan(old(self)@).1,
            final(self)@.wf(),
    {
        match self.files.selected {
            Option::None => {
                self.message = Option::Some(("No file selected".to_owned(), true));
                let a = Action::NoOp;
                proof {
                    assert(self@ =~~= spec_stage_plan(old(self)@).0);
                }
                a
            },
            Option::Some(v) => {
                proof {
                    crate::status::lemma_visual_sections(self@.files.files);
                    assert(v < self@.files.visual.len());
                    assert(0 <= self@.files.visual[v as int] < self@.files.files.len());
                }
                let idx = self.files.visual[v];
                proof {
                    assert(self@.files.visual[v as int] == idx as int);
                    assert(self@.files.files[idx as int] == self.files.files@[idx as int]@);
                }
                let stn = staged_count(&self.files.files);
                let e = &self.files.files[idx];
                let pos = if e.staged {
                    v
                } else {
                    proof {
                        if (v as int) < section_positions(self@.files.files, true).len() {
                            assert(self@.files.files[self@.files.visual[v as int]].staged);
                        }
                    }
                    v - stn
                };
                let remove_from_index = if e.staged {
                    e.status == FileStatus::Added
                } else {
                    e.status == FileStatus::Deleted
                };
                let a = Action::ToggleStage {
                    path: e.path.clone(),
                    was_staged: e.staged,
                    remove_from_index,
                    pos_in_section: pos,
                };
                proof {
                    assert(self@ =~~= spec_stage_plan(old(self)@).0);
                    assert(a@ =~~= spec_stage_plan(old(self)@).1);
                }
                a
            },
        }
    }

    fn open_tag_input(&mut self)
        requires
            old(self)@.wf(),
        ensures
            final(self)@ == spec_open_tag_input(old(self)@).0,
            final(self)@.wf(),
    {
        match self.log.selected {
            Option::Some(i) => {
                proof {
                    assert(i < self@.log.commits.len());
                    assert(self@.log.commits[i as int] == self.log.commits@[i as int]@);
                }
                let c = &self.log.commits[i];
                if c.tags.len() > 0 {
                    proof {
                        assert(self@.log.commits[i as int].tags[0] == c.tags@[0]@);
                    }
                    self.tag_input = chars_of(c.tags[0].name.as_str());
                    self.editing_tag = Option::Some(c.tags[0].name.clone());
                } else {
                    self.tag_input = Vec::new();
                    self.editing_tag = Option::None;
                }
                self.input_mode = InputMode::TagInput;
                proof {
                    assert(self@ =~~= spec_open_tag_input(old(self)@).0);
                }
            },
            Option::None => {},
        }
    }

    fn delete_tag_plan(&mut self) -> (a: Action)
        requires
            old(self)@.wf(),
        ensures
            final(self)@ == spec_delete_tag_plan(old(self)@).0,
            a@ == spec_delete_tag_plan(old(self)@).1,
            final(self)@.wf(),
    {
        match self.log.selected {
            Option::Some(i) => {
                proof {
                    assert(i < self@.log.commits.len());
                    assert(self@.log.commits[i as int] == self.log.commits@[i as int]@);
                }
                let c = &self.log.commits[i];
                if c.tags.len() == 0 {
                    self.message = Option::Some(("No tag on this commit".to_owned(), true));
                    let a = Action::NoOp;
                    proof {
                        assert(self@ =~~= spec_delete_tag_plan(old(self)@).0);
                    }
                    a
                } else {
                    proof {
                        assert(self@.log.commits[i as int].tags[0] == c.tags@[0]@);
                    }
                    let name = c.tags[0].name.clone();
                    let pushed = c.tags[0].pushed;
                    let mut m = chars_of("Deleted tag: ");
                    let mut nm = chars_of(name.as_str());
                    m.append(&mut nm);
                    if pushed {
                        let mut suffix = chars_of(" (local + remote)");
                        m.append(&mut suffix);
                    }
                    self.message = Option::Some((string_from_chars(&m), false));
                    let a = Action::TagDelete { name, remote: pushed };
                    proof {
                        assert(self@ =~~= spec_delete_tag_plan(old(self)@).0);
                        assert(a@ =~~= spec_delete_tag_plan(old(self)@).1);
                    }
                    a
                }
            },
            Option::None => Action::NoOp,
        }
    }

    fn start_amend(&mut self)
        requires
            old(self)@.wf(),
        ensures
            final(self)@ == spec_start_amend(old(self)@).0,
            final(self)@.wf(),
    {
        match self.log.selected {
            Option::Some(i) => {
                proof {
                    assert(i < self@.log.commits.len());
                    assert(self@.log.commits[i as int] == self.log.commits@[i as int]@);
                }
                let c = &self.log.commits[i];
                if !c.is_head {
                    self.message = Option::Some(("Can only amend HEAD commit".to_owned(), true));
                    proof {
                        assert(self@ =~~= spec_start_amend(old(self)@).0);
                    }
                } else {
                    let msg = chars_of(c.message.as_str());
                    let n = msg.len();
                    self.commit_message = msg;
                    self.cursor_pos = n;
                    self.is_amending = true;
                    self.input_mode = InputMode::Insert;
                    self.tab = Tab::Files;
                    proof {
                        assert(self@ =~~= spec_start_amend(old(self)@).0);
                    }
                }
            },
            Option::None => {},
        }
    }

    fn key_normal(&mut self, k: Key, ctrl: bool) -> (a: Action)
        requires
            old(self)@.wf(),
        ensures
            final(self)@ == spec_key_normal(old(self)@, k, ctrl).0,
            a@ == spec_key_normal(old(self)@, k, ctrl).1,
            final(self)@.wf(),
    {
        if k == Key::Char('q') {
            self.running = false;
            proof {
                assert(self@ =~~= spec_key_normal(old(self)@, k, ctrl).0);
            }
            Action::NoOp
        } else if k == Key::Tab {
            self.toggle_tab();
            proof {
                assert(self@ =~~= spec_key_normal(old(self)@, k, ctrl).0);
            }
            Action::NoOp
        } else if k == Key::Char('j') || k == Key::Down {
            self.select_next();
            proof {
                assert(self@ =~~= spec_key_normal(old(self)@, k, ctrl).0);
            }
            Action::NoOp
        } else if k == Key::Char('k') || k == Key::Up {
            self.select_prev();
            proof {
                assert(self@ =~~= spec_key_normal(old(self)@, k, ctrl).0);
            }
            Action::NoOp
        } else if k == Key::Char(' ') && self.tab == Tab::Files {
            self.stage_plan()
        } else if k == Key::Char('c') && self.tab == Tab::Files {
            self.input_mode = InputMode::Insert;
            proof {
                assert(self@ =~~= spec_key_normal(old(self)@, k, ctrl).0);
            }
            Action::NoOp
        } else if k == Key::Char('P') {
            Action::CheckRemoteThenPush
        } else if k == Key::Char('p') && self.tab == Tab::Log {
            self.processing = Processing::Pulling;
            proof {
                assert(self@ =~~= spec_key_normal(old(self)@, k, ctrl).0);
            }
            Action::RunPull
        } else if k == Key::Char('t') && self.tab == Tab::Log {
            self.open_tag_input();
            Action::NoOp
        } else if k == Key::Char('T') && self.tab == Tab::Log {
            self.processing = Processing::PushingTags;
            proof {
                assert(self@ =~~= spec_key_normal(old(self)@, k, ctrl).0);
            }
            Action::RunPushTags
        } else if k == Key::Char('d') && self.tab == Tab::Log {
            self.delete_tag_plan()
        } else if k == Key::Char('e') && self.tab == Tab::Log {
            self.start_amend();
            Action::NoOp
        } else if k == Key::Char('r') {
            Action::DetectRepos
        } else if k == Key::Char('R') {
            Action::Refresh
        } else if k == Key::Char('c') && ctrl {
            self.running = false;
            proof {
                assert(self@ =~~= spec_key_normal(old(self)@, k, ctrl).0);
            }
            Action::NoOp
        } else {
            Action::NoOp
        }
    }

    /// One key event: the full modal dispatch. While a background
    /// operation is in flight nothing happens and nothing is asked for.
    pub fn handle_key(&mut self, key: Key, ctrl: bool) -> (a: Action)
        requires
            old(self)@.wf(),
        ensures
            final(self)@ == spec_handle_key(old(self)@, key, ctrl).0,
            a@ == spec_handle_key(old(self)@, key, ctrl).1,
            final(self)@.wf(),
    {
        if self.processing.is_active() {
            return Action::NoOp;
        }
        let k = match key {
            Key::Char(c) => Key::Char(normalize_fullwidth(c)),
            other => other,
        };
        self.message = Option::None;
        proof {
            assert(self@ =~~= (AppV { message: Option::None, ..old(self)@ }));
        }
        match self.input_mode {
            InputMode::Normal => self.key_normal(k, ctrl),
            InputMode::Insert => self.key_insert(k),
            InputMode::RemoteUrl => self.key_remote_url(k),
            InputMode::RepoSelect => self.key_repo_select(k),
            InputMode::TagInput => self.key_tag_input(k),
        }
    }

    /// One mouse event: scrolling navigates, a click selects or switches,
    /// and nothing happens while a background operation is in flight.
    pub fn handle_mouse(&mut self, m: MouseInput) -> (a: Action)
        requires
            old(self)@.wf(),
        ensures
            final(self)@ == spec_handle_mouse(old(self)@, m).0,
            a@ == spec_handle_mouse(old(self)@, m).1,
            final(self)@.wf(),
    {
        if self.processing.is_active() {
            return Action::NoOp;
        }
        match m {
            MouseInput::ScrollDown => {
                self.select_next();
                Action::NoOp
            },
            MouseInput::ScrollUp => {
                self.select_prev();
                Action::NoOp
            },
            MouseInput::LeftClick { column: _, row } => self.handle_click(row),
        }
    }

    fn handle_click(&mut self, y: u16) -> (a: Action)
        requires
            old(self)@.wf(),
        ensures
            final(self)@ == spec_handle_click(old(self)@, y).0,
            a@ == spec_handle_click(old(self)@, y).1,
            final(self)@.wf(),
    {
        if y == 0 {
            Action::DetectRepos
        } else if 1 <= y && y <= 3 {
            self.toggle_tab();
            proof {
                assert(self@ =~~= spec_handle_click(old(self)@, y).0);
            }
            Action::NoOp
        } else if self.tab == Tab::Files && y >= 8 {
            let row = (y - 8) as usize;
            let stn = staged_count(&self.files.files);
            if row == 0 {
                Action::NoOp
            } else if row - 1 == stn {
                Action::NoOp
            } else {
                let idx = if row <= stn {
                    row - 1
                } else {
                    row - 2
                };
                proof {
                    crate::status::lemma_visual_permutation(self@.files.files);
                }
                if idx < self.files.visual.len() {
                    self.files.selected = Option::Some(idx);
                    proof {
                        assert(self@ =~~= spec_handle_click(old(self)@, y).0);
                    }
                }
                Action::NoOp
            }
        } else if self.tab == Tab::Log && y >= 6 {
            let idx = ((y - 6) / 2) as usize;
            if idx < self.log.commits.len() {
                self.log.selected = Option::Some(idx);
                proof {
                    assert(self@ =~~= spec_handle_click(old(self)@, y).0);
                }
            }
            Action::NoOp
        } else {
            Action::NoOp
        }
    }
}

impl App {
    /// Rebuilds the file list from one status scan (the transition of
    /// [`crate::status::spec_refresh`]); everything else stays as it was.
    pub fn refresh_files(&mut self, items: &Vec<crate::status::StatusItem>, compute_diff_stats: bool)
        requires
            old(self)@.wf(),
        ensures
            final(self)@ == with_files(
                old(self)@,
                crate::status::spec_refresh(
                    old(self)@.files,
                    crate::status::item_views(items@),
                    compute_diff_stats,
                ),
            ),
            final(self)@.wf(),
    {
        self.files.refresh(items, compute_diff_stats);
        proof {
            assert(self@ =~~= with_files(
                old(self)@,
                crate::status::spec_refresh(
                    old(self)@.files,
                    crate::status::item_views(items@),
                    compute_diff_stats,
                ),
            ));
        }
    }

    /// Rebuilds the commit log from one history walk (the assembly of
    /// [`crate::log::spec_log`], the previous log supplying the stale
    /// pushed flags); the log cursor is reconciled, everything else stays
    /// as it was.
    pub fn refresh_log(
        &mut self,
        raws: &Vec<crate::log::RawCommit>,
        refs: &Vec<crate::log::RefTip>,
        head_id: &Option<String>,
        check_remote_tags: bool,
        remote_tags: &Vec<String>,
        now: i64,
    )
        requires
            old(self)@.wf(),
        ensures
            final(self)@.log.commits == crate::log::spec_log(
                crate::log::raw_views(raws@),
                crate::log::ref_views(refs@),
                crate::log::opt_str_view(*head_id),
                check_remote_tags,
                crate::log::str_views(remote_tags@),
                old(self)@.log.commits,
                now as int,
            ),
            final(self)@.log.selected == crate::cursor::spec_reconciled(
                old(self)@.log.selected,
                final(self)@.log.commits.len() as int,
            ),
            final(self)@ == with_log(old(self)@, final(self)@.log),
            final(self)@.wf(),
    {
        self.log.rebuild(raws, refs, head_id, check_remote_tags, remote_tags, now);
        proof {
            assert(self@ =~~= with_log(old(self)@, self@.log));
        }
    }

    /// Stores the branch name and ahead/behind counts the repository
    /// reported.
    pub fn set_branch_info(&mut self, name: String, ahead_behind: Option<(usize, usize)>)
        ensures
            final(self)@ == with_branch(old(self)@, name@, ahead_behind),
    {
        self.branch_name = name;
        self.ahead_behind = ahead_behind;
        proof {
            assert(self@ =~~= with_branch(old(self)@, name@, ahead_behind));
        }
    }

    /// Cursor-follow after the stage/unstage of `path` ran and the list
    /// was rebuilt (the rule of [`crate::status::spec_followed`]).
    pub fn finish_stage(&mut self, path: &String, was_staged: bool, pos_in_section: usize)
        requires
            old(self)@.wf(),
        ensures
            final(self)@ == with_files(
                old(self)@,
                crate::status::FileListV {
                    selected: crate::status::spec_followed(
                        old(self)@.files,
                        path@,
                        was_staged,
                        pos_in_section as int,
                    ),
                    ..old(self)@.files
                },
            ),
            final(self)@.wf(),
    {
        self.files.follow_after_toggle(path, was_staged, pos_in_section);
        proof {
            assert(self@ =~~= with_files(
                old(self)@,
                crate::status::FileListV {
                    selected: crate::status::spec_followed(
                        old(self)@.files,
                        path@,
                        was_staged,
                        pos_in_section as int,
                    ),
                    ..old(self)@.files
                },
            ));
        }
    }

    /// Opens the repository picker over the detected repositories, with
    /// the current repository's entry selected.
    pub fn open_repo_select(&mut self, repos: Vec<String>, current_index: usize)
        requires
            old(self)@.wf(),
            repos@.len() > 0 ==> current_index < repos@.len(),
        ensures
            final(self)@.available_repos == crate::log::str_views(repos@),
            final(self)@.repo_selected == (if repos@.len() > 0 {
                Option::Some(current_index)
            } else {
                Option::<usize>::None
            }),
            final(self)@.input_mode == InputMode::RepoSelect,
            final(self)@ == (AppV {
                available_repos: crate::log::str_views(repos@),
                repo_selected: final(self)@.repo_selected,
                input_mode: InputMode::RepoSelect,
                ..old(self)@
            }),
            final(self)@.wf(),
    {
        let sel = if repos.len() > 0 {
            Option::Some(current_index)
        } else {
            Option::None
        };
        self.available_repos = repos;
        self.repo_selected = sel;
        self.input_mode = InputMode::RepoSelect;
        proof {
            assert(self@ =~~= (AppV {
                available_repos: crate::log::str_views(repos@),
                repo_selected: self@.repo_selected,
                input_mode: InputMode::RepoSelect,
                ..old(self)@
            }));
        }
    }

    /// The state after a push found no configured remote: the URL dialog
    /// opens empty, with a prompt, instead of a bare error.
    pub fn push_no_remote(&mut self)
        ensures
            final(self)@ == spec_push_no_remote(old(self)@),
    {
        self.input_mode = InputMode::RemoteUrl;
        self.remote_url = Vec::new();
        self.message = Option::Some(
            ("No remote configured. Enter repository URL:".to_owned(), true),
        );
        proof {
            assert(self@ =~~= spec_push_no_remote(old(self)@));
        }
    }

    /// The commit-message buffer as a string, for display.
    pub fn commit_message_string(&self) -> (r: String)
        ensures
            r@ == self@.commit_message,
    {
        string_from_chars(&self.commit_message)
    }

    /// The remote-URL buffer as a string, for display.
    pub fn remote_url_string(&self) -> (r: String)
        ensures
            r@ == self@.remote_url,
    {
        string_from_chars(&self.remote_url)
    }

    /// The tag-name buffer as a string, for display.
    pub fn tag_input_string(&self) -> (r: String)
        ensures
            r@ == self@.tag_input,
    {
        string_from_chars(&self.tag_input)
    }

    /// How many tags over the whole log are shown as not pushed.
    pub fn unpushed_tag_count(&self) -> (n: usize)
        ensures
            n as int == (if crate::log::spec_unpushed(self@.log.commits) <= usize::MAX as int {
                crate::log::spec_unpushed(self@.log.commits)
            } else {
                usize::MAX as int
            }),
    {
        self.log.unpushed_tag_count()
    }
}

} // verus!
