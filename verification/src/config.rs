use vstd::prelude::*;

verus! {

/// Colour names (or hex strings) the theme may override; `None` keeps the
/// built-in default.
pub struct ColorConfig {
    pub staged: Option<String>,
    pub modified: Option<String>,
    pub untracked: Option<String>,
    pub selected_bg: Option<String>,
    pub text: Option<String>,
    pub text_bright: Option<String>,
    pub dim: Option<String>,
    pub info: Option<String>,
}

impl Default for ColorConfig {
    fn default() -> (r: Self)
        ensures
            r.staged is None,
            r.modified is None,
            r.untracked is None,
            r.selected_bg is None,
            r.text is None,
            r.text_bright is None,
            r.dim is None,
            r.info is None,
    {
        ColorConfig {
            staged: Option::None,
            modified: Option::None,
            untracked: Option::None,
            selected_bg: Option::None,
            text: Option::None,
            text_bright: Option::None,
            dim: Option::None,
            info: Option::None,
        }
    }
}

/// Behaviour of the diff viewer.
pub struct DiffConfig {
    /// Skip the confirmation popup and copy directly.
    pub skip_confirm: bool,
}

impl Default for DiffConfig {
    fn default() -> (r: Self)
        ensures
            !r.skip_confirm,
    {
        DiffConfig { skip_confirm: false }
    }
}

/// Behaviour of the surrounding chrome.
pub struct UiConfig {
    pub show_hints: bool,
}

pub fn default_true() -> (r: bool)
    ensures
        r,
{
    true
}

impl Default for UiConfig {
    fn default() -> (r: Self)
        ensures
            r.show_hints,
    {
        UiConfig { show_hints: true }
    }
}

/// The global configuration.
pub struct Config {
    pub colors: ColorConfig,
    pub ui: UiConfig,
    pub diff: DiffConfig,
}

impl Default for Config {
    fn default() -> (r: Self)
        ensures
            r.ui.show_hints,
            !r.diff.skip_confirm,
    {
        Config {
            colors: ColorConfig::default(),
            ui: UiConfig::default(),
            diff: DiffConfig::default(),
        }
    }
}

/// One additional version file a repository names, with the pattern its
/// version line follows.
#[derive(Clone, Debug)]
pub struct VersionFileConfig {
    pub path: String,
    pub pattern: String,
}

/// How versions are bumped and tagged in one repository.
pub struct VersionConfig {
    /// Show a confirmation dialog before updating version files.
    pub confirm: bool,
    /// Commit message template; `{version}` is filled in.
    pub commit_message: String,
    /// Tag format; `{version}` is filled in.
    pub tag_format: String,
    /// Version files beyond the well-known ones.
    pub additional_files: Vec<VersionFileConfig>,
    /// Well-known file names to leave out of auto-detection.
    pub ignore: Vec<String>,
}

pub fn default_commit_message() -> (r: String)
    ensures
        r@ == "chore: bump version to {version}"@,
{
    "chore: bump version to {version}".to_owned()
}

pub fn default_tag_format() -> (r: String)
    ensures
        r@ == "v{version}"@,
{
    "v{version}".to_owned()
}

impl Default for VersionConfig {
    fn default() -> (r: Self)
        ensures
            r.confirm,
            r.commit_message@ == "chore: bump version to {version}"@,
            r.tag_format@ == "v{version}"@,
            r.additional_files@.len() == 0,
            r.ignore@.len() == 0,
    {
        VersionConfig {
            confirm: true,
            commit_message: default_commit_message(),
            tag_format: default_tag_format(),
            additional_files: Vec::new(),
            ignore: Vec::new(),
        }
    }
}

/// The repository-specific configuration.
pub struct RepoConfig {
    pub version: VersionConfig,
}

impl Default for RepoConfig {
    fn default() -> (r: Self)
        ensures
            r.version.confirm,
            r.version.commit_message@ == "chore: bump version to {version}"@,
            r.version.tag_format@ == "v{version}"@,
            r.version.additional_files@.len() == 0,
            r.version.ignore@.len() == 0,
    {
        RepoConfig { version: VersionConfig::default() }
    }
}

} // verus!
