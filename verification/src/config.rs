use vstd::prelude::*;

use crate::error::Error;
use crate::text::str_eq;
use crate::text::str_to_chars;

verus! {

/// Where projects and worktrees live on disk, as configured ("~/" paths are
/// expanded against the home directory when resolved).
#[derive(Debug)]
pub struct WorkspaceConfig {
    pub projects_dir: String,
    pub worktrees_dir: String,
}

/// Which session backend materializes sessions, and an optional command to
/// run in fresh sessions.
#[derive(Debug)]
pub struct SessionConfig {
    pub backend: String,
    pub startup_command: Option<String>,
}

/// Which fuzzy finder drives interactive selection.
#[derive(Debug)]
pub struct PickerConfig {
    pub finder: String,
}

/// The library's configuration: directories, session backend and picker.
#[derive(Debug)]
pub struct Config {
    pub workspace: WorkspaceConfig,
    pub session: SessionConfig,
    pub picker: PickerConfig,
}

fn default_projects_dir() -> (r: String)
    ensures
        r@ == "~/.sesh/projects"@,
{
    String::from_str("~/.sesh/projects")
}

fn default_worktrees_dir() -> (r: String)
    ensures
        r@ == "~/.sesh/worktrees"@,
{
    String::from_str("~/.sesh/worktrees")
}

fn default_backend() -> (r: String)
    ensures
        r@ == "tmux"@,
{
    String::from_str("tmux")
}

fn default_finder() -> (r: String)
    ensures
        r@ == "auto"@,
{
    String::from_str("auto")
}

fn default_workspace() -> (r: WorkspaceConfig)
    ensures
        r.projects_dir@ == "~/.sesh/projects"@,
        r.worktrees_dir@ == "~/.sesh/worktrees"@,
{
    WorkspaceConfig { projects_dir: default_projects_dir(), worktrees_dir: default_worktrees_dir() }
}

fn default_session() -> (r: SessionConfig)
    ensures
        r.backend@ == "tmux"@,
        r.startup_command is None,
{
    SessionConfig { backend: default_backend(), startup_command: None }
}

fn default_picker() -> (r: PickerConfig)
    ensures
        r.finder@ == "auto"@,
{
    PickerConfig { finder: default_finder() }
}

impl Default for Config {
    /// The configuration used when no file overrides it: tmux sessions,
    /// automatic finder detection, and "~/.sesh" workspace directories.
    fn default() -> (r: Config)
        ensures
            r.workspace.projects_dir@ == "~/.sesh/projects"@,
            r.workspace.worktrees_dir@ == "~/.sesh/worktrees"@,
            r.session.backend@ == "tmux"@,
            r.session.startup_command is None,
            r.picker.finder@ == "auto"@,
    {
        Config {
            workspace: default_workspace(),
            session: default_session(),
            picker: default_picker(),
        }
    }
}

/// The backend names the configuration accepts: the three bare backends,
/// and an editor backend with an explicit open mode.
pub open spec fn spec_valid_backend(s: Seq<char>) -> bool {
    ||| s == "tmux"@
    ||| s == "code"@
    ||| s == "cursor"@
    ||| s == "code:open"@
    ||| s == "code:workspace"@
    ||| s == "code:replace"@
    ||| s == "cursor:open"@
    ||| s == "cursor:workspace"@
    ||| s == "cursor:replace"@
}

/// The finder names the configuration accepts.
pub open spec fn spec_valid_finder(s: Seq<char>) -> bool {
    ||| s == "auto"@
    ||| s == "fzf"@
    ||| s == "skim"@
}

impl Config {
    /// Check the configuration's enumerated fields: the backend and finder
    /// must be among the supported names.
    pub fn validate(&self) -> (r: Result<(), Error>)
        ensures
            r is Ok <==> (spec_valid_backend(self.session.backend@) && spec_valid_finder(
                self.picker.finder@,
            )),
            r is Err ==> r->Err_0 is ConfigError,
    {
        let b = self.session.backend.as_str();
        let backend_ok = str_eq(b, "tmux") || str_eq(b, "code") || str_eq(b, "cursor") || str_eq(
            b,
            "code:open",
        ) || str_eq(b, "code:workspace") || str_eq(b, "code:replace") || str_eq(b, "cursor:open")
            || str_eq(b, "cursor:workspace") || str_eq(b, "cursor:replace");
        if !backend_ok {
            return Err(Error::ConfigError { message: self.session.backend.clone() });
        }
        let f = self.picker.finder.as_str();
        let finder_ok = str_eq(f, "auto") || str_eq(f, "fzf") || str_eq(f, "skim");
        if !finder_ok {
            return Err(Error::ConfigError { message: self.picker.finder.clone() });
        }
        Ok(())
    }

    /// The configured projects directory, with a leading "~/" expanded
    /// against the home directory the environment reports.
    pub fn projects_dir(&self) -> (r: String)
        ensures
            exists|h: Option<Seq<char>>|
                r@ == spec_expand_tilde(self.workspace.projects_dir@, h),
    {
        let home = home_dir();
        let r = expand_tilde(self.workspace.projects_dir.as_str(), home.as_ref());
        proof {
            assert(r@ == spec_expand_tilde(self.workspace.projects_dir@, spec_home(&home)));
        }
        r
    }

    /// The configured worktrees directory, with a leading "~/" expanded
    /// against the home directory the environment reports.
    pub fn worktrees_dir(&self) -> (r: String)
        ensures
            exists|h: Option<Seq<char>>|
                r@ == spec_expand_tilde(self.workspace.worktrees_dir@, h),
    {
        let home = home_dir();
        let r = expand_tilde(self.workspace.worktrees_dir.as_str(), home.as_ref());
        proof {
            assert(r@ == spec_expand_tilde(self.workspace.worktrees_dir@, spec_home(&home)));
        }
        r
    }
}

impl Clone for Config {
    fn clone(&self) -> (r: Self)
        ensures
            r.workspace.projects_dir@ == self.workspace.projects_dir@,
            r.workspace.worktrees_dir@ == self.workspace.worktrees_dir@,
            r.session.backend@ == self.session.backend@,
            r.picker.finder@ == self.picker.finder@,
    {
        Config {
            workspace: WorkspaceConfig {
                projects_dir: self.workspace.projects_dir.clone(),
                worktrees_dir: self.workspace.worktrees_dir.clone(),
            },
            session: SessionConfig {
                backend: self.session.backend.clone(),
                startup_command: match self.session.startup_command {
                    Some(ref s) => Some(s.clone()),
                    None => None,
                },
            },
            picker: PickerConfig { finder: self.picker.finder.clone() },
        }
    }
}

/// A path with a leading "~/" expanded against a home directory, when one is
/// known; any other path is returned as it is.
pub open spec fn spec_expand_tilde(path: Seq<char>, home: Option<Seq<char>>) -> Seq<char> {
    if path.len() >= 2 && path[0] == '~' && path[1] == '/' && home is Some {
        home->0 + path.skip(1)
    } else {
        path
    }
}

/// The view of an optional home directory string.
pub open spec fn spec_home(h: &Option<String>) -> Option<Seq<char>> {
    match h {
        Some(s) => Some(s@),
        None => None,
    }
}

/// Relies on dirs::home_dir: the home directory the environment reports, if
/// any. The result depends on the environment, so nothing is promised of it.
#[verifier::external_body]
fn home_dir() -> (r: Option<String>)
{
    dirs::home_dir().map(|p| p.to_string_lossy().into_owned())
}

/// Expand a leading "~/" in a path against the given home directory.
pub fn expand_tilde(path: &str, home: Option<&String>) -> (r: String)
    ensures
        r@ == spec_expand_tilde(
            path@,
            match home {
                Some(h) => Some(h@),
                None => None,
            },
        ),
{
    let pv = str_to_chars(path);
    if pv.len() >= 2 {
        if pv[0] == '~' && pv[1] == '/' {
            if let Some(h) = home {
                let mut out = str_to_chars(h.as_str());
                let ghost h0 = out@;
                let n = pv.len();
                let mut i: usize = 1;
                while i < n
                    invariant
                        1 <= i <= n,
                        n == pv@.len(),
                        out@ == h0 + pv@.subrange(1, i as int),
                    decreases n - i,
                {
                    out.push(pv[i]);
                    i = i + 1;
                    proof {
                        assert(out@ =~= h0 + pv@.subrange(1, i as int));
                    }
                }
                proof {
                    assert(pv@.subrange(1, n as int) =~= pv@.skip(1));
                }
                return crate::text::chars_to_string(&out);
            }
        }
    }
    path.to_owned()
}

} // verus!
