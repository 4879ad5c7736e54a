use vstd::prelude::*;

verus! {

/// The kinds of session backend: a terminal multiplexer, or an editor that
/// opens a workspace window.
#[derive(Debug, Clone, Copy, PartialEq, Eq, Structural)]
pub enum BackendKind {
    Tmux,
    Code,
    Cursor,
}

/// The backend kind a configuration string names, if any.
pub open spec fn spec_backend_from(s: Seq<char>) -> Option<BackendKind> {
    if s == "tmux"@ {
        Some(BackendKind::Tmux)
    } else if s == "code"@ {
        Some(BackendKind::Code)
    } else if s == "cursor"@ {
        Some(BackendKind::Cursor)
    } else {
        None
    }
}

/// The canonical configuration string of a backend kind.
pub open spec fn spec_backend_str(k: BackendKind) -> Seq<char> {
    match k {
        BackendKind::Tmux => "tmux"@,
        BackendKind::Code => "code"@,
        BackendKind::Cursor => "cursor"@,
    }
}

impl BackendKind {
    /// Parse a backend kind from its configuration string.
    pub fn from_str(s: &str) -> (r: Option<BackendKind>)
        ensures
            r == spec_backend_from(s@),
    {
        if crate::text::str_eq(s, "tmux") {
            Some(BackendKind::Tmux)
        } else if crate::text::str_eq(s, "code") {
            Some(BackendKind::Code)
        } else if crate::text::str_eq(s, "cursor") {
            Some(BackendKind::Cursor)
        } else {
            None
        }
    }

    /// The canonical configuration string of this backend kind.
    pub fn as_str(&self) -> (r: &'static str)
        ensures
            r@ == spec_backend_str(*self),
    {
        match self {
            BackendKind::Tmux => "tmux",
            BackendKind::Code => "code",
            BackendKind::Cursor => "cursor",
        }
    }

    /// Editor backends have no attach/detach concept: attaching means
    /// opening the workspace directory in the editor.
    pub fn is_editor(&self) -> (r: bool)
        ensures
            r == (*self is Code || *self is Cursor),
    {
        match self {
            BackendKind::Tmux => false,
            BackendKind::Code => true,
            BackendKind::Cursor => true,
        }
    }
}

/// The identity of a terminal-multiplexer backend. The subprocess work it
/// stands for lives outside the library.
#[derive(Debug)]
pub struct TmuxBackend;

impl TmuxBackend {
    pub fn new() -> (r: TmuxBackend) {
        TmuxBackend
    }

    pub fn kind(&self) -> (r: BackendKind)
        ensures
            r is Tmux,
    {
        BackendKind::Tmux
    }
}

/// The identity of an editor backend: the command it is launched with and
/// the kind derived from it.
#[derive(Debug)]
pub struct EditorBackend {
    pub command: String,
    pub kind: BackendKind,
}

impl EditorBackend {
    /// An editor backend for the given command; an unrecognized command is
    /// treated as the default editor kind.
    pub fn new(command: &str) -> (r: EditorBackend)
        ensures
            r.command@ == command@,
            r.kind == (if command@ == "cursor"@ {
                BackendKind::Cursor
            } else {
                BackendKind::Code
            }),
    {
        let kind = if crate::text::str_eq(command, "cursor") {
            BackendKind::Cursor
        } else {
            BackendKind::Code
        };
        EditorBackend { command: command.to_owned(), kind }
    }

    pub fn kind(&self) -> (r: BackendKind)
        ensures
            r == self.kind,
    {
        self.kind
    }
}

} // verus!
