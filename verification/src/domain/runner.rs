//! How a game is run: natively, through Wine, or through Proton.
use vstd::prelude::*;

use super::game::opt_text;
use super::{BinaryType, GameTarget};
use crate::paths::{join, join_path};

verus! {

#[derive(Debug, Clone, Copy, PartialEq, Eq, Structural)]
pub enum RunnerKind {
    Native,
    Wine,
    Proton,
}

impl RunnerKind {
    pub open spec fn spec_for_binary(binary_type: BinaryType) -> RunnerKind {
        match binary_type {
            BinaryType::WindowsPe => RunnerKind::Wine,
            _ => RunnerKind::Native,
        }
    }

    /// Linux executables and AppImages run natively, Windows ones through Wine.
    pub fn for_binary(binary_type: BinaryType) -> (k: Self)
        ensures
            k == Self::spec_for_binary(binary_type),
    {
        match binary_type {
            BinaryType::LinuxElf => RunnerKind::Native,
            BinaryType::AppImage => RunnerKind::Native,
            BinaryType::WindowsPe => RunnerKind::Wine,
        }
    }

    pub open spec fn spec_name(self) -> Seq<char> {
        match self {
            RunnerKind::Native => "native"@,
            RunnerKind::Wine => "wine"@,
            RunnerKind::Proton => "proton"@,
        }
    }

    pub fn as_str(self) -> (s: &'static str)
        ensures
            s@ == self.spec_name(),
    {
        match self {
            RunnerKind::Native => "native",
            RunnerKind::Wine => "wine",
            RunnerKind::Proton => "proton",
        }
    }

    /// Wine and Proton both need a Wine prefix.
    pub open spec fn uses_prefix(self) -> bool {
        self == RunnerKind::Wine || self == RunnerKind::Proton
    }
}

/// The runner that the user asked for; `Auto` follows the binary type.
#[derive(Debug, Clone, Copy, PartialEq, Eq, Structural)]
pub enum RunnerBackend {
    Auto,
    Native,
    Wine,
    Proton,
}

impl Default for RunnerBackend {
    fn default() -> (b: Self)
        ensures
            b == RunnerBackend::Auto,
    {
        RunnerBackend::Auto
    }
}

impl RunnerBackend {
    pub open spec fn spec_kind(self, binary_type: BinaryType) -> RunnerKind {
        match self {
            RunnerBackend::Auto => RunnerKind::spec_for_binary(binary_type),
            RunnerBackend::Native => RunnerKind::Native,
            RunnerBackend::Wine => RunnerKind::Wine,
            RunnerBackend::Proton => RunnerKind::Proton,
        }
    }
}

/// `auto` runs Linux executables and AppImages natively and Windows
/// executables through Wine; it never selects Proton, which must be asked for.
pub proof fn auto_runner_follows_binary(binary_type: BinaryType)
    ensures
        RunnerBackend::Auto.spec_kind(binary_type) == (if binary_type == BinaryType::WindowsPe {
            RunnerKind::Wine
        } else {
            RunnerKind::Native
        }),
        RunnerBackend::Auto.spec_kind(binary_type) != RunnerKind::Proton,
{
}

#[derive(Debug, Clone, PartialEq, Eq)]
pub struct Runner {
    pub kind: RunnerKind,
    pub wine_prefix: Option<String>,
    pub proton_path: Option<String>,
}

/// `<project_dir>/.workdir/wine`, the default Wine prefix.
pub open spec fn default_prefix(project_dir: Seq<char>) -> Seq<char> {
    join(project_dir, ".workdir/wine"@)
}

/// A runner as text: its kind, Wine prefix and Proton executable.
pub struct RunnerModel {
    pub kind: RunnerKind,
    pub wine_prefix: Option<Seq<char>>,
    pub proton_path: Option<Seq<char>>,
}

pub open spec fn runner_model(r: Runner) -> RunnerModel {
    RunnerModel {
        kind: r.kind,
        wine_prefix: opt_text(r.wine_prefix),
        proton_path: opt_text(r.proton_path),
    }
}

/// The runner that `backend` selects for a game of `binary_type` in
/// `project_dir`: Wine and Proton get the given prefix or the default one,
/// Proton keeps the given Proton executable.
pub open spec fn backend_runner(
    binary_type: BinaryType,
    project_dir: Seq<char>,
    backend: RunnerBackend,
    wine_prefix: Option<Seq<char>>,
    proton_path: Option<Seq<char>>,
) -> RunnerModel {
    let kind = backend.spec_kind(binary_type);
    RunnerModel {
        kind,
        wine_prefix: if kind.uses_prefix() {
            Some(
                match wine_prefix {
                    Some(w) => w,
                    None => default_prefix(project_dir),
                },
            )
        } else {
            None
        },
        proton_path: if kind == RunnerKind::Proton {
            proton_path
        } else {
            None
        },
    }
}

impl Runner {
    /// The runner that the binary type calls for, with the default Wine
    /// prefix for Windows games.
    pub fn for_target(target: &GameTarget, project_dir: &str) -> (r: Self)
        ensures
            r.kind == RunnerKind::spec_for_binary(target.binary_type),
            r.kind == RunnerKind::Wine ==> opt_text(r.wine_prefix) == Some(
                default_prefix(project_dir@),
            ),
            r.kind != RunnerKind::Wine ==> r.wine_prefix is None,
            r.proton_path is None,
    {
        let kind = RunnerKind::for_binary(target.binary_type);
        let wine_prefix = if matches!(kind, RunnerKind::Wine) {
            Some(join_path(project_dir, ".workdir/wine"))
        } else {
            None
        };
        Runner { kind, wine_prefix, proton_path: None }
    }

    /// The runner chosen by `backend`: Wine and Proton get the given prefix,
    /// or the default one; Proton keeps the given Proton executable; a native
    /// runner keeps neither.
    pub fn for_target_with_backend(
        target: &GameTarget,
        project_dir: &str,
        backend: RunnerBackend,
        wine_prefix: Option<String>,
        proton_path: Option<String>,
    ) -> (r: Self)
        ensures
            r.kind == backend.spec_kind(target.binary_type),
            r.kind.uses_prefix() ==> opt_text(r.wine_prefix) == Some(
                match wine_prefix {
                    Some(w) => w@,
                    None => default_prefix(project_dir@),
                },
            ),
            !r.kind.uses_prefix() ==> r.wine_prefix is None,
            r.kind == RunnerKind::Proton ==> r.proton_path == proton_path,
            r.kind != RunnerKind::Proton ==> r.proton_path is None,
            runner_model(r) == backend_runner(
                target.binary_type,
                project_dir@,
                backend,
                opt_text(wine_prefix),
                opt_text(proton_path),
            ),
    {
        let kind = match backend {
            RunnerBackend::Auto => RunnerKind::for_binary(target.binary_type),
            RunnerBackend::Native => RunnerKind::Native,
            RunnerBackend::Wine => RunnerKind::Wine,
            RunnerBackend::Proton => RunnerKind::Proton,
        };
        let prefix = if matches!(kind, RunnerKind::Wine | RunnerKind::Proton) {
            match wine_prefix {
                Some(w) => Some(w),
                None => Some(join_path(project_dir, ".workdir/wine")),
            }
        } else {
            None
        };
        let proton = if matches!(kind, RunnerKind::Proton) {
            proton_path
        } else {
            None
        };
        Runner { kind, wine_prefix: prefix, proton_path: proton }
    }

    pub fn is_wine(&self) -> (r: bool)
        ensures
            r == (self.kind == RunnerKind::Wine),
    {
        matches!(self.kind, RunnerKind::Wine)
    }

    pub fn is_proton(&self) -> (r: bool)
        ensures
            r == (self.kind == RunnerKind::Proton),
    {
        matches!(self.kind, RunnerKind::Proton)
    }
}

} // verus!
