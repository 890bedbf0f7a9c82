//! The kinds of executables that the library prepares.
use vstd::prelude::*;

use crate::error::KalesaError;
use crate::pipeline::detect;

verus! {

#[derive(Debug, Clone, Copy, PartialEq, Eq, Structural)]
pub enum BinaryType {
    LinuxElf,
    WindowsPe,
    AppImage,
}

impl BinaryType {
    pub open spec fn spec_name(self) -> Seq<char> {
        match self {
            BinaryType::LinuxElf => "linux"@,
            BinaryType::WindowsPe => "windows"@,
            BinaryType::AppImage => "appimage"@,
        }
    }

    pub fn as_str(self) -> (s: &'static str)
        ensures
            s@ == self.spec_name(),
    {
        match self {
            BinaryType::LinuxElf => "linux",
            BinaryType::WindowsPe => "windows",
            BinaryType::AppImage => "appimage",
        }
    }

    pub fn is_windows(self) -> (r: bool)
        ensures
            r == (self == BinaryType::WindowsPe),
    {
        matches!(self, BinaryType::WindowsPe)
    }

    /// ELF executables, AppImages included.
    pub fn is_linux(self) -> (r: bool)
        ensures
            r == (self == BinaryType::LinuxElf || self == BinaryType::AppImage),
    {
        matches!(self, BinaryType::LinuxElf | BinaryType::AppImage)
    }

    /// Classifies the executable at `path` whose bytes are `contents`.
    pub fn detect(path: &str, contents: &[u8]) -> (r: Result<Self, KalesaError>)
        ensures
            detect::detected(path@, contents@, r),
    {
        detect::detect(path, contents)
    }
}

} // verus!
