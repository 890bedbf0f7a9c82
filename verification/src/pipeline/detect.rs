//! Recognition of the target executable from its bytes: ELF (and AppImage),
//! PE, or rejection.
use vstd::prelude::*;

use crate::domain::BinaryType;
use crate::error::KalesaError;
use crate::text::{chars_of, owned, vec_ends_with};

verus! {

/// The file starts with the ELF magic `\x7fELF`.
pub open spec fn elf_magic(b: Seq<u8>) -> bool {
    b.len() >= 4 && b[0] == 0x7f && b[1] == 0x45 && b[2] == 0x4c && b[3] == 0x46
}

/// The ELF identification bytes: 16 of them, class 1 or 2, data encoding 1 or
/// 2, version 1.
pub open spec fn elf_ident_ok(b: Seq<u8>) -> bool {
    b.len() >= 16 && (b[4] == 1 || b[4] == 2) && (b[5] == 1 || b[5] == 2) && b[6] == 1
}

/// The file starts with the DOS magic `MZ`.
pub open spec fn mz_magic(b: Seq<u8>) -> bool {
    b.len() >= 2 && b[0] == 0x4d && b[1] == 0x5a
}

/// The little-endian `u32` at `at`.
pub open spec fn le_u32(b: Seq<u8>, at: int) -> int {
    b[at] + 256 * b[at + 1] + 65536 * b[at + 2] + 16777216 * b[at + 3]
}

/// `e_lfanew` (the `u32` at 0x3C) is at least 0x40, and 24 bytes stand at that
/// offset, the first four of them `PE\0\0`.
pub open spec fn pe_signature_ok(b: Seq<u8>) -> bool {
    b.len() >= 0x40 && {
        let e = le_u32(b, 0x3c);
        &&& e >= 0x40
        &&& e + 24 <= b.len()
        &&& b[e] == 0x50
        &&& b[e + 1] == 0x45
        &&& b[e + 2] == 0
        &&& b[e + 3] == 0
    }
}

pub open spec fn is_appimage_path(p: Seq<char>) -> bool {
    crate::text::ends_with(p, ".AppImage"@)
}

/// What the detection of `path` with bytes `b` comes to.
pub enum Detection {
    Found(BinaryType),
    InvalidElf,
    InvalidPe,
    Unsupported,
}

pub open spec fn detection(path: Seq<char>, b: Seq<u8>) -> Detection {
    if elf_magic(b) {
        if !elf_ident_ok(b) {
            Detection::InvalidElf
        } else if is_appimage_path(path) {
            Detection::Found(BinaryType::AppImage)
        } else {
            Detection::Found(BinaryType::LinuxElf)
        }
    } else if mz_magic(b) {
        if pe_signature_ok(b) {
            Detection::Found(BinaryType::WindowsPe)
        } else {
            Detection::InvalidPe
        }
    } else {
        Detection::Unsupported
    }
}

/// Only a checked header is accepted: an ELF file with a valid identification
/// (an AppImage only under a path ending in `.AppImage`), or an `MZ` file
/// whose `e_lfanew` points at a PE signature.
pub proof fn accepted_headers_are_checked(path: Seq<char>, b: Seq<u8>)
    ensures
        detection(path, b) is Found ==> (elf_magic(b) && elf_ident_ok(b)) || (mz_magic(b)
            && pe_signature_ok(b)),
        detection(path, b) == Detection::Found(BinaryType::AppImage) ==> elf_magic(b)
            && is_appimage_path(path),
        detection(path, b) == Detection::Found(BinaryType::WindowsPe) ==> mz_magic(b)
            && pe_signature_ok(b),
{
}

/// `r` is the result that `detection` prescribes, the error naming `path`.
pub open spec fn detected(path: Seq<char>, b: Seq<u8>, r: Result<BinaryType, KalesaError>) -> bool {
    match detection(path, b) {
        Detection::Found(t) => r == Ok::<BinaryType, KalesaError>(t),
        Detection::InvalidElf => r matches Err(KalesaError::InvalidElf(p)) && p@ == path,
        Detection::InvalidPe => r matches Err(KalesaError::InvalidPe(p)) && p@ == path,
        Detection::Unsupported => r matches Err(KalesaError::UnsupportedBinary(p)) && p@ == path,
    }
}

pub fn detect_binary_type(path: &str, contents: &[u8]) -> (r: Result<BinaryType, KalesaError>)
    ensures
        detected(path@, contents@, r),
{
    detect(path, contents)
}

/// Whether `e_lfanew` (at 0x3C) points, past the DOS header, at a `PE\0\0` signature
/// followed by a file header.
pub fn confirm_pe_signature(b: &[u8]) -> (r: bool)
    ensures
        r == pe_signature_ok(b@),
{
    if b.len() < 0x40 {
        return false;
    }
    let e: u64 = b[0x3c] as u64 + 256 * (b[0x3d] as u64) + 65536 * (b[0x3e] as u64) + 16777216 * (
    b[0x3f] as u64);
    assert(e == le_u32(b@, 0x3c));
    if e < 0x40 {
        return false;
    }
    if e + 24 > b.len() as u64 {
        return false;
    }
    let at = e as usize;
    b[at] == 0x50 && b[at + 1] == 0x45 && b[at + 2] == 0 && b[at + 3] == 0
}

/// Classifies the executable at `path` whose bytes are `contents`: a valid
/// ELF header gives Linux (AppImage when the path ends with `.AppImage`), an
/// `MZ` header followed by a PE signature gives Windows, anything else is
/// rejected.
pub fn detect(path: &str, b: &[u8]) -> (r: Result<BinaryType, KalesaError>)
    ensures
        detected(path@, b@, r),
{
    let n = b.len();
    if n >= 4 && b[0] == 0x7f && b[1] == 0x45 && b[2] == 0x4c && b[3] == 0x46 {
        if n < 16 || !(b[4] == 1 || b[4] == 2) || !(b[5] == 1 || b[5] == 2) || b[6] != 1 {
            return Err(KalesaError::InvalidElf(owned(path)));
        }
        let p = chars_of(path);
        let suffix = chars_of(".AppImage");
        if vec_ends_with(&p, &suffix) {
            return Ok(BinaryType::AppImage);
        }
        return Ok(BinaryType::LinuxElf);
    }
    if n >= 2 && b[0] == 0x4d && b[1] == 0x5a {
        if !confirm_pe_signature(b) {
            return Err(KalesaError::InvalidPe(owned(path)));
        }
        return Ok(BinaryType::WindowsPe);
    }
    Err(KalesaError::UnsupportedBinary(owned(path)))
}

} // verus!
