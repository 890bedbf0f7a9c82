//! The icon of a Windows executable, taken from its resources and encoded as PNG.
//!
//! pelite reads a PE image in place and checks the alignment of what it reads
//! against the address of the bytes, so every call below hands it an 8-byte
//! aligned copy of them: what it answers then depends on the bytes alone.
use vstd::prelude::*;

use image::ImageFormat;
use pelite::PeFile;

verus! {

/// The number of icon groups in the resources of the PE image `pe_data`;
/// `None` when pelite does not read `pe_data` as a PE image or cannot read its
/// resource directory.
pub uninterp spec fn pe_icon_group_count(pe_data: Seq<u8>) -> Option<usize>;

/// The declared sizes of the images of icon group `index` of `pe_data`, one
/// per entry; `None` when the group cannot be read.
pub uninterp spec fn pe_icon_entry_sizes(pe_data: Seq<u8>, index: usize) -> Option<Seq<u32>>;

/// Icon group `index` of `pe_data` reassembled by pelite into a complete
/// `.ico` file; `None` when the group cannot be read or reassembled.
pub uninterp spec fn pe_icon_file(pe_data: Seq<u8>, index: usize) -> Option<Seq<u8>>;

/// The PNG encoding, by the `image` crate, of the image that it decodes from
/// the `.ico` file `ico`; `None` when it cannot decode or encode it.
pub uninterp spec fn png_of_ico(ico: Seq<u8>) -> Option<Seq<u8>>;

pub open spec fn opt_bytes(o: Option<Vec<u8>>) -> Option<Seq<u8>> {
    match o {
        Some(v) => Some(v@),
        None => None,
    }
}

pub open spec fn opt_sizes(o: Option<Vec<u32>>) -> Option<Seq<u32>> {
    match o {
        Some(v) => Some(v@),
        None => None,
    }
}

/// Counts the icon groups of a PE image with pelite (`PeFile::from_bytes`,
/// `resources`, `icons`), reading an aligned copy of the bytes. The contract
/// claims only that the count is a function of the bytes, named
/// `pe_icon_group_count`.
#[verifier::external_body]
fn pe_icon_groups(pe_data: &[u8]) -> (r: Option<usize>)
    ensures
        r == pe_icon_group_count(pe_data@),
{
    let mut words = vec![0u64; pe_data.len() / 8 + 1];
    bytemuck::cast_slice_mut::<u64, u8>(&mut words)[..pe_data.len()].copy_from_slice(pe_data);
    let pe = PeFile::from_bytes(&bytemuck::cast_slice::<u64, u8>(&words)[..pe_data.len()]).ok()?;
    Some(pe.resources().ok()?.icons().count())
}

/// The declared image sizes (`GRPICONDIRENTRY::bytes_in_resource`) of icon
/// group `index` of a PE image, read by pelite from an aligned copy of the
/// bytes. The contract claims only that they are a function of the bytes and
/// the index, named `pe_icon_entry_sizes`.
#[verifier::external_body]
fn pe_icon_sizes(pe_data: &[u8], index: usize) -> (r: Option<Vec<u32>>)
    ensures
        opt_sizes(r) == pe_icon_entry_sizes(pe_data@, index),
{
    let mut words = vec![0u64; pe_data.len() / 8 + 1];
    bytemuck::cast_slice_mut::<u64, u8>(&mut words)[..pe_data.len()].copy_from_slice(pe_data);
    let pe = PeFile::from_bytes(&bytemuck::cast_slice::<u64, u8>(&words)[..pe_data.len()]).ok()?;
    let (_, group) = pe.resources().ok()?.icons().nth(index)?.ok()?;
    Some(group.entries().iter().map(|e| e.bytes_in_resource()).collect())
}

/// Icon group `index` of a PE image reassembled into an `.ico` file by
/// pelite's `GroupIcon::write`, from an aligned copy of the bytes. The
/// contract claims only that the result is a function of the bytes and the
/// index, named `pe_icon_file`. `GroupIcon::write` adds the declared image
/// sizes to the header size as a `u32`, which overflows (and panics in a
/// debug build) unless they fit; the `requires` leaves those groups out.
#[verifier::external_body]
fn pe_icon_group_file(pe_data: &[u8], index: usize) -> (r: Option<Vec<u8>>)
    requires
        pe_icon_entry_sizes(pe_data@, index) matches Some(s) ==> group_fits(s),
    ensures
        opt_bytes(r) == pe_icon_file(pe_data@, index),
{
    let mut words = vec![0u64; pe_data.len() / 8 + 1];
    bytemuck::cast_slice_mut::<u64, u8>(&mut words)[..pe_data.len()].copy_from_slice(pe_data);
    let pe = PeFile::from_bytes(&bytemuck::cast_slice::<u64, u8>(&words)[..pe_data.len()]).ok()?;
    let (_, group) = pe.resources().ok()?.icons().nth(index)?.ok()?;
    let mut ico = Vec::new();
    group.write(&mut ico).ok()?;
    Some(ico)
}

/// Decodes an `.ico` file with `image::load_from_memory_with_format` and
/// encodes the image as PNG with `DynamicImage::write_to`, which is what
/// `save_with_format` writes to a file. The contract claims only that the
/// result is a function of the bytes alone, named `png_of_ico`.
#[verifier::external_body]
fn ico_to_png(ico: &[u8]) -> (r: Option<Vec<u8>>)
    ensures
        opt_bytes(r) == png_of_ico(ico@),
{
    let img = image::load_from_memory_with_format(ico, ImageFormat::Ico).ok()?;
    let mut png = std::io::Cursor::new(Vec::new());
    img.write_to(&mut png, ImageFormat::Png).ok()?;
    Some(png.into_inner())
}

/// The size of the entries (16 bytes each) and of the declared images of a
/// reassembled `.ico` file with image sizes `sizes`, its 6-byte header aside.
pub open spec fn entries_total(sizes: Seq<u32>) -> int
    decreases sizes.len(),
{
    if sizes.len() == 0 {
        0
    } else {
        entries_total(sizes.drop_last()) + 16 + sizes.last()
    }
}

/// The offsets of a reassembled `.ico` file with image sizes `sizes` fit in
/// a `u32`.
pub open spec fn group_fits(sizes: Seq<u32>) -> bool {
    6 + entries_total(sizes) <= u32::MAX
}

proof fn lemma_entries_total_prefix(sizes: Seq<u32>, i: int)
    requires
        0 <= i <= sizes.len(),
    ensures
        entries_total(sizes.take(i)) <= entries_total(sizes),
    decreases sizes.len() - i,
{
    if i < sizes.len() {
        lemma_entries_total_prefix(sizes, i + 1);
        assert(sizes.take(i + 1).drop_last() =~= sizes.take(i));
    } else {
        assert(sizes.take(i) =~= sizes);
    }
}

/// Whether the icon group with image sizes `sizes` can be reassembled: its
/// offsets must fit in a `u32`.
pub fn icon_group_fits(sizes: &Vec<u32>) -> (r: bool)
    ensures
        r == group_fits(sizes@),
{
    let mut total: u64 = 6;
    let mut i: usize = 0;
    while i < sizes.len()
        invariant
            i <= sizes.len(),
            total == 6 + entries_total(sizes@.take(i as int)),
            total <= u32::MAX,
        decreases sizes.len() - i,
    {
        assert(sizes@.take(i + 1).drop_last() =~= sizes@.take(i as int));
        total = total + 16 + sizes[i] as u64;
        i += 1;
        if total > 0xffff_ffff {
            proof {
                lemma_entries_total_prefix(sizes@, i as int);
            }
            return false;
        }
    }
    assert(sizes@.take(sizes.len() as int) =~= sizes@);
    true
}

/// Decodes a reassembled `.ico` file and encodes its image as PNG.
pub fn ico_png(ico: &[u8]) -> (r: Option<Vec<u8>>)
    ensures
        opt_bytes(r) == png_of_ico(ico@),
{
    ico_to_png(ico)
}

/// The PNG of icon group `index` of `pe_data`: the group is read, reassembled
/// when its offsets fit, and decoded.
pub open spec fn group_png(pe_data: Seq<u8>, index: usize) -> Option<Seq<u8>> {
    match pe_icon_entry_sizes(pe_data, index) {
        Some(sizes) => if group_fits(sizes) {
            match pe_icon_file(pe_data, index) {
                Some(ico) => png_of_ico(ico),
                None => None,
            }
        } else {
            None
        },
        None => None,
    }
}

/// The PNG of icon group `index` of a PE image, if it reads, fits and decodes.
pub fn group_icon_png(pe_data: &[u8], index: usize) -> (r: Option<Vec<u8>>)
    ensures
        opt_bytes(r) == group_png(pe_data@, index),
{
    let sizes = match pe_icon_sizes(pe_data, index) {
        Some(s) => s,
        None => return None,
    };
    if !icon_group_fits(&sizes) {
        return None;
    }
    match pe_icon_group_file(pe_data, index) {
        Some(ico) => ico_png(ico.as_slice()),
        None => None,
    }
}

/// The PNG of the first of groups `from..count` that decodes.
pub open spec fn first_png_from(pe_data: Seq<u8>, from: int, count: int) -> Option<Seq<u8>>
    decreases count - from,
{
    if from < 0 || from >= count {
        None
    } else {
        match group_png(pe_data, from as usize) {
            Some(png) => Some(png),
            None => first_png_from(pe_data, from + 1, count),
        }
    }
}

/// The PNG icon of the PE image `pe_data`: that of its first icon group, in
/// order, that decodes.
pub open spec fn pe_icon_png(pe_data: Seq<u8>) -> Option<Seq<u8>> {
    match pe_icon_group_count(pe_data) {
        Some(count) => first_png_from(pe_data, 0, count as int),
        None => None,
    }
}

proof fn lemma_first_png_from(pe_data: Seq<u8>, k: int, i: int, n: int, png: Seq<u8>)
    requires
        0 <= k <= i < n,
        n <= usize::MAX,
        group_png(pe_data, i as usize) == Some(png),
        forall|j: usize| k <= j < i ==> #[trigger] group_png(pe_data, j) is None,
    ensures
        first_png_from(pe_data, k, n) == Some(png),
    decreases i - k,
{
    if k < i {
        assert(group_png(pe_data, k as usize) is None);
        lemma_first_png_from(pe_data, k + 1, i, n, png);
    }
}

proof fn lemma_no_png_from(pe_data: Seq<u8>, k: int, n: int)
    requires
        0 <= k <= n,
        n <= usize::MAX,
        forall|j: usize| k <= j < n ==> #[trigger] group_png(pe_data, j) is None,
    ensures
        first_png_from(pe_data, k, n) is None,
    decreases n - k,
{
    if k < n {
        assert(group_png(pe_data, k as usize) is None);
        lemma_no_png_from(pe_data, k + 1, n);
    }
}

/// An icon group gives a PNG exactly when pelite reads its image sizes,
/// its offsets fit in a `u32` (6 header bytes, then 16 bytes and the image
/// for each entry), pelite reassembles it and the `image` crate decodes the
/// result; the PNG is then the decoded one.
pub proof fn group_png_decodes(pe_data: Seq<u8>, index: usize)
    ensures
        group_png(pe_data, index) is Some <==> ({
            &&& pe_icon_entry_sizes(pe_data, index) is Some
            &&& 6 + entries_total(pe_icon_entry_sizes(pe_data, index)->0) <= 0xffff_ffff
            &&& pe_icon_file(pe_data, index) is Some
            &&& png_of_ico(pe_icon_file(pe_data, index)->0) is Some
        }),
        group_png(pe_data, index) is Some ==> group_png(pe_data, index) == png_of_ico(
            pe_icon_file(pe_data, index)->0,
        ),
{
}

/// The extracted icon is that of the lowest-index icon group that decodes:
/// when group `i` decodes to `png` and no group before it does, the icon is
/// `png`; when no group decodes, there is no icon.
pub proof fn first_decoding_group_wins(pe_data: Seq<u8>, icon: Option<Seq<u8>>, i: usize, png: Seq<u8>)
    requires
        icon == pe_icon_png(pe_data),
        pe_icon_group_count(pe_data) is Some,
    ensures
        (i < pe_icon_group_count(pe_data)->0 && group_png(pe_data, i) == Some(png) && forall|j: usize|
            j < i ==> #[trigger] group_png(pe_data, j) is None) ==> icon == Some(png),
        (forall|j: usize| j < pe_icon_group_count(pe_data)->0 ==> #[trigger] group_png(pe_data, j) is None)
            ==> icon is None,
{
    let n = pe_icon_group_count(pe_data)->0;
    if i < n && group_png(pe_data, i) == Some(png) && forall|j: usize|
        j < i ==> #[trigger] group_png(pe_data, j) is None {
        lemma_first_png_from(pe_data, 0, i as int, n as int, png);
    }
    if forall|j: usize| j < n ==> #[trigger] group_png(pe_data, j) is None {
        lemma_no_png_from(pe_data, 0, n as int);
    }
}

/// Extracts the icon of a Windows executable from its resources, as PNG
/// bytes: the groups are tried in order and the first that pelite reassembles
/// and the `image` crate decodes is kept; later groups are not read. `None`
/// when the bytes are no PE image or no group decodes.
pub fn extract_pe_icon(pe_data: &[u8]) -> (r: Option<Vec<u8>>)
    ensures
        opt_bytes(r) == pe_icon_png(pe_data@),
{
    let count = match pe_icon_groups(pe_data) {
        Some(n) => n,
        None => return None,
    };
    let mut i: usize = 0;
    while i < count
        invariant
            i <= count,
            pe_icon_group_count(pe_data@) == Some(count),
            first_png_from(pe_data@, 0, count as int) == first_png_from(
                pe_data@,
                i as int,
                count as int,
            ),
        decreases count - i,
    {
        let png = group_icon_png(pe_data, i);
        if png.is_some() {
            return png;
        }
        i += 1;
    }
    None
}

} // verus!
