//! Reading members out of a zip archive held in memory, through the `zip` crate.
use vstd::prelude::*;

verus! {

#[verifier::external_type_specification]
#[verifier::external_body]
#[verifier::reject_recursive_types(R)]
pub struct ExZipArchive<R>(zip::ZipArchive<R>);

#[verifier::external_type_specification]
#[verifier::external_body]
pub struct ExZipError(zip::result::ZipError);

#[verifier::external_type_specification]
#[verifier::external_body]
#[verifier::reject_recursive_types(T)]
pub struct ExCursor<T>(std::io::Cursor<T>);

/// One member as the reader yields it: `None` when it cannot be read or
/// decompressed, else its path (`None` when the path is not a safe relative
/// UTF-8 path) and its decompressed bytes.
pub type MemberView = Option<(Option<Seq<char>>, Seq<u8>)>;

/// What reading a zip archive gives for these bytes: `None` when they are no
/// zip archive, else its members in central-directory order.
pub uninterp spec fn zip_read(bytes: Seq<u8>) -> Option<Seq<MemberView>>;

/// The members of an open archive, in central-directory order.
pub uninterp spec fn archive_members(archive: zip::ZipArchive<std::io::Cursor<Vec<u8>>>) -> Seq<
    MemberView,
>;

pub open spec fn name_view(name: Option<String>) -> Option<Seq<char>> {
    match name {
        Some(s) => Some(s@),
        None => None,
    }
}

/// Relies on `zip::ZipArchive::new`: reads the central directory of the
/// archive whose bytes are given, or fails when they are no zip archive; what
/// it reads depends on the bytes alone.
#[verifier::external_body]
pub(crate) fn open_archive(bytes: Vec<u8>) -> (r: Result<
    zip::ZipArchive<std::io::Cursor<Vec<u8>>>,
    zip::result::ZipError,
>)
    ensures
        match r {
            Ok(archive) => zip_read(bytes@) == Some(archive_members(archive)),
            Err(_) => zip_read(bytes@) is None,
        },
{
    zip::ZipArchive::new(std::io::Cursor::new(bytes))
}

/// Relies on `zip::ZipArchive::len`: the number of members listed in the
/// central directory.
#[verifier::external_body]
pub(crate) fn member_count(archive: &zip::ZipArchive<std::io::Cursor<Vec<u8>>>) -> (r: usize)
    ensures
        r == archive_members(*archive).len(),
{
    archive.len()
}

/// Relies on `zip::ZipArchive::by_index`, with `ZipFile::enclosed_name` and
/// the `Read` impl of `ZipFile`: the path of member `index` when it is a safe
/// relative path (`None` otherwise), and the member's decompressed bytes.
/// Each read seeks to the member's own data, so the members stay as they were.
#[verifier::external_body]
pub(crate) fn read_member(
    archive: &mut zip::ZipArchive<std::io::Cursor<Vec<u8>>>,
    index: usize,
) -> (r: Result<(Option<String>, Vec<u8>), zip::result::ZipError>)
    requires
        index < archive_members(*old(archive)).len(),
    ensures
        archive_members(*final(archive)) == archive_members(*old(archive)),
        match r {
            Ok((name, data)) => archive_members(*old(archive))[index as int] == Some(
                (name_view(name), data@),
            ),
            Err(_) => archive_members(*old(archive))[index as int] is None,
        },
{
    let mut file = archive.by_index(index)?;
    let name = match file.enclosed_name() {
        Some(path) => path.to_str().map(String::from),
        None => None,
    };
    let mut buf = Vec::new();
    std::io::Read::read_to_end(&mut file, &mut buf)?;
    Ok((name, buf))
}

} // verus!
