//! The table of mounted filesystems, as the kernel writes it: one line for
//! each mount, with the device, the mount point and the type of the
//! filesystem as its first three fields.

use vstd::prelude::*;
use vstd::string::*;
use crate::scan::{fields_of, lines_of, split_fields, split_lines, texts_of};
use crate::text::same_text;

verus! {

/// The field at the position `give` of the first line from the position
/// `at` on that has more than `give` fields and holds `wanted` in its field
/// at the position `look`.
pub open spec fn lookup_from(
    lines: Seq<Seq<char>>,
    look: int,
    wanted: Seq<char>,
    give: int,
    at: int,
) -> Option<Seq<char>>
    decreases lines.len() - at,
{
    if at < 0 || at >= lines.len() {
        None
    } else if 0 <= look < give < fields_of(lines[at]).len() && fields_of(lines[at])[look] == wanted {
        Some(fields_of(lines[at])[give])
    } else {
        lookup_from(lines, look, wanted, give, at + 1)
    }
}

/// Where the device is mounted: the second field of the first line whose
/// first field is the device.
pub open spec fn mount_point_of(mounts: Seq<char>, device: Seq<char>) -> Option<Seq<char>> {
    lookup_from(lines_of(mounts), 0, device, 1, 0)
}

/// The type of the filesystem that is mounted at `/`: the third field of the
/// first line whose second field is `/`.
pub open spec fn root_fs_type_of(mounts: Seq<char>) -> Option<Seq<char>> {
    lookup_from(lines_of(mounts), 1, "/"@, 2, 0)
}

/// Looks a line up by one of its fields and gives another, which stands
/// behind it.
fn lookup(mounts: &str, look: usize, wanted: &str, give: usize) -> (found: Option<String>)
    requires
        look < give,
    ensures
        found is Some <==> lookup_from(lines_of(mounts@), look as int, wanted@, give as int, 0)
            is Some,
        found matches Some(text) ==> lookup_from(
            lines_of(mounts@),
            look as int,
            wanted@,
            give as int,
            0,
        ) == Some(text@),
{
    let lines = split_lines(mounts);
    let mut i: usize = 0;
    while i < lines.len()
        invariant
            i <= lines.len(),
            look < give,
            texts_of(lines@) == lines_of(mounts@),
            lookup_from(lines_of(mounts@), look as int, wanted@, give as int, 0) == lookup_from(
                lines_of(mounts@),
                look as int,
                wanted@,
                give as int,
                i as int,
            ),
        decreases lines.len() - i,
    {
        assert(texts_of(lines@)[i as int] == lines[i as int]@);
        let mut fields = split_fields(lines[i].as_str());
        if give < fields.len() {
            assert(texts_of(fields@)[look as int] == fields[look as int]@);
            assert(texts_of(fields@)[give as int] == fields[give as int]@);
            if same_text(fields[look].as_str(), wanted) {
                return Some(fields.swap_remove(give));
            }
        }
        i += 1;
    }
    None
}

/// Where the device `dev_path` is mounted, by the table of mounts.
pub fn resolve_mount_point(mounts: &str, dev_path: &str) -> (mount_point: Option<String>)
    ensures
        mount_point is Some <==> mount_point_of(mounts@, dev_path@) is Some,
        mount_point matches Some(path) ==> mount_point_of(mounts@, dev_path@) == Some(path@),
{
    lookup(mounts, 0, dev_path, 1)
}

/// The type of the filesystem that is mounted at `/`, by the table of
/// mounts, or `unknown`.
pub fn get_fs_type(mounts: &str) -> (fs_type: String)
    ensures
        fs_type@ == match root_fs_type_of(mounts@) {
            Some(t) => t,
            None => "unknown"@,
        },
{
    match lookup(mounts, 1, "/", 2) {
        Some(t) => t,
        None => "unknown".to_owned(),
    }
}

} // verus!
