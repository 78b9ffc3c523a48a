//! What is derived from the description of a device for the metadata record
//! of a volume.

use vstd::prelude::*;
use vstd::string::*;
use crate::scan::{
    fields_of, find_line_with, first_with, lines_of, number_of, parse_number, parts_of,
    split_fields, split_lines, split_parts, texts_of,
};
use crate::text::{
    contains_text, occurs_at, occurs_in, push_char, same_text, stands_at, trim, trimmed,
};

verus! {

/// The bytes of a tebibyte.
pub const TEBIBYTE: u64 = 1_099_511_627_776;

/// The bytes that a solid-state device is expected to take in its life: 600
/// tebibytes.
pub const SSD_LIFETIME_BYTES: u64 = 659_706_976_665_600;

/// The hours of a year of 365 days.
pub const HOURS_OF_A_YEAR: u64 = 8_760;

/// `str::to_lowercase`: the text in lowercase.
pub uninterp spec fn lowercased(s: Seq<char>) -> Seq<char>;

/// `str::to_lowercase`: the text in lowercase.
#[verifier::external_body]
fn lowercase(s: &str) -> (lower: String)
    ensures
        lower@ == lowercased(s@),
{
    s.to_lowercase()
}

/// The model of an optional text.
pub open spec fn kind_view(ty: Option<&str>) -> Option<Seq<char>> {
    match ty {
        Some(t) => Some(t@),
        None => None,
    }
}

/// How a device is connected, by its name in lowercase: `nvme` where the
/// name holds `nvme`, else `usb` where it holds `usb`, else `sata` where it
/// holds `sd`, else unknown.
pub open spec fn connection_of(lower: Seq<char>) -> Option<Seq<char>> {
    if occurs_in(lower, "nvme"@) {
        Some("nvme"@)
    } else if occurs_in(lower, "usb"@) {
        Some("usb"@)
    } else if occurs_in(lower, "sd"@) {
        Some("sata"@)
    } else {
        None
    }
}

/// How a device is connected, by its name in lowercase.
pub fn connection_in(lower: &str) -> (kind: Option<String>)
    ensures
        kind is Some <==> connection_of(lower@) is Some,
        kind matches Some(k) ==> connection_of(lower@) == Some(k@),
{
    if contains_text(lower, "nvme") {
        Some("nvme".to_owned())
    } else if contains_text(lower, "usb") {
        Some("usb".to_owned())
    } else if contains_text(lower, "sd") {
        Some("sata".to_owned())
    } else {
        None
    }
}

/// How a device is connected, by its name in whatever case.
pub fn detect_connection_type(dev: &str) -> (kind: Option<String>)
    ensures
        kind is Some <==> connection_of(lowercased(dev@)) is Some,
        kind matches Some(k) ==> connection_of(lowercased(dev@)) == Some(k@),
{
    let lower = lowercase(dev);
    connection_in(lower.as_str())
}

/// The kind of storage of a device: none for a removable one; else `hdd`
/// where the kernel says `1` of its rotation, and `ssd` where it says
/// anything else or nothing.
pub open spec fn storage_kind(removable: bool, rotational: Option<Seq<char>>) -> Option<Seq<char>> {
    if removable {
        None
    } else {
        match rotational {
            Some(v) => if trimmed(v) == "1"@ {
                Some("hdd"@)
            } else {
                Some("ssd"@)
            },
            None => Some("ssd"@),
        }
    }
}

/// The kind of storage of a device, by what the kernel says of its
/// rotation.
pub fn storage_type_of(removable: bool, rotational: Option<&str>) -> (kind: Option<String>)
    ensures
        kind is Some <==> storage_kind(removable, kind_view(rotational)) is Some,
        kind matches Some(k) ==> storage_kind(removable, kind_view(rotational)) == Some(k@),
{
    if removable {
        return None;
    }
    match rotational {
        Some(v) => {
            if same_text(trim(v), "1") {
                Some("hdd".to_owned())
            } else {
                Some("ssd".to_owned())
            }
        },
        None => Some("ssd".to_owned()),
    }
}

/// The bytes that a device of this kind is expected to take in its life: 600
/// tebibytes for an `ssd`, unknown for any other.
pub fn estimate_tbw(ty: Option<&str>) -> (bytes: Option<u64>)
    ensures
        kind_view(ty) == Some("ssd"@) ==> bytes == Some(SSD_LIFETIME_BYTES),
        kind_view(ty) != Some("ssd"@) ==> bytes is None,
{
    match ty {
        Some(t) => {
            if same_text(t, "ssd") {
                Some(SSD_LIFETIME_BYTES)
            } else {
                None
            }
        },
        None => None,
    }
}

/// The hours that a device is expected to run: three years for an `hdd`;
/// for an `ssd` three years under three tebibytes written, five years under
/// five, seven years from five on, and unknown where what was written is
/// unknown; unknown for any other kind.
pub open spec fn expected_hours(ty: Option<Seq<char>>, written: Option<u64>) -> Option<u64> {
    if ty == Some("hdd"@) {
        Some((3 * HOURS_OF_A_YEAR) as u64)
    } else if ty == Some("ssd"@) {
        match written {
            Some(bytes) => if bytes < 3 * TEBIBYTE {
                Some((3 * HOURS_OF_A_YEAR) as u64)
            } else if bytes < 5 * TEBIBYTE {
                Some((5 * HOURS_OF_A_YEAR) as u64)
            } else {
                Some((7 * HOURS_OF_A_YEAR) as u64)
            },
            None => None,
        }
    } else {
        None
    }
}

/// The hours that a device of this kind is expected to run, given the bytes
/// that were written to it.
pub fn estimate_poh(ty: Option<&str>, written: Option<u64>) -> (hours: Option<u64>)
    ensures
        hours == expected_hours(kind_view(ty), written),
{
    let kind: &str = match ty {
        Some(t) => t,
        None => {
            return None;
        },
    };
    proof {
        reveal_strlit("hdd");
        reveal_strlit("ssd");
        assert("hdd"@ != "ssd"@) by {
            assert("hdd"@[0] != "ssd"@[0]);
        }
    }
    if same_text(kind, "hdd") {
        Some(3 * HOURS_OF_A_YEAR)
    } else if same_text(kind, "ssd") {
        match written {
            Some(bytes) => {
                if bytes < 3 * TEBIBYTE {
                    Some(3 * HOURS_OF_A_YEAR)
                } else if bytes < 5 * TEBIBYTE {
                    Some(5 * HOURS_OF_A_YEAR)
                } else {
                    Some(7 * HOURS_OF_A_YEAR)
                }
            },
            None => None,
        }
    } else {
        None
    }
}


/// `s` without `prefix` in front, as often as it stands there.
pub open spec fn without_prefixes(s: Seq<char>, prefix: Seq<char>, at: int) -> Seq<char>
    decreases s.len() - at,
{
    if prefix.len() > 0 && occurs_at(s, prefix, at) {
        without_prefixes(s, prefix, at + prefix.len())
    } else if 0 <= at <= s.len() {
        s.subrange(at, s.len() as int)
    } else {
        s
    }
}

/// The name of a device without the directory of devices in front: what
/// follows `/dev/`, as often as it stands in front, up to the next slash.
pub open spec fn basename_of(dev: Seq<char>) -> Seq<char> {
    parts_of(without_prefixes(dev, "/dev/"@, 0), '/')[0]
}

/// The name of a device without the directory of devices in front.
pub fn device_basename(dev: &str) -> (name: String)
    ensures
        name@ == basename_of(dev@),
{
    let n: usize = dev.unicode_len();
    let mut at: usize = 0;
    proof {
        reveal_strlit("/dev/");
    }
    while stands_at(dev, "/dev/", at)
        invariant
            at <= n,
            n == dev@.len(),
            "/dev/"@.len() == 5,
            without_prefixes(dev@, "/dev/"@, 0) == without_prefixes(dev@, "/dev/"@, at as int),
        decreases n - at,
    {
        at += 5;
    }
    let rest: &str = dev.substring_char(at, n);
    let mut parts = split_parts(rest, '/');
    assert(texts_of(parts@)[0] == parts[0]@);
    parts.swap_remove(0)
}

/// The second line of the output of a tool, which follows the line of
/// headings.
pub open spec fn second_line(output: Seq<char>) -> Option<Seq<char>> {
    if lines_of(output).len() >= 2 {
        Some(lines_of(output)[1])
    } else {
        None
    }
}

/// The field of the second line at the position `at`, or `fallback` where
/// the output has no second line or the line has no such field.
pub open spec fn second_line_field(output: Seq<char>, at: int, fallback: Seq<char>) -> Seq<char> {
    match second_line(output) {
        Some(line) => if 0 <= at < fields_of(line).len() {
            fields_of(line)[at]
        } else {
            fallback
        },
        None => fallback,
    }
}

/// The field of the second line of the output of a tool at the position
/// `at`, or `fallback`.
pub fn field_of_second_line(output: &str, at: usize, fallback: &str) -> (field: String)
    ensures
        field@ == second_line_field(output@, at as int, fallback@),
{
    let lines = split_lines(output);
    if lines.len() < 2 {
        return fallback.to_owned();
    }
    assert(texts_of(lines@)[1] == lines[1]@);
    let mut fields = split_fields(lines[1].as_str());
    if at < fields.len() {
        assert(texts_of(fields@)[at as int] == fields[at as int]@);
        fields.swap_remove(at)
    } else {
        fallback.to_owned()
    }
}

/// The device that holds a path, from what `df` says of the path: the first
/// field of its second line, or `/dev/unknown`.
pub fn get_device_name(df_output: &str) -> (device: String)
    ensures
        device@ == second_line_field(df_output@, 0, "/dev/unknown"@),
{
    field_of_second_line(df_output, 0, "/dev/unknown")
}

/// The type of the filesystem that holds a path, from what `df -T` says of
/// the path: the second field of its second line, or `unknown`.
pub fn get_fs_type(df_output: &str) -> (fs_type: String)
    ensures
        fs_type@ == second_line_field(df_output@, 1, "unknown"@),
{
    field_of_second_line(df_output, 1, "unknown")
}

/// Whether a device is removable, from what `udevadm` says of its
/// properties: some line names the USB bus.
pub fn is_removable(properties: &str) -> (removable: bool)
    ensures
        removable == (first_with(lines_of(properties@), "ID_BUS=usb"@) is Some),
{
    let lines = split_lines(properties);
    find_line_with(&lines, "ID_BUS=usb").is_some()
}

/// The hours that a device has run, from what `smartctl` says of it: in the
/// first line that holds `Power On Hours`, the number between the first
/// colon and the next, without the blanks around it.
pub open spec fn power_on_hours_of(output: Seq<char>) -> Option<u64> {
    match first_with(lines_of(output), "Power On Hours"@) {
        Some(line) => if parts_of(line, ':').len() >= 2 {
            number_of(trimmed(parts_of(line, ':')[1]))
        } else {
            None
        },
        None => None,
    }
}

/// The hours that a device has run, from what `smartctl` says of it.
pub fn parse_power_on_hours_nvme(s: &str) -> (hours: Option<u64>)
    ensures
        hours == power_on_hours_of(s@),
{
    let lines = split_lines(s);
    let i: usize = match find_line_with(&lines, "Power On Hours") {
        Some(i) => i,
        None => {
            return None;
        },
    };
    let parts = split_parts(lines[i].as_str(), ':');
    if parts.len() < 2 {
        return None;
    }
    assert(texts_of(parts@)[1] == parts[1]@);
    parse_number(trim(parts[1].as_str()))
}


/// The metadata record of a volume.
#[derive(Debug)]
pub struct VolumeMeta {
    pub id: String,
    pub fs_type: String,
    pub timestamp: String,
    pub removable: bool,
    pub storage_type: Option<String>,
    pub connection_type: Option<String>,
    pub smart_total_written: Option<u64>,
    pub power_on_hours: Option<u64>,
    pub tbw_estimate: Option<u64>,
    pub poh_estimate: Option<u64>,
}

/// A number of the metadata record as it is stored: the number, or the text
/// `null` where it is unknown.
#[derive(Debug)]
pub enum Cell {
    Number(u64),
    Text(String),
}

/// The model of an optional string.
pub open spec fn string_view(text: Option<String>) -> Option<Seq<char>> {
    match text {
        Some(t) => Some(t@),
        None => None,
    }
}

/// A text of the metadata record as it is stored: the text, or `null` where
/// it is unknown.
pub fn opt_str(opt: Option<String>) -> (text: String)
    ensures
        text@ == match opt {
            Some(s) => s@,
            None => "null"@,
        },
{
    match opt {
        Some(s) => s,
        None => "null".to_owned(),
    }
}

/// A number of the metadata record as it is stored.
pub fn opt_u64(opt: Option<u64>) -> (cell: Cell)
    ensures
        match opt {
            Some(n) => cell == Cell::Number(n),
            None => cell matches Cell::Text(t) && t@ == "null"@,
        },
{
    match opt {
        Some(n) => Cell::Number(n),
        None => Cell::Text("null".to_owned()),
    }
}

/// Puts the metadata record of a volume together from what the system tools
/// said: the device and the filesystem by `df`, whether the device is
/// removable by `udevadm`, its rotation by the kernel, the hours it has run
/// by `smartctl`. What was written to it is given as read elsewhere.
pub fn init_volume_meta(
    id: &str,
    df_output: &str,
    df_type_output: &str,
    properties: &str,
    rotational: Option<&str>,
    smart_output: &str,
    smart_total_written: Option<u64>,
    timestamp: &str,
) -> (meta: VolumeMeta)
    ensures
        meta.id@ == id@,
        meta.timestamp@ == timestamp@,
        meta.fs_type@ == second_line_field(df_type_output@, 1, "unknown"@),
        meta.removable == (first_with(lines_of(properties@), "ID_BUS=usb"@) is Some),
        string_view(meta.storage_type) == storage_kind(meta.removable, kind_view(rotational)),
        string_view(meta.connection_type) == connection_of(
            lowercased(second_line_field(df_output@, 0, "/dev/unknown"@)),
        ),
        meta.smart_total_written == smart_total_written,
        meta.power_on_hours == power_on_hours_of(smart_output@),
        meta.tbw_estimate == if string_view(meta.storage_type) == Some("ssd"@) {
            Some(SSD_LIFETIME_BYTES)
        } else {
            None
        },
        meta.poh_estimate == expected_hours(string_view(meta.storage_type), smart_total_written),
{
    let device = get_device_name(df_output);
    let removable = is_removable(properties);
    let storage_type = storage_type_of(removable, rotational);
    let connection_type = detect_connection_type(device.as_str());
    let tbw_estimate = match &storage_type {
        Some(kind) => estimate_tbw(Some(kind.as_str())),
        None => estimate_tbw(None),
    };
    let poh_estimate = match &storage_type {
        Some(kind) => estimate_poh(Some(kind.as_str()), smart_total_written),
        None => estimate_poh(None, smart_total_written),
    };
    VolumeMeta {
        id: id.to_owned(),
        fs_type: get_fs_type(df_type_output),
        timestamp: timestamp.to_owned(),
        removable,
        storage_type,
        connection_type,
        smart_total_written,
        power_on_hours: parse_power_on_hours_nvme(smart_output),
        tbw_estimate,
        poh_estimate,
    }
}


/// The first position of `s` from `at` on that holds `c`, or the length of
/// `s` where none does.
pub open spec fn position_from(s: Seq<char>, c: char, at: int) -> int
    decreases s.len() - at,
{
    if at < 0 || at >= s.len() {
        s.len() as int
    } else if s[at] == c {
        at
    } else {
        position_from(s, c, at + 1)
    }
}

/// What follows the first `c` in `s`, where `s` holds one.
pub open spec fn after_first(s: Seq<char>, c: char) -> Option<Seq<char>> {
    if position_from(s, c, 0) < s.len() {
        Some(s.subrange(position_from(s, c, 0) + 1, s.len() as int))
    } else {
        None
    }
}

/// `s` without `c` at its end, as often as it stands there.
pub open spec fn without_trailing(s: Seq<char>, c: char) -> Seq<char>
    decreases s.len(),
{
    if s.len() > 0 && s.last() == c {
        without_trailing(s.drop_last(), c)
    } else {
        s
    }
}

/// `s` without every `c`.
pub open spec fn without_char(s: Seq<char>, c: char) -> Seq<char>
    decreases s.len(),
{
    if s.len() == 0 {
        s
    } else if s.last() == c {
        without_char(s.drop_last(), c)
    } else {
        without_char(s.drop_last(), c).push(s.last())
    }
}

/// The size that `smartctl` prints for what was written to a device, as
/// text: in the first line that holds `Data Units Written`, what follows the
/// first opening bracket, without the closing brackets at its end, up to the
/// next blank, and without its commas.
pub open spec fn data_units_of(output: Seq<char>) -> Option<Seq<char>> {
    match first_with(lines_of(output), "Data Units Written"@) {
        Some(line) => match after_first(line, '[') {
            Some(right) => if fields_of(without_trailing(right, ']')).len() > 0 {
                Some(without_char(fields_of(without_trailing(right, ']'))[0], ','))
            } else {
                None
            },
            None => None,
        },
        None => None,
    }
}

/// What follows the first `c` in `s`, where `s` holds one.
pub fn text_after_first(s: &str, c: char) -> (rest: Option<&str>)
    ensures
        rest is Some <==> after_first(s@, c) is Some,
        rest matches Some(r) ==> after_first(s@, c) == Some(r@),
{
    let n: usize = s.unicode_len();
    let mut i: usize = 0;
    while i < n
        invariant
            i <= n,
            n == s@.len(),
            position_from(s@, c, 0) == position_from(s@, c, i as int),
        decreases n - i,
    {
        if s.get_char(i) == c {
            return Some(s.substring_char(i + 1, n));
        }
        i += 1;
    }
    None
}

/// The text without `c` at its end, as often as it stands there.
pub fn trim_trailing(s: &str, c: char) -> (rest: &str)
    ensures
        rest@ == without_trailing(s@, c),
{
    let n: usize = s.unicode_len();
    let mut end: usize = n;
    assert(s@.subrange(0, n as int) == s@);
    while end > 0 && s.get_char(end - 1) == c
        invariant
            end <= n,
            n == s@.len(),
            without_trailing(s@, c) == without_trailing(s@.subrange(0, end as int), c),
        decreases end,
    {
        proof {
            let part = s@.subrange(0, end as int);
            assert(part.last() == s@[end - 1]);
            assert(part.drop_last() == s@.subrange(0, end - 1));
        }
        end -= 1;
    }
    proof {
        let part = s@.subrange(0, end as int);
        if end > 0 {
            assert(part.last() == s@[end - 1]);
        }
    }
    s.substring_char(0, end)
}

/// The text without every `c`.
pub fn remove_char(s: &str, c: char) -> (rest: String)
    ensures
        rest@ == without_char(s@, c),
{
    let n: usize = s.unicode_len();
    let mut rest = String::new();
    let mut i: usize = 0;
    while i < n
        invariant
            i <= n,
            n == s@.len(),
            rest@ == without_char(s@.take(i as int), c),
        decreases n - i,
    {
        let x: char = s.get_char(i);
        proof {
            assert(s@.take(i + 1).drop_last() == s@.take(i as int));
            assert(s@.take(i + 1).last() == x);
        }
        if x != c {
            push_char(&mut rest, x);
        }
        i += 1;
    }
    assert(s@.take(n as int) == s@);
    rest
}

/// The size that `smartctl` prints for what was written to a device, as the
/// text of a number.
pub fn data_units_token(s: &str) -> (token: Option<String>)
    ensures
        token is Some <==> data_units_of(s@) is Some,
        token matches Some(t) ==> data_units_of(s@) == Some(t@),
{
    let lines = split_lines(s);
    let i: usize = match find_line_with(&lines, "Data Units Written") {
        Some(i) => i,
        None => {
            return None;
        },
    };
    let right: &str = match text_after_first(lines[i].as_str(), '[') {
        Some(right) => right,
        None => {
            return None;
        },
    };
    let fields = split_fields(trim_trailing(right, ']'));
    if fields.len() == 0 {
        return None;
    }
    assert(texts_of(fields@)[0] == fields[0]@);
    Some(remove_char(fields[0].as_str(), ','))
}

} // verus!
