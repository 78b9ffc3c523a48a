use ipelfs::clock::{format_time, TimeOfDay};
use ipelfs::config::AppConfig;
use ipelfs::error::{Error, ErrorKind, Reason};
use ipelfs::text::{blank, has_prefix, rooted, trim};

#[test]
fn trim_takes_the_blanks_off_both_ends() {
    assert_eq!(trim("  b3x9q2z\n"), "b3x9q2z");
    assert_eq!(trim("b3x9q2z"), "b3x9q2z");
    assert_eq!(trim("\t a b \r\n"), "a b");
    assert_eq!(trim(""), "");
    assert_eq!(trim(" \n\t"), "");
    assert_eq!(trim("é "), "é");
}

#[test]
fn blanks_are_the_white_space_of_unicode() {
    for code in 0u32..=0x10ffff {
        if let Some(c) = char::from_u32(code) {
            assert_eq!(blank(c), c.is_whitespace(), "U+{:04X}", code);
        }
    }
}

#[test]
fn trim_agrees_with_the_standard_library() {
    for text in ["", " ", "a", " a", "a ", "\u{a0}b3x9q2z\u{2003}\n", "\u{3000}", "a\u{85}b", "\t\r\n x y \u{2028}"] {
        assert_eq!(trim(text), text.trim(), "{:?}", text);
    }
}

#[test]
fn prefixes_are_recognised() {
    assert!(has_prefix("/dev/sda1", "/dev/"));
    assert!(has_prefix("/dev/", "/dev/"));
    assert!(has_prefix("client-7", "client"));
    assert!(has_prefix("anything", ""));
    assert!(!has_prefix("/dev", "/dev/"));
    assert!(!has_prefix("/mnt/dev/", "/dev/"));
    assert!(!has_prefix("", "a"));
}

#[test]
fn rooted_paths_begin_with_a_slash() {
    assert!(rooted("/mnt/a"));
    assert!(rooted("/"));
    assert!(!rooted("b3x9q2z"));
    assert!(!rooted(""));
}

#[test]
fn times_are_written_with_two_digits_each() {
    assert_eq!(format_time(TimeOfDay { hour: 0, minute: 0, second: 0 }), "00:00:00");
    assert_eq!(format_time(TimeOfDay { hour: 9, minute: 5, second: 7 }), "09:05:07");
    assert_eq!(format_time(TimeOfDay { hour: 23, minute: 59, second: 59 }), "23:59:59");
    assert_eq!(format_time(TimeOfDay { hour: 12, minute: 30, second: 45 }), "12:30:45");
}

#[test]
fn the_default_settings_serve_under_the_versioned_path() {
    assert_eq!(AppConfig::new().base_url, "/v1/ipelfs/");
    assert_eq!(AppConfig::default().base_url, "/v1/ipelfs/");
}

#[test]
fn reasons_fall_under_their_kinds() {
    let expected = [
        (Reason::InvalidName, ErrorKind::Validation),
        (Reason::InvalidId, ErrorKind::Validation),
        (Reason::InvalidVolumeId, ErrorKind::Validation),
        (Reason::InvalidMarker, ErrorKind::Validation),
        (Reason::InvalidSelector, ErrorKind::Validation),
        (Reason::InvalidDocument, ErrorKind::Validation),
        (Reason::MarkerMissing, ErrorKind::NotFound),
        (Reason::VolumeNotFound, ErrorKind::NotFound),
        (Reason::PathNotFound, ErrorKind::NotFound),
        (Reason::CollectionNotFound, ErrorKind::NotFound),
        (Reason::PathRegistered, ErrorKind::Conflict),
        (Reason::IdRegistered, ErrorKind::Conflict),
        (Reason::AmbiguousPath, ErrorKind::Conflict),
        (Reason::AlreadyOwned, ErrorKind::Conflict),
        (Reason::NotEmpty, ErrorKind::Conflict),
        (Reason::Locked, ErrorKind::Conflict),
        (Reason::NameTaken, ErrorKind::Conflict),
        (Reason::IdTaken, ErrorKind::Conflict),
        (Reason::DeviceUnmounted, ErrorKind::DeviceUnmounted),
        (Reason::Exhausted, ErrorKind::Io),
        (Reason::Metadata, ErrorKind::Io),
        (Reason::Io, ErrorKind::Io),
    ];
    for (reason, kind) in expected {
        assert_eq!(reason.kind(), kind);
        assert_eq!(Error::new(reason, "x").kind(), kind);
        assert!(!reason.phrase().is_empty());
    }
}

#[test]
fn messages_name_the_reason_and_the_subject() {
    let e = Error::new(Reason::VolumeNotFound, "b3x9q2z");
    assert_eq!(e.message(), "volume id not found: b3x9q2z");
    assert_eq!(e.subject, "b3x9q2z");
    assert_eq!(e.owner, None);
    let io = Error::new(Reason::Io, "disk full");
    assert_eq!(io.message(), "i/o failure: disk full");
    assert_eq!(io.kind(), ErrorKind::Io);
}

#[test]
fn an_owned_root_is_reported_with_its_owner() {
    let e = Error::owned("/mnt/a", "b3x9q2z");
    assert_eq!(e.reason, Reason::AlreadyOwned);
    assert_eq!(e.kind(), ErrorKind::Conflict);
    assert_eq!(e.subject, "/mnt/a");
    assert_eq!(e.owner.as_deref(), Some("b3x9q2z"));
    assert_eq!(e.message(), "directory is owned by another volume: /mnt/a [b3x9q2z]");
}
