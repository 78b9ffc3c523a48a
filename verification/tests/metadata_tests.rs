use ipelfs::clock::TimeOfDay;
use ipelfs::metadata::{create, delete, receive, transfer, write_log, Action, LogWrite};

fn at(hour: u32, minute: u32, second: u32) -> TimeOfDay {
    TimeOfDay { hour, minute, second }
}

fn looks_like_a_line(write: &LogWrite, code: char, rest: &str) -> bool {
    let chars: Vec<char> = write.line.chars().collect();
    let clock_ok = chars.len() >= 8
        && chars[2] == ':'
        && chars[5] == ':'
        && [0usize, 1, 3, 4, 6, 7].iter().all(|i| chars[*i].is_ascii_digit());
    let tail: String = chars[8..].iter().collect();
    clock_ok && tail == format!(" {} {}\n", code, rest)
}

fn looks_like_a_day_file(name: &str) -> bool {
    let chars: Vec<char> = name.chars().collect();
    name.ends_with(".log")
        && chars.len() == 14
        && chars[4] == '-'
        && chars[7] == '-'
        && [0usize, 1, 2, 3, 5, 6, 8, 9].iter().all(|i| chars[*i].is_ascii_digit())
}

#[test]
fn a_line_without_target_has_time_action_and_subject() {
    let write = write_log("/mnt/a", Action::Create, "@v:b3x9q2z/c:k2p0stu", None, at(9, 5, 7), "2024-05-01");
    assert_eq!(write.root, "/mnt/a");
    assert_eq!(write.file, "2024-05-01.log");
    assert_eq!(write.line, "09:05:07 c @v:b3x9q2z/c:k2p0stu\n");
}

#[test]
fn a_line_with_target_has_an_arrow() {
    let write = write_log(
        "/mnt/a",
        Action::Transfer,
        "@v:b3x9q2z/c:k2p0stu",
        Some("f7h1mno"),
        at(23, 59, 59),
        "2024-12-31",
    );
    assert_eq!(write.file, "2024-12-31.log");
    assert_eq!(write.line, "23:59:59 t @v:b3x9q2z/c:k2p0stu -> f7h1mno\n");
    let write = write_log("/mnt/b", Action::Receive, "x", Some("y"), at(0, 0, 0), "2025-01-01");
    assert_eq!(write.line, "00:00:00 r x -> y\n");
    let write = write_log("/mnt/b", Action::Delete, "x", None, at(10, 20, 30), "2025-01-01");
    assert_eq!(write.line, "10:20:30 d x\n");
}

#[test]
fn the_actions_have_their_letters() {
    assert_eq!(Action::Create.code(), 'c');
    assert_eq!(Action::Delete.code(), 'd');
    assert_eq!(Action::Transfer.code(), 't');
    assert_eq!(Action::Receive.code(), 'r');
}

#[test]
fn create_and_delete_log_now() {
    let write = create("/mnt/a", "k2p0stu");
    assert_eq!(write.root, "/mnt/a");
    assert!(looks_like_a_day_file(&write.file), "{}", write.file);
    assert!(looks_like_a_line(&write, 'c', "k2p0stu"), "{}", write.line);
    let write = delete("/mnt/a", "k2p0stu");
    assert!(looks_like_a_line(&write, 'd', "k2p0stu"), "{}", write.line);
}

#[test]
fn transfer_and_receive_log_now() {
    let write = transfer("/mnt/a", "k2p0stu", "f7h1mno");
    assert_eq!(write.root, "/mnt/a");
    assert!(looks_like_a_line(&write, 't', "k2p0stu -> f7h1mno"), "{}", write.line);
    let write = receive("/mnt/b", "k2p0stu", "f7h1mno");
    assert_eq!(write.root, "/mnt/b");
    assert!(looks_like_a_day_file(&write.file), "{}", write.file);
    assert!(looks_like_a_line(&write, 'r', "k2p0stu -> f7h1mno"), "{}", write.line);
}

#[test]
fn the_logged_time_is_the_local_time() {
    let before = chrono::Local::now();
    let write = create("/mnt/a", "k2p0stu");
    let after = chrono::Local::now();
    let stamp = &write.line[..8];
    let candidates = [
        before.format("%H:%M:%S").to_string(),
        after.format("%H:%M:%S").to_string(),
    ];
    assert!(candidates.iter().any(|c| c == stamp), "{} not in {:?}", stamp, candidates);
    let days = [
        format!("{}.log", before.format("%Y-%m-%d")),
        format!("{}.log", after.format("%Y-%m-%d")),
    ];
    assert!(days.contains(&write.file));
}
