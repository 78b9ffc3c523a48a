use ipelfs::config::{get_ram, Config};
use ipelfs::error::Reason;
use ipelfs::meta::{
    data_units_token, remove_char, text_after_first, trim_trailing, connection_in, detect_connection_type, device_basename, estimate_poh, estimate_tbw,
    field_of_second_line, get_device_name, get_fs_type, init_volume_meta, is_removable, opt_str,
    opt_u64, parse_power_on_hours_nvme, storage_type_of, Cell,
};

const TIB: u64 = 1024 * 1024 * 1024 * 1024;

const DF: &str = "\
Filesystem     1K-blocks    Used Available Use% Mounted on
/dev/nvme0n1p2 479151816 9876543 444869273   3% /mnt/a
";

const DF_T: &str = "\
Filesystem     Type 1K-blocks    Used Available Use% Mounted on
/dev/nvme0n1p2 ext4 479151816 9876543 444869273   3% /mnt/a
";

const SMART: &str = "\
=== START OF SMART DATA SECTION ===
Available Spare:                    100%
Data Units Written:                 8,601,320 [4.40 TB]
Power On Hours:                     1234
Unsafe Shutdowns:                   17
";

#[test]
fn the_lifetime_of_an_ssd_is_six_hundred_tebibytes() {
    assert_eq!(estimate_tbw(Some("ssd")), Some(600 * TIB));
    assert_eq!(estimate_tbw(Some("hdd")), None);
    assert_eq!(estimate_tbw(Some("SSD")), None);
    assert_eq!(estimate_tbw(Some("")), None);
    assert_eq!(estimate_tbw(None), None);
}

#[test]
fn the_expected_hours_follow_kind_and_wear() {
    assert_eq!(estimate_poh(Some("hdd"), None), Some(3 * 365 * 24));
    assert_eq!(estimate_poh(Some("hdd"), Some(100 * TIB)), Some(26280));
    assert_eq!(estimate_poh(Some("ssd"), None), None);
    assert_eq!(estimate_poh(Some("ssd"), Some(0)), Some(26280));
    assert_eq!(estimate_poh(Some("ssd"), Some(3 * TIB - 1)), Some(26280));
    assert_eq!(estimate_poh(Some("ssd"), Some(3 * TIB)), Some(43800));
    assert_eq!(estimate_poh(Some("ssd"), Some(5 * TIB - 1)), Some(43800));
    assert_eq!(estimate_poh(Some("ssd"), Some(5 * TIB)), Some(61320));
    assert_eq!(estimate_poh(Some("ssd"), Some(u64::MAX)), Some(7 * 365 * 24));
    assert_eq!(estimate_poh(Some("usb"), Some(0)), None);
    assert_eq!(estimate_poh(None, Some(0)), None);
}

#[test]
fn the_thresholds_agree_with_the_division_in_floating_point() {
    for bytes in [0u64, 1, 3 * TIB - 1, 3 * TIB, 3 * TIB + 1, 5 * TIB - 1, 5 * TIB, 1 << 53, u64::MAX] {
        let tb = bytes as f64 / (1024.0 * 1024.0 * 1024.0 * 1024.0);
        let expected = if tb < 3.0 {
            3 * 365 * 24
        } else if tb < 5.0 {
            5 * 365 * 24
        } else {
            7 * 365 * 24
        };
        assert_eq!(estimate_poh(Some("ssd"), Some(bytes)), Some(expected), "{}", bytes);
    }
}

#[test]
fn the_connection_is_told_by_the_name_of_the_device() {
    assert_eq!(detect_connection_type("/dev/nvme0n1").as_deref(), Some("nvme"));
    assert_eq!(detect_connection_type("/dev/NVME0N1").as_deref(), Some("nvme"));
    assert_eq!(detect_connection_type("/dev/usb-stick").as_deref(), Some("usb"));
    assert_eq!(detect_connection_type("/dev/sda1").as_deref(), Some("sata"));
    assert_eq!(detect_connection_type("/dev/SDB").as_deref(), Some("sata"));
    assert_eq!(detect_connection_type("/dev/usb-nvme").as_deref(), Some("nvme"));
    assert_eq!(detect_connection_type("/dev/mmcblk0"), None);
    assert_eq!(detect_connection_type(""), None);
    assert_eq!(connection_in("/dev/SDA"), None);
    assert_eq!(connection_in("/dev/sda").as_deref(), Some("sata"));
}

#[test]
fn the_basename_drops_the_device_directory() {
    for dev in ["/dev/sda1", "/dev/mapper/root", "sda", "", "/dev/", "/dev//dev/sdb", "/dev//x", "/devsda", "sda/1", "/dev/dev/x"] {
        let expected = dev.trim_start_matches("/dev/").split('/').next().unwrap_or("unknown");
        assert_eq!(device_basename(dev), expected, "{:?}", dev);
    }
    assert_eq!(device_basename("/dev/nvme0n1p2"), "nvme0n1p2");
    assert_eq!(device_basename("/dev/mapper/root"), "mapper");
}

#[test]
fn df_names_the_device_and_the_filesystem() {
    assert_eq!(get_device_name(DF), "/dev/nvme0n1p2");
    assert_eq!(get_device_name("Filesystem\n"), "/dev/unknown");
    assert_eq!(get_device_name(""), "/dev/unknown");
    assert_eq!(get_device_name("heading\n   \n"), "/dev/unknown");
    assert_eq!(get_fs_type(DF_T), "ext4");
    assert_eq!(get_fs_type("heading\n/dev/sda1\n"), "unknown");
    assert_eq!(get_fs_type(""), "unknown");
    assert_eq!(field_of_second_line(DF_T, 6, "none"), "/mnt/a");
    assert_eq!(field_of_second_line(DF_T, 7, "none"), "none");
}

#[test]
fn a_device_on_the_usb_bus_is_removable() {
    assert!(is_removable("DEVNAME=/dev/sdb\nID_BUS=usb\nID_MODEL=Stick\n"));
    assert!(is_removable("E: ID_BUS=usb"));
    assert!(!is_removable("DEVNAME=/dev/sda\nID_BUS=ata\n"));
    assert!(!is_removable("ID_BUS=\nusb\n"));
    assert!(!is_removable(""));
}

#[test]
fn the_power_on_hours_are_read_from_smartctl() {
    assert_eq!(parse_power_on_hours_nvme(SMART), Some(1234));
    assert_eq!(parse_power_on_hours_nvme("Power On Hours: 7\nPower On Hours: 9\n"), Some(7));
    assert_eq!(parse_power_on_hours_nvme("Power On Hours:\t 42 \r\n"), Some(42));
    assert_eq!(parse_power_on_hours_nvme("Power On Hours: 12:30"), Some(12));
    assert_eq!(parse_power_on_hours_nvme("Power On Hours: 1,234"), None);
    assert_eq!(parse_power_on_hours_nvme("Power On Hours 12"), None);
    assert_eq!(parse_power_on_hours_nvme("Power On Hours:"), None);
    assert_eq!(parse_power_on_hours_nvme("Power on hours: 12"), None);
    assert_eq!(parse_power_on_hours_nvme(""), None);
    // The first line with the words counts, also where it holds no number.
    assert_eq!(parse_power_on_hours_nvme("x: Power On Hours\nPower On Hours: 5\n"), None);
}

#[test]
fn the_kind_of_storage_follows_the_rotation() {
    assert_eq!(storage_type_of(true, Some("1")), None);
    assert_eq!(storage_type_of(true, None), None);
    assert_eq!(storage_type_of(false, Some("1\n")).as_deref(), Some("hdd"));
    assert_eq!(storage_type_of(false, Some("0\n")).as_deref(), Some("ssd"));
    assert_eq!(storage_type_of(false, Some("what")).as_deref(), Some("ssd"));
    assert_eq!(storage_type_of(false, Some("")).as_deref(), Some("ssd"));
    assert_eq!(storage_type_of(false, None).as_deref(), Some("ssd"));
}

#[test]
fn unknown_values_are_stored_as_null() {
    assert_eq!(opt_str(Some("ssd".to_string())), "ssd");
    assert_eq!(opt_str(None), "null");
    assert!(matches!(opt_u64(Some(7)), Cell::Number(7)));
    assert!(matches!(opt_u64(None), Cell::Text(t) if t == "null"));
}

#[test]
fn the_record_of_a_volume_is_put_together() {
    let meta = init_volume_meta(
        "b3x9q2z",
        DF,
        DF_T,
        "ID_BUS=ata\n",
        Some("0\n"),
        SMART,
        Some(4 * TIB),
        "2024-05-01T10:00:00+02:00",
    );
    assert_eq!(meta.id, "b3x9q2z");
    assert_eq!(meta.fs_type, "ext4");
    assert_eq!(meta.timestamp, "2024-05-01T10:00:00+02:00");
    assert!(!meta.removable);
    assert_eq!(meta.storage_type.as_deref(), Some("ssd"));
    assert_eq!(meta.connection_type.as_deref(), Some("nvme"));
    assert_eq!(meta.smart_total_written, Some(4 * TIB));
    assert_eq!(meta.power_on_hours, Some(1234));
    assert_eq!(meta.tbw_estimate, Some(600 * TIB));
    assert_eq!(meta.poh_estimate, Some(5 * 365 * 24));

    let stick = init_volume_meta("k2p0stu", "h\n/dev/sdb1 1 1 1 1% /mnt\n", "", "ID_BUS=usb\n", None, "", None, "t");
    assert!(stick.removable);
    assert_eq!(stick.storage_type, None);
    assert_eq!(stick.connection_type.as_deref(), Some("sata"));
    assert_eq!(stick.fs_type, "unknown");
    assert_eq!(stick.power_on_hours, None);
    assert_eq!(stick.tbw_estimate, None);
    assert_eq!(stick.poh_estimate, None);
}

#[test]
fn the_memory_is_written_in_mebibytes() {
    assert_eq!(get_ram(Some(16_384_000)), "16000 MB");
    assert_eq!(get_ram(Some(1023)), "0 MB");
    assert_eq!(get_ram(Some(1024)), "1 MB");
    assert_eq!(get_ram(None), "unknown");
}

#[test]
fn a_started_registry_describes_the_system() {
    let config = Config::describe(
        "linux",
        "x86_64",
        Some(2048),
        "/dev/sda1 / ext4 rw 0 0\n",
        "0.1.0",
        "2024-05-01T10:00:00+02:00",
    );
    assert_eq!(config.ipelfs.os, "linux");
    assert_eq!(config.ipelfs.arch, "x86_64");
    assert_eq!(config.ipelfs.ram, "2 MB");
    assert_eq!(config.ipelfs.fs_type, "ext4");
    assert_eq!(config.ipelfs.version, "0.1.0");
    assert_eq!(config.ipelfs.timestamp, "2024-05-01T10:00:00+02:00");
}

fn fresh() -> Config {
    Config::describe("linux", "x86_64", None, "", "0.1.0", "now")
}

#[test]
fn the_description_is_read_from_the_registry() {
    let text = "[ipelfs]\nos = \"linux\"\narch = \"arm\"\nram = \"8 MB\"\nfs_type = \"ext4\"\n\
version = \"0.2.0\"\ntimestamp = \"then\"\n\n[volume]\nb3x9q2z = \"/mnt/a\"\n";
    let config = Config::load(Some(text), fresh()).expect("a whole description");
    assert_eq!(config.ipelfs.os, "linux");
    assert_eq!(config.ipelfs.arch, "arm");
    assert_eq!(config.ipelfs.ram, "8 MB");
    assert_eq!(config.ipelfs.fs_type, "ext4");
    assert_eq!(config.ipelfs.version, "0.2.0");
    assert_eq!(config.ipelfs.timestamp, "then");
}

#[test]
fn a_started_registry_takes_the_fresh_description() {
    let config = Config::load(None, fresh()).expect("nothing to read");
    assert_eq!(config.ipelfs.arch, "x86_64");
    assert_eq!(config.ipelfs.ram, "unknown");
    assert_eq!(config.ipelfs.fs_type, "unknown");
}

#[test]
fn a_description_with_gaps_is_refused() {
    let e = Config::load(Some("title = 1\n"), fresh()).expect_err("no section");
    assert_eq!(e.reason, Reason::InvalidDocument);
    assert_eq!(e.subject, "ipelfs");
    let e = Config::load(Some("[ipelfs]\n"), fresh()).expect_err("an empty section");
    assert_eq!(e.subject, "os");
    let e = Config::load(Some("[ipelfs]\nos = \"linux\"\narch = \"arm\"\n"), fresh())
        .expect_err("four texts are missing");
    assert_eq!(e.subject, "ram");
    let e = Config::load(Some("[ipelfs]\nos = 1\n"), fresh()).expect_err("a number is no text");
    assert_eq!(e.subject, "os");
    let e = Config::load(Some("ipelfs = true\n"), fresh()).expect_err("a flag is no section");
    assert_eq!(e.subject, "ipelfs");
    assert!(Config::load(Some("[ipelfs"), fresh()).is_err());
}

fn token_by_the_standard_library(s: &str) -> Option<String> {
    s.lines()
        .find(|l| l.contains("Data Units Written"))
        .and_then(|l| l.split_once('['))
        .and_then(|(_, right)| right.trim_end_matches(']').split_whitespace().next())
        .map(|val| val.replace(',', ""))
}

#[test]
fn the_data_units_are_picked_from_smartctl() {
    assert_eq!(data_units_token(SMART).as_deref(), Some("4.40"));
    for text in [
        "",
        "Data Units Written: 1 [2.5 TB]",
        "Data Units Written: 1 [1,024.5 GB]]]",
        "Data Units Written: 1 [ 7 TB ]",
        "Data Units Written: 1 []",
        "Data Units Written: 1 [ ]",
        "Data Units Written: 8,601,320",
        "x\nData Units Written [a [b]\nData Units Written [c]",
        "data units written [1]",
        "Data Units Written [,,]",
        "Data Units Written [5]\r\n",
    ] {
        assert_eq!(data_units_token(text), token_by_the_standard_library(text), "{:?}", text);
    }
}

#[test]
fn texts_are_cut_and_cleaned() {
    assert_eq!(text_after_first("a[b[c", '['), Some("b[c"));
    assert_eq!(text_after_first("[", '['), Some(""));
    assert_eq!(text_after_first("abc", '['), None);
    assert_eq!(text_after_first("", '['), None);
    assert_eq!(trim_trailing("4.40 TB]]", ']'), "4.40 TB");
    assert_eq!(trim_trailing("]]", ']'), "");
    assert_eq!(trim_trailing("a]b", ']'), "a]b");
    assert_eq!(trim_trailing("", ']'), "");
    assert_eq!(remove_char("8,601,320", ','), "8601320");
    assert_eq!(remove_char(",,", ','), "");
    assert_eq!(remove_char("abc", ','), "abc");
}
