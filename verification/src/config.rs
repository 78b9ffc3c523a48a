//! Settings of the application.

use vstd::prelude::*;
use vstd::string::*;
use crate::document::{
    parsed_document, read_section, section_unreadable, table_child, table_keys, table_texts,
};
use crate::error::{refusal, Error, Reason};
use crate::mounts::{get_fs_type, root_fs_type_of};
use crate::table::{as_map, has_key, PairTable};
use crate::text::{decimal, push_decimal};

verus! {

/// The settings of the transport layer.
#[derive(Debug)]
pub struct AppConfig {
    /// The path under which the interface is served. It ends with a slash.
    pub base_url: String,
}

/// The path under which the interface is served by default.
pub open spec fn default_base_url() -> Seq<char> {
    "/v1/ipelfs/"@
}

impl AppConfig {
    /// The default settings.
    pub fn new() -> (config: AppConfig)
        ensures
            config.base_url@ == default_base_url(),
    {
        AppConfig { base_url: "/v1/ipelfs/".to_owned() }
    }
}

impl Default for AppConfig {
    fn default() -> (config: AppConfig)
        ensures
            config.base_url@ == default_base_url(),
    {
        AppConfig::new()
    }
}


/// The description of the system in the registry's document.
#[derive(Debug)]
pub struct Config {
    pub ipelfs: IpelFs,
}

/// What the registry's document says of the system.
#[derive(Debug)]
pub struct IpelFs {
    pub os: String,
    pub arch: String,
    pub ram: String,
    pub fs_type: String,
    pub version: String,
    pub timestamp: String,
}

/// The memory of the system as it is written: the mebibytes and ` MB`, or
/// `unknown`.
pub open spec fn ram_text(total_kib: Option<u64>) -> Seq<char> {
    match total_kib {
        Some(kib) => decimal(kib as nat / 1024) + " MB"@,
        None => "unknown"@,
    }
}

/// Writes the memory of the system, given in kibibytes, in mebibytes.
pub fn get_ram(total_kib: Option<u64>) -> (text: String)
    ensures
        text@ == ram_text(total_kib),
{
    match total_kib {
        Some(kib) => {
            let mut text = String::new();
            push_decimal(&mut text, kib / 1024);
            text.append(" MB");
            text
        },
        None => "unknown".to_owned(),
    }
}

/// What a document says of the system: the text entries of its section
/// `ipelfs`, where the section is a table of text entries that holds all six
/// of `os`, `arch`, `ram`, `fs_type`, `version` and `timestamp`.
pub open spec fn system_section(doc: toml::Table) -> Option<Map<Seq<char>, Seq<char>>> {
    if table_keys(doc).contains("ipelfs"@) && !section_unreadable(doc, "ipelfs"@) {
        let texts = table_texts(table_child(doc, "ipelfs"@)->0);
        if texts.dom().contains("os"@) && texts.dom().contains("arch"@) && texts.dom().contains(
            "ram"@,
        ) && texts.dom().contains("fs_type"@) && texts.dom().contains("version"@)
            && texts.dom().contains("timestamp"@) {
            Some(texts)
        } else {
            None
        }
    } else {
        None
    }
}

/// The description holds what the text entries say.
pub open spec fn says(config: Config, texts: Map<Seq<char>, Seq<char>>) -> bool {
    &&& config.ipelfs.os@ == texts["os"@]
    &&& config.ipelfs.arch@ == texts["arch"@]
    &&& config.ipelfs.ram@ == texts["ram"@]
    &&& config.ipelfs.fs_type@ == texts["fs_type"@]
    &&& config.ipelfs.version@ == texts["version"@]
    &&& config.ipelfs.timestamp@ == texts["timestamp"@]
}

/// The text that the section holds under the key, or a failure that names
/// the key.
fn field(section: &PairTable, key: &str) -> (result: Result<String, Error>)
    ensures
        match result {
            Ok(text) => has_key(section@, key@) && text@ == as_map(section@)[key@],
            Err(e) => !has_key(section@, key@) && e@ == refusal(Reason::InvalidDocument, key@),
        },
{
    match section.get(key) {
        Some(text) => Ok(text.clone()),
        None => Err(Error::new(Reason::InvalidDocument, key)),
    }
}

impl Config {
    /// The description of the system in a registry: read from the section
    /// `ipelfs` of the registry's document where there is one, else `fresh`,
    /// for a registry that is started.
    pub fn load(text: Option<&str>, fresh: Config) -> (result: Result<Config, Error>)
        ensures
            text is None ==> result == Ok::<Config, Error>(fresh),
            text matches Some(held) ==> match parsed_document(held@) {
                None => result is Err,
                Some(doc) => match system_section(doc) {
                    Some(texts) => result is Ok && says(result->Ok_0, texts),
                    None => result is Err,
                },
            },
            result matches Err(e) ==> e@.reason == Reason::InvalidDocument,
    {
        let held: &str = match text {
            Some(held) => held,
            None => {
                return Ok(fresh);
            },
        };
        let section: PairTable = match read_section(held, "ipelfs") {
            Ok((Some(section), _)) => section,
            Ok((None, _)) => {
                return Err(Error::new(Reason::InvalidDocument, "ipelfs"));
            },
            Err(e) => {
                return Err(e);
            },
        };
        proof {
            let doc = parsed_document(held@)->0;
            assert(as_map(section@).dom() =~= table_texts(table_child(doc, "ipelfs"@)->0).dom());
        }
        let os = match field(&section, "os") {
            Ok(t) => t,
            Err(e) => {
                return Err(e);
            },
        };
        let arch = match field(&section, "arch") {
            Ok(t) => t,
            Err(e) => {
                return Err(e);
            },
        };
        let ram = match field(&section, "ram") {
            Ok(t) => t,
            Err(e) => {
                return Err(e);
            },
        };
        let fs_type = match field(&section, "fs_type") {
            Ok(t) => t,
            Err(e) => {
                return Err(e);
            },
        };
        let version = match field(&section, "version") {
            Ok(t) => t,
            Err(e) => {
                return Err(e);
            },
        };
        let timestamp = match field(&section, "timestamp") {
            Ok(t) => t,
            Err(e) => {
                return Err(e);
            },
        };
        Ok(Config { ipelfs: IpelFs { os, arch, ram, fs_type, version, timestamp } })
    }

    /// The description of a system for a registry that is started: what the
    /// caller found of the system, the memory in mebibytes and the type of
    /// the filesystem at `/` by the table of mounts.
    pub fn describe(
        os: &str,
        arch: &str,
        total_kib: Option<u64>,
        mounts: &str,
        version: &str,
        timestamp: &str,
    ) -> (config: Config)
        ensures
            config.ipelfs.os@ == os@,
            config.ipelfs.arch@ == arch@,
            config.ipelfs.ram@ == ram_text(total_kib),
            config.ipelfs.fs_type@ == match root_fs_type_of(mounts@) {
                Some(t) => t,
                None => "unknown"@,
            },
            config.ipelfs.version@ == version@,
            config.ipelfs.timestamp@ == timestamp@,
    {
        Config {
            ipelfs: IpelFs {
                os: os.to_owned(),
                arch: arch.to_owned(),
                ram: get_ram(total_kib),
                fs_type: get_fs_type(mounts),
                version: version.to_owned(),
                timestamp: timestamp.to_owned(),
            },
        }
    }
}

} // verus!
