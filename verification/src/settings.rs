//! Application settings: their defaults, and reading them from the settings form.

use vstd::prelude::*;
use crate::models::opt_view;
use crate::naming::is_text;
use crate::numbers::{opt_nat, parse_bounded, parse_unsigned};
use crate::paths::{joined_path, path_join, path_extension, extension_of};
use crate::text::{chars_of, string_from_chars, trim, trim_vec};

verus! {

/// Application settings.
#[derive(Debug)]
pub struct AppSettings {
    /// Connections a new download is split into, where the server allows it.
    pub default_segments: usize,
    pub default_download_dir: String,
    pub temp_download_dir: Option<String>,
    /// Speed limit of new downloads, in bytes per second.
    pub speed_limit_bps: Option<u64>,
    pub start_on_boot: bool,
    pub extension_prompt_seen: bool,
    pub show_add_dialog_for_extension_downloads: bool,
    pub show_download_complete_dialog: bool,
}

/// Connections a new download uses unless the settings say otherwise.
pub fn default_segments() -> (n: usize)
    ensures
        n == 8,
{
    8
}

/// The user's download folder (`dirs::download_dir`), as text. What it is depends on the
/// machine and the account; nothing is stated of it.
#[verifier::external_body]
fn user_download_dir() -> (r: Option<String>) {
    dirs::download_dir().map(|p| p.to_string_lossy().to_string())
}

/// The folder downloads are saved in by default: the one found, else `.`.
pub fn download_dir_or_current(found: Option<String>) -> (r: String)
    ensures
        r@ == match found {
            Some(d) => d@,
            None => "."@,
        },
{
    match found {
        Some(d) => d,
        None => String::from_str("."),
    }
}

/// The folder downloads are saved in by default: the user's download folder, where the
/// system has one, else `.`. Which folder that is depends on the machine and the account,
/// so the contract states nothing of the result; `download_dir_or_current` states the
/// choice made from what the system reports.
pub fn default_download_dir() -> (r: String) {
    download_dir_or_current(user_download_dir())
}

impl Default for AppSettings {
    /// Eight connections, no temporary folder and no speed limit, all switches off, and
    /// the default download folder.
    fn default() -> (s: AppSettings)
        ensures
            s.default_segments == 8,
            s.temp_download_dir is None,
            s.speed_limit_bps is None,
            !s.start_on_boot,
            !s.extension_prompt_seen,
            !s.show_add_dialog_for_extension_downloads,
            !s.show_download_complete_dialog,
    {
        AppSettings {
            default_segments: default_segments(),
            default_download_dir: default_download_dir(),
            temp_download_dir: None,
            speed_limit_bps: None,
            start_on_boot: false,
            extension_prompt_seen: false,
            show_add_dialog_for_extension_downloads: false,
            show_download_complete_dialog: false,
        }
    }
}

/// `n * 1024`, or `u64::MAX` where that does not fit (`u64::saturating_mul`).
pub open spec fn kib_to_bytes(n: nat) -> nat {
    if n * 1024 <= u64::MAX { n * 1024 } else { u64::MAX as nat }
}

/// A speed limit typed in KiB/s: none for an empty field or `0`, else the number in
/// bytes per second; anything else is refused.
pub open spec fn speed_limit_of(value: Seq<char>, refusal: Seq<char>) -> Result<Option<nat>, Seq<char>> {
    let t = trim(value);
    if t.len() == 0 || t == "0"@ {
        Ok(None)
    } else {
        match parse_bounded(t, u64::MAX as nat) {
            Some(n) => Ok(Some(kib_to_bytes(n))),
            None => Err(refusal),
        }
    }
}

/// A parsed limit, as numbers and text.
pub open spec fn limit_view(r: Result<Option<u64>, String>) -> Result<Option<nat>, Seq<char>> {
    match r {
        Ok(o) => Ok(opt_nat(o)),
        Err(e) => Err(e@),
    }
}

fn speed_limit_from(value: &str, refusal: &str) -> (r: Result<Option<u64>, String>)
    ensures
        limit_view(r) == speed_limit_of(value@, refusal@),
{
    let v = chars_of(value);
    let t = trim_vec(&v);
    if t.len() == 0 || is_text(&t, "0") {
        return Ok(None);
    }
    match parse_unsigned(&t, u64::MAX) {
        Some(n) => {
            let bytes = match n.checked_mul(1024) {
                Some(b) => b,
                None => u64::MAX,
            };
            Ok(Some(bytes))
        },
        None => Err(String::from_str(refusal)),
    }
}

/// Reads the speed limit typed in a download window, in KiB/s.
pub fn parse_speed_limit_kib(value: &str) -> (r: Result<Option<u64>, String>)
    ensures
        limit_view(r) == speed_limit_of(value@, "Enter a number in KB/s."@),
{
    speed_limit_from(value, "Enter a number in KB/s.")
}

/// `n` clamped to `1..=16`.
pub open spec fn clamp_connections(n: nat) -> nat {
    if n < 1 {
        1
    } else if n > 16 {
        16
    } else {
        n
    }
}

/// The settings the settings form describes, or the first thing wrong with it: an empty
/// save folder, a connection count that is not a number, or a speed limit that is not
/// one. The connection count is clamped to `1..=16`; the speed limit is in KiB/s.
pub open spec fn settings_check(
    default_dir: Seq<char>,
    segments: Seq<char>,
    speed_limit: Seq<char>,
) -> Result<(nat, Option<nat>), Seq<char>> {
    if trim(default_dir).len() == 0 {
        Err("Default save folder is required."@)
    } else {
        match parse_bounded(trim(segments), usize::MAX as nat) {
            None => Err("Connections must be a number."@),
            Some(n) => match speed_limit_of(speed_limit, "Speed limit must be a number."@) {
                Err(e) => Err(e),
                Ok(limit) => Ok((clamp_connections(n), limit)),
            },
        }
    }
}

/// Builds the settings from the fields of the settings form (see `settings_check`).
/// Folders are kept trimmed; an empty temporary folder means none.
pub fn settings_from_inputs(
    default_dir: &str,
    temp_dir: &str,
    segments: &str,
    speed_limit: &str,
    start_on_boot: bool,
    show_add_dialog_for_extension_downloads: bool,
    show_download_complete_dialog: bool,
    extension_prompt_seen: bool,
) -> (r: Result<AppSettings, String>)
    ensures
        settings_check(default_dir@, segments@, speed_limit@) matches Err(e) ==> (r matches Err(m) && m@ == e),
        settings_check(default_dir@, segments@, speed_limit@) matches Ok((n, limit)) ==> (r matches Ok(s)
            && s.default_segments == n && opt_nat(s.speed_limit_bps) == limit && s.default_download_dir@
            == trim(default_dir@) && opt_view(s.temp_download_dir) == (if trim(temp_dir@).len() == 0 {
            None
        } else {
            Some(trim(temp_dir@))
        }) && s.start_on_boot == start_on_boot && s.show_add_dialog_for_extension_downloads
            == show_add_dialog_for_extension_downloads && s.show_download_complete_dialog
            == show_download_complete_dialog && s.extension_prompt_seen == extension_prompt_seen),
{
    let dv = chars_of(default_dir);
    let dd = trim_vec(&dv);
    if dd.len() == 0 {
        return Err(String::from_str("Default save folder is required."));
    }
    let sv = chars_of(segments);
    let st = trim_vec(&sv);
    let n = match parse_unsigned(&st, usize::MAX as u64) {
        Some(n) => n,
        None => {
            return Err(String::from_str("Connections must be a number."));
        },
    };
    let count: usize = if n < 1 {
        1
    } else if n > 16 {
        16
    } else {
        n as usize
    };
    let limit = match speed_limit_from(speed_limit, "Speed limit must be a number.") {
        Ok(l) => l,
        Err(e) => {
            return Err(e);
        },
    };
    let tv = chars_of(temp_dir);
    let tt = trim_vec(&tv);
    let temp = if tt.len() == 0 {
        None
    } else {
        Some(string_from_chars(tt.as_slice()))
    };
    Ok(AppSettings {
        default_segments: count,
        default_download_dir: string_from_chars(dd.as_slice()),
        temp_download_dir: temp,
        speed_limit_bps: limit,
        start_on_boot,
        extension_prompt_seen,
        show_add_dialog_for_extension_downloads,
        show_download_complete_dialog,
    })
}

/// Where state is kept: `.meta` files beside the downloads, and the settings file in
/// the user's configuration folder.
pub struct StateManager;

/// The user's configuration folder (`dirs::config_dir`), as text. What it is depends on
/// the machine and the account; nothing is stated of it.
#[verifier::external_body]
fn user_config_dir() -> (r: Option<String>) {
    dirs::config_dir().map(|p| p.to_string_lossy().to_string())
}

/// The settings file inside a configuration folder: `VelocityDownloader/settings.json`.
pub open spec fn settings_file_in(config_dir: Seq<char>) -> Seq<char> {
    joined_path(joined_path(config_dir, "VelocityDownloader"@), "settings.json"@)
}

impl StateManager {
    /// The settings file inside the configuration folder `config_dir`.
    pub fn settings_file_in(config_dir: &str) -> (r: String)
        ensures
            r@ == settings_file_in(config_dir@),
    {
        let app = path_join(config_dir, "VelocityDownloader");
        path_join(app.as_str(), "settings.json")
    }

    /// The settings file, where the system has a configuration folder. Whether it has one
    /// depends on the machine and the account, so `None` is not tied to any input;
    /// `settings_file_in` states the path made from a folder that was found.
    pub fn settings_path() -> (r: Option<String>)
        ensures
            r matches Some(p) ==> exists|d: Seq<char>| p@ == settings_file_in(d),
    {
        match user_config_dir() {
            Some(d) => Some(Self::settings_file_in(d.as_str())),
            None => None,
        }
    }

    /// A file found while scanning a folder holds a download's state: its extension is
    /// `meta`.
    pub fn is_state_file(path: &str) -> (r: bool)
        ensures
            r == (extension_of(path@) == Some("meta"@)),
    {
        match path_extension(path) {
            Some(e) => {
                let v = chars_of(e.as_str());
                is_text(&v, "meta")
            },
            None => false,
        }
    }
}

} // verus!
