//! Where the launcher (uv) lives, where it is downloaded from, and the decisions
//! around preparing the host for it.
use vstd::prelude::*;
use vstd::string::*;
use crate::text::{ends_with, seq_ends_with, str_eq};

verus! {

/// The launcher release that is downloaded.
pub const UV_VERSION: &'static str = "0.7.2";

/// Operating systems that a launcher release exists for.
#[derive(Debug, Clone, Copy, PartialEq, Eq, Structural)]
pub enum HostOs {
    Windows,
    MacOs,
    Linux,
    Other,
}

/// Processor architectures that a launcher release exists for.
#[derive(Debug, Clone, Copy, PartialEq, Eq, Structural)]
pub enum HostArch {
    X86_64,
    Aarch64,
    Other,
}

/// The release file for a platform, if there is one.
pub open spec fn uv_asset(os: HostOs, arch: HostArch) -> Option<Seq<char>> {
    match (os, arch) {
        (HostOs::Windows, HostArch::X86_64) => Some("uv-x86_64-pc-windows-msvc.zip"@),
        (HostOs::Windows, HostArch::Aarch64) => Some("uv-aarch64-pc-windows-msvc.zip"@),
        (HostOs::MacOs, HostArch::X86_64) => Some("uv-x86_64-apple-darwin.tar.gz"@),
        (HostOs::MacOs, HostArch::Aarch64) => Some("uv-aarch64-apple-darwin.tar.gz"@),
        (HostOs::Linux, HostArch::X86_64) => Some("uv-x86_64-unknown-linux-gnu.tar.gz"@),
        (HostOs::Linux, HostArch::Aarch64) => Some("uv-aarch64-unknown-linux-gnu.tar.gz"@),
        _ => None,
    }
}

/// Where the releases of the pinned version are published.
pub open spec fn release_base() -> Seq<char> {
    "https://github.com/astral-sh/uv/releases/download/"@ + UV_VERSION@ + "/"@
}

/// `name` under `base`, with `sep` between them unless `base` is empty or
/// already ends with `sep` or `/`.
pub open spec fn joined(base: Seq<char>, name: Seq<char>, sep: Seq<char>) -> Seq<char> {
    if base.len() == 0 || seq_ends_with(base, sep) || seq_ends_with(base, "/"@) {
        base + name
    } else {
        base + sep + name
    }
}

/// The launcher's file name on a host.
pub open spec fn uv_exe(windows: bool) -> Seq<char> {
    if windows {
        "uv.exe"@
    } else {
        "uv"@
    }
}

/// The download URL of the launcher for a platform, or `None` where no release exists.
pub fn get_uv_download_url(os: HostOs, arch: HostArch) -> (r: Option<String>)
    ensures
        match uv_asset(os, arch) {
            Some(a) => r matches Some(u) && u@ == release_base() + a,
            None => r is None,
        },
{
    let asset = match (os, arch) {
        (HostOs::Windows, HostArch::X86_64) => "uv-x86_64-pc-windows-msvc.zip",
        (HostOs::Windows, HostArch::Aarch64) => "uv-aarch64-pc-windows-msvc.zip",
        (HostOs::MacOs, HostArch::X86_64) => "uv-x86_64-apple-darwin.tar.gz",
        (HostOs::MacOs, HostArch::Aarch64) => "uv-aarch64-apple-darwin.tar.gz",
        (HostOs::Linux, HostArch::X86_64) => "uv-x86_64-unknown-linux-gnu.tar.gz",
        (HostOs::Linux, HostArch::Aarch64) => "uv-aarch64-unknown-linux-gnu.tar.gz",
        _ => {
            return None;
        },
    };
    let mut url = String::from_str("https://github.com/astral-sh/uv/releases/download/");
    url.append(UV_VERSION);
    url.append("/");
    url.append(asset);
    Some(url)
}

/// `name` under `base`, with the separator `sep` between them unless `base` is
/// empty or already ends with `sep` or `/`.
pub fn join_path(base: &str, name: &str, sep: &str) -> (r: String)
    ensures
        r@ == joined(base@, name@, sep@),
{
    let mut r = String::from_str(base);
    if !(base.unicode_len() == 0 || ends_with(base, sep) || ends_with(base, "/")) {
        r.append(sep);
    }
    r.append(name);
    r
}

/// The launcher's file name on a host.
pub fn uv_executable_name(windows: bool) -> (r: &'static str)
    ensures
        r@ == uv_exe(windows),
{
    if windows {
        "uv.exe"
    } else {
        "uv"
    }
}

/// The tool's home: the value of its environment variable when set; otherwise
/// `pytron_home` under the user's home directory, or under `.` when that is unknown.
pub fn get_pytron_home(env_home: Option<String>, user_home: Option<String>, sep: &str) -> (r: String)
    ensures
        match env_home {
            Some(h) => r@ == h@,
            None => r@ == joined(
                match user_home {
                    Some(u) => u@,
                    None => "."@,
                },
                "pytron_home"@,
                sep@,
            ),
        },
{
    match env_home {
        Some(h) => h,
        None => {
            let base = match user_home {
                Some(u) => u,
                None => String::from_str("."),
            };
            join_path(base.as_str(), "pytron_home", sep)
        },
    }
}

/// Where the launcher is looked for first: directly in the home.
pub fn uv_direct_path(home: &str, windows: bool, sep: &str) -> (r: String)
    ensures
        r@ == joined(home@, uv_exe(windows), sep@),
{
    join_path(home, uv_executable_name(windows), sep)
}

/// The launcher's path: directly in the home when it is there (`direct_exists`),
/// otherwise in the home's `bin` directory.
pub fn get_uv_path(home: &str, windows: bool, sep: &str, direct_exists: bool) -> (r: String)
    ensures
        r@ == if direct_exists {
            joined(home@, uv_exe(windows), sep@)
        } else {
            joined(joined(home@, "bin"@, sep@), uv_exe(windows), sep@)
        },
{
    if direct_exists {
        uv_direct_path(home, windows, sep)
    } else {
        let bin = join_path(home, "bin", sep);
        join_path(bin.as_str(), uv_executable_name(windows), sep)
    }
}

/// The file name a downloaded release is saved under: a `.zip` stays one,
/// anything else is a gzipped tar.
pub fn download_archive_name(url: &str) -> (r: &'static str)
    ensures
        r@ == if seq_ends_with(url@, ".zip"@) {
            "uv.zip"@
        } else {
            "uv.tar.gz"@
        },
{
    if ends_with(url, ".zip") {
        "uv.zip"
    } else {
        "uv.tar.gz"
    }
}

/// Whether an entry of a downloaded zip release is the launcher: its name ends
/// with the launcher's file name.
pub fn is_uv_binary_entry(entry_name: &str, windows: bool) -> (r: bool)
    ensures
        r == seq_ends_with(entry_name@, uv_exe(windows)),
{
    ends_with(entry_name, uv_executable_name(windows))
}

/// Whether an unpacked file of a tar release is the launcher: its file name is
/// the launcher's file name.
pub fn is_uv_binary_file(file_name: &str, windows: bool) -> (r: bool)
    ensures
        r == (file_name@ == uv_exe(windows)),
{
    str_eq(file_name, uv_executable_name(windows))
}

/// What has been learnt of the host's long-path setting.
pub enum LongPathEvent {
    /// The host has no such setting.
    NotApplicable,
    /// The setting was read; an absent value reads as 0.
    Read(u32),
    /// The setting could not be opened for reading.
    ReadFailed(String),
    /// Writing 1 to the setting succeeded.
    WriteSucceeded,
    /// Writing the setting failed.
    WriteFailed(String),
}

/// What to do next about long-path support.
pub enum LongPathStep {
    /// Long paths work now: `Ok(true)`.
    Enabled,
    /// Long paths were switched on and work after a reboot: `Ok(false)`.
    RebootNeeded,
    /// Write 1 to the setting and report how that went.
    TryEnable,
    /// Give up with this reason.
    Failed(String),
}

/// Decides the next step of checking, and if need be enabling, long-path
/// support. Hosts without the setting need nothing; a value of 1 means it is on;
/// any other value means it is to be switched on; a successful write needs a
/// reboot to take effect; a failure to read or write is reported.
pub fn check_and_enable_long_path_support(event: LongPathEvent) -> (r: LongPathStep)
    ensures
        match event {
            LongPathEvent::NotApplicable => r is Enabled,
            LongPathEvent::Read(v) => if v == 1 {
                r is Enabled
            } else {
                r is TryEnable
            },
            LongPathEvent::ReadFailed(e) => r matches LongPathStep::Failed(m) && m == e,
            LongPathEvent::WriteSucceeded => r is RebootNeeded,
            LongPathEvent::WriteFailed(e) => r matches LongPathStep::Failed(m) && m == e,
        },
{
    match event {
        LongPathEvent::NotApplicable => LongPathStep::Enabled,
        LongPathEvent::Read(v) => if v == 1 {
            LongPathStep::Enabled
        } else {
            LongPathStep::TryEnable
        },
        LongPathEvent::ReadFailed(e) => LongPathStep::Failed(e),
        LongPathEvent::WriteSucceeded => LongPathStep::RebootNeeded,
        LongPathEvent::WriteFailed(e) => LongPathStep::Failed(e),
    }
}

} // verus!
