//! Updating the program in place: the channels, where the installer keeps
//! its files, and the messages of an update check.
//!
//! Paths are held as text. Whether two paths are the same is asked of the
//! standard library, after each has been resolved on disk where it can be.

use std::path::Path;
use vstd::prelude::*;
use vstd::string::*;
use crate::text::{str_eq, strip_leading, trim_start_matches, trimmed, view_of};

verus! {

/// The stream of releases that an update follows.
#[derive(Debug, Clone, Copy, PartialEq, Eq)]
pub enum UpdateChannel {
    Stable,
    Canary,
}

/// The arguments of `self`.
#[derive(Debug, Clone)]
pub struct SelfArgs {
    pub command: SelfSubcommand,
}

/// The subcommands of `self`.
#[derive(Debug, Clone)]
pub enum SelfSubcommand {
    /// Update in place (installer-managed installs only).
    Update(UpdateArgs),
}

/// The arguments of `self update`.
#[derive(Debug, Clone)]
pub struct UpdateArgs {
    /// Check for updates without installing.
    pub check: bool,
    /// The channel to follow.
    pub channel: UpdateChannel,
}

impl UpdateChannel {
    /// Where the installer script of the channel is published.
    pub open spec fn spec_installer_url(self) -> Seq<char> {
        match self {
            UpdateChannel::Stable =>
                "https://github.com/braintrustdata/bt/releases/latest/download/bt-installer.sh"@,
            UpdateChannel::Canary =>
                "https://github.com/braintrustdata/bt/releases/download/canary/bt-installer.sh"@,
        }
    }

    /// Where the newest release of the channel is described.
    pub open spec fn spec_github_release_api_url(self) -> Seq<char> {
        match self {
            UpdateChannel::Stable => "https://api.github.com/repos/braintrustdata/bt/releases/latest"@,
            UpdateChannel::Canary =>
                "https://api.github.com/repos/braintrustdata/bt/releases/tags/canary"@,
        }
    }

    /// The name of the channel.
    pub open spec fn spec_name(self) -> Seq<char> {
        match self {
            UpdateChannel::Stable => "stable"@,
            UpdateChannel::Canary => "canary"@,
        }
    }

    /// Where the installer script of the channel is published.
    pub fn installer_url(self) -> (url: &'static str)
        ensures
            url@ == self.spec_installer_url(),
    {
        match self {
            UpdateChannel::Stable => {
                "https://github.com/braintrustdata/bt/releases/latest/download/bt-installer.sh"
            },
            UpdateChannel::Canary => {
                "https://github.com/braintrustdata/bt/releases/download/canary/bt-installer.sh"
            },
        }
    }

    /// Where the newest release of the channel is described.
    pub fn github_release_api_url(self) -> (url: &'static str)
        ensures
            url@ == self.spec_github_release_api_url(),
    {
        match self {
            UpdateChannel::Stable => {
                "https://api.github.com/repos/braintrustdata/bt/releases/latest"
            },
            UpdateChannel::Canary => {
                "https://api.github.com/repos/braintrustdata/bt/releases/tags/canary"
            },
        }
    }

    /// The name of the channel.
    pub fn name(self) -> (name: &'static str)
        ensures
            name@ == self.spec_name(),
    {
        match self {
            UpdateChannel::Stable => "stable",
            UpdateChannel::Canary => "canary",
        }
    }
}

/// The path that `Path::join` gives for `name` under `base`, by the rules
/// for paths of the system that the program is built for.
pub uninterp spec fn joined_path(base: Seq<char>, name: Seq<char>) -> Seq<char>;

/// Whether two paths are equal as `Path` compares them: component by
/// component, by the rules for paths of the system that the program is
/// built for.
pub uninterp spec fn same_path(a: Seq<char>, b: Seq<char>) -> bool;

/// `std::path::MAIN_SEPARATOR`, which differs from system to system.
#[verifier::external_body]
fn main_separator() -> char {
    std::path::MAIN_SEPARATOR
}

/// `Path::join`.
#[verifier::external_body]
fn join_path(base: &str, name: &str) -> (r: String)
    ensures
        r@ == joined_path(base@, name@),
{
    Path::new(base).join(name).to_string_lossy().into_owned()
}

/// `==` on paths.
#[verifier::external_body]
fn path_eq(a: &str, b: &str) -> (r: bool)
    ensures
        r == same_path(a@, b@),
{
    Path::new(a) == Path::new(b)
}

/// `Path::canonicalize`: the path with links and relative parts resolved
/// on disk, or nothing where that fails, as it does for a path that does
/// not exist.
#[verifier::external_body]
fn canonicalize(path: &str) -> Option<String> {
    Path::new(path).canonicalize().ok().map(|p| p.to_string_lossy().into_owned())
}

/// The name of the executable on a system with the given path separator:
/// with a backslash it carries the suffix `.exe`.
pub open spec fn spec_binary_name(separator: char) -> Seq<char> {
    if separator == '\\' {
        "bt.exe"@
    } else {
        "bt"@
    }
}

/// The name of the executable on a system with the given path separator.
pub fn binary_name_for(separator: char) -> (name: &'static str)
    ensures
        name@ == spec_binary_name(separator),
{
    if separator == '\\' {
        "bt.exe"
    } else {
        "bt"
    }
}

/// The name of the executable on this system.
pub fn binary_name() -> (name: &'static str)
    ensures
        name@ == "bt"@ || name@ == "bt.exe"@,
{
    binary_name_for(main_separator())
}

/// A path as it is compared: its resolved form where it has one.
pub open spec fn resolved(path: Seq<char>, canonical: Option<Seq<char>>) -> Seq<char> {
    match canonical {
        Some(c) => c,
        None => path,
    }
}

/// Whether two paths are the same, given what each resolves to on disk, if
/// it resolves at all.
pub fn paths_equal_resolved(
    a: &str,
    b: &str,
    canonical_a: Option<&str>,
    canonical_b: Option<&str>,
) -> (r: bool)
    ensures
        r == same_path(resolved(a@, view_of(canonical_a)), resolved(b@, view_of(canonical_b))),
{
    let left = match canonical_a {
        Some(c) => c,
        None => a,
    };
    let right = match canonical_b {
        Some(c) => c,
        None => b,
    };
    path_eq(left, right)
}

/// Whether two paths are the same once each is resolved on disk; a path
/// that does not resolve is compared as it is.
pub fn paths_equal(a: &str, b: &str) -> (r: bool)
    ensures
        exists|canonical_a: Option<Seq<char>>, canonical_b: Option<Seq<char>>|
            r == same_path(
                #[trigger] resolved(a@, canonical_a),
                #[trigger] resolved(b@, canonical_b),
            ),
{
    let left = canonicalize(a);
    let right = canonicalize(b);
    let r = paths_equal_resolved(
        a,
        b,
        match &left {
            Some(c) => Some(c.as_str()),
            None => None,
        },
        match &right {
            Some(c) => Some(c.as_str()),
            None => None,
        },
    );
    proof {
        let ghost canonical_a = view_of(left);
        let ghost canonical_b = view_of(right);
        assert(r == same_path(resolved(a@, canonical_a), resolved(b@, canonical_b)));
    }
    r
}

/// Whether the executable at `exe` was put there by the installer: the
/// installer has left its receipt, or the executable is the one in the
/// `bin` directory of the cargo home.
pub fn is_installer_managed_install(
    exe: &str,
    receipt_exists: bool,
    cargo_home_bin: Option<&str>,
) -> (r: bool)
    ensures
        receipt_exists ==> r,
        !receipt_exists && cargo_home_bin is None ==> !r,
        !receipt_exists ==> match cargo_home_bin {
            Some(bin) => exists|
                name: Seq<char>,
                canonical_exe: Option<Seq<char>>,
                canonical_bin: Option<Seq<char>>,
            |
                (name == "bt"@ || name == "bt.exe"@) && r == same_path(
                    #[trigger] resolved(exe@, canonical_exe),
                    #[trigger] resolved(joined_path(bin@, name), canonical_bin),
                ),
            None => true,
        },
{
    if receipt_exists {
        return true;
    }
    match cargo_home_bin {
        Some(bin) => {
            let name = binary_name();
            let candidate = join_path(bin, name);
            let r = paths_equal(exe, candidate.as_str());
            proof {
                let (canonical_exe, canonical_bin) = choose|
                    canonical_exe: Option<Seq<char>>,
                    canonical_bin: Option<Seq<char>>,
                |
                    r == same_path(
                        #[trigger] resolved(exe@, canonical_exe),
                        #[trigger] resolved(candidate@, canonical_bin),
                    );
                assert((name@ == "bt"@ || name@ == "bt.exe"@) && r == same_path(
                    resolved(exe@, canonical_exe),
                    resolved(joined_path(bin@, name@), canonical_bin),
                ));
            }
            r
        },
        None => false,
    }
}

/// The message of a check on the stable channel.
pub open spec fn spec_stable_check_message(current: Seq<char>, release_tag: Seq<char>) -> Seq<
    char,
> {
    if strip_leading(release_tag, 'v') == current {
        "bt "@ + current + " is up to date on the stable channel ("@ + release_tag + ")"@
    } else {
        "update available on stable channel: current="@ + current + ", latest="@ + release_tag
    }
}

/// The message of a check on the stable channel: the program is up to date
/// if the tag of the newest release, without the `v` in front of it, is the
/// current version.
pub fn stable_check_message(current: &str, release_tag: &str) -> (message: String)
    ensures
        message@ == spec_stable_check_message(current@, release_tag@),
{
    let latest = trim_start_matches(release_tag, 'v');
    if str_eq(latest, current) {
        let mut message = "bt ".to_owned();
        message.push_str(current);
        message.push_str(" is up to date on the stable channel (");
        message.push_str(release_tag);
        message.push_str(")");
        return message;
    }
    let mut message = "update available on stable channel: current=".to_owned();
    message.push_str(current);
    message.push_str(", latest=");
    message.push_str(release_tag);
    message
}

/// The message of a check on the canary channel.
pub open spec fn spec_canary_check_message(release_tag: Seq<char>) -> Seq<char> {
    "latest canary release tag: "@ + release_tag
        + "\nrun `bt self update --channel canary` to install it"@
}

/// The message of a check on the canary channel: the tag of the newest
/// release and how to install it.
pub fn canary_check_message(release_tag: &str) -> (message: String)
    ensures
        message@ == spec_canary_check_message(release_tag@),
{
    let mut message = "latest canary release tag: ".to_owned();
    message.push_str(release_tag);
    message.push_str("\nrun `bt self update --channel canary` to install it");
    message
}

/// The message of a check on the given channel.
pub fn check_message(channel: UpdateChannel, current: &str, release_tag: &str) -> (message: String)
    ensures
        message@ == match channel {
            UpdateChannel::Stable => spec_stable_check_message(current@, release_tag@),
            UpdateChannel::Canary => spec_canary_check_message(release_tag@),
        },
{
    match channel {
        UpdateChannel::Stable => stable_check_message(current, release_tag),
        UpdateChannel::Canary => canary_check_message(release_tag),
    }
}

/// The token to send with a check, if the given one is more than
/// whitespace: the token without the whitespace around it.
pub fn bearer_token(raw: &str) -> (token: Option<&str>)
    ensures
        match token {
            Some(t) => t@ == trimmed(raw@) && t@.len() > 0,
            None => trimmed(raw@).len() == 0,
        },
{
    let token = raw.trim();
    if token.is_empty() {
        None
    } else {
        Some(token)
    }
}

/// The file `bt-receipt.json` in the directory `bt` under `config_dir`.
pub open spec fn receipt_under(config_dir: Seq<char>) -> Seq<char> {
    joined_path(joined_path(config_dir, "bt"@), "bt-receipt.json"@)
}

/// Where the installer leaves its receipt: in the configuration directory
/// that is set, else in `.config` under the home directory.
pub open spec fn spec_receipt_path(
    xdg_config_home: Option<Seq<char>>,
    home: Option<Seq<char>>,
) -> Option<Seq<char>> {
    match xdg_config_home {
        Some(dir) => Some(receipt_under(dir)),
        None => match home {
            Some(dir) => Some(receipt_under(joined_path(dir, ".config"@))),
            None => None,
        },
    }
}

/// Where the installer leaves its receipt, given the configuration
/// directory and the home directory as far as they are set.
pub fn receipt_path_from(xdg_config_home: Option<&str>, home: Option<&str>) -> (path: Option<
    String,
>)
    ensures
        spec_receipt_path(view_of(xdg_config_home), view_of(home)) == view_of(path),
{
    let config_dir = match xdg_config_home {
        Some(dir) => dir.to_owned(),
        None => match home {
            Some(dir) => join_path(dir, ".config"),
            None => {
                return None;
            },
        },
    };
    let dir = join_path(config_dir.as_str(), "bt");
    Some(join_path(dir.as_str(), "bt-receipt.json"))
}

/// The directory of the executables that cargo installs: `bin` under the
/// cargo home that is set, else under `.cargo` in the home directory.
pub open spec fn spec_cargo_home_bin(
    cargo_home: Option<Seq<char>>,
    home: Option<Seq<char>>,
) -> Option<Seq<char>> {
    match cargo_home {
        Some(dir) => Some(joined_path(dir, "bin"@)),
        None => match home {
            Some(dir) => Some(joined_path(joined_path(dir, ".cargo"@), "bin"@)),
            None => None,
        },
    }
}

/// The directory of the executables that cargo installs, given the cargo
/// home and the home directory as far as they are set.
pub fn cargo_home_bin_from(cargo_home: Option<&str>, home: Option<&str>) -> (path: Option<String>)
    ensures
        spec_cargo_home_bin(view_of(cargo_home), view_of(home)) == view_of(path),
{
    match cargo_home {
        Some(dir) => Some(join_path(dir, "bin")),
        None => match home {
            Some(dir) => {
                let cargo = join_path(dir, ".cargo");
                Some(join_path(cargo.as_str(), "bin"))
            },
            None => None,
        },
    }
}

/// The message for an executable that the installer did not put in place.
pub fn unsupported_install_message(exe: &str) -> (message: String)
    ensures
        message@
            == "self-update is only supported for installer-based installs.\ncurrent executable: "@
            + exe@
            + "\nif this was installed with Homebrew/apt/choco/etc, update with that package manager"@,
{
    let mut message =
        "self-update is only supported for installer-based installs.\ncurrent executable: ".to_owned();
    message.push_str(exe);
    message.push_str(
        "\nif this was installed with Homebrew/apt/choco/etc, update with that package manager",
    );
    message
}

/// The shell command that fetches and runs the installer of a channel.
pub fn installer_command(channel: UpdateChannel) -> (command: String)
    ensures
        command@ == "curl -fsSL '"@ + channel.spec_installer_url() + "' | sh"@,
{
    let mut command = "curl -fsSL '".to_owned();
    command.push_str(channel.installer_url());
    command.push_str("' | sh");
    command
}

/// What is said before the installer of a channel runs.
pub fn updating_message(channel: UpdateChannel) -> (message: String)
    ensures
        message@ == "updating bt from "@ + channel.spec_name() + " channel..."@,
{
    let mut message = "updating bt from ".to_owned();
    message.push_str(channel.name());
    message.push_str(" channel...");
    message
}

/// The message for an installer that did not end well.
pub fn installer_failed_message(status: &str) -> (message: String)
    ensures
        message@ == "installer exited with status "@ + status@,
{
    let mut message = "installer exited with status ".to_owned();
    message.push_str(status);
    message
}

} // verus!
