//! The state of the version manager: its settings, the paths below its
//! directory, and when it should look for updates.

use vstd::prelude::*;
use crate::text::{
    lines, lines_of, views, trim, trim_of, starts_with, has_prefix_str, split, split_on,
    strip_both, strip_both_of, equals, equals_str, chars_of, string_of, parse_unsigned,
    parse_number, all_digits, digits_value, push_all, push_str, push_decimal, decimal, slice,
};
use crate::errors::CleenError;
use crate::version::{valid_version, is_valid_version};

verus! {

/// The settings of the version manager.
#[derive(Debug, Clone)]
pub struct Config {
    /// The compiler version in use, where one is set.
    pub active_version: Option<String>,
    /// The framework version in use, where one is set.
    pub frame_version: Option<String>,
    /// The directory that holds everything the manager installs.
    pub cleen_dir: String,
    pub auto_cleanup: bool,
    pub github_api_token: Option<String>,
    /// Whether to look for updates at all.
    pub check_updates: bool,
    pub auto_offer_frame: bool,
    /// When updates of the compiler were last looked for, in seconds since
    /// the epoch, as text.
    pub last_update_check: Option<String>,
    /// When updates of the manager itself were last looked for.
    pub last_self_update_check: Option<String>,
}

/// The path `name` below the directory `base`: `name` itself where it
/// starts at the root, else `base`, a slash unless `base` is empty or ends
/// with one, and `name`.
pub open spec fn joined(base: Seq<char>, name: Seq<char>) -> Seq<char> {
    if name.len() > 0 && name[0] == '/' {
        name
    } else if base.len() == 0 || base.last() == '/' {
        base + name
    } else {
        base + "/"@ + name
    }
}

/// Joins a path to a directory.
pub fn join_path(base: &str, name: &str) -> (r: String)
    ensures
        r@ == joined(base@, name@),
{
    let b = chars_of(base);
    let n = chars_of(name);
    if n.len() > 0 && n[0] == '/' {
        return string_of(&n);
    }
    let mut out: Vec<char> = Vec::new();
    push_all(&mut out, &b);
    if !(b.len() == 0 || b[b.len() - 1] == '/') {
        push_str(&mut out, "/");
    }
    push_all(&mut out, &n);
    assert(out@ =~= joined(base@, name@));
    string_of(&out)
}

/// Asks `dirs::home_dir` for the home directory of the user and gives it as
/// text. The answer depends on the environment of the process, so nothing is
/// claimed of it.
#[verifier::external_body]
fn home_dir() -> (home: Option<String>) {
    match dirs::home_dir() {
        Some(p) => Some(p.to_string_lossy().into_owned()),
        None => None,
    }
}

/// The directory of the version manager below a home directory.
pub open spec fn cleen_dir_below(home: Seq<char>) -> Seq<char> {
    joined(home, ".cleen"@)
}

/// The directory of the version manager for a given home directory; without
/// a home directory there is none.
pub fn cleen_dir_in(home: Option<String>) -> (r: Result<String, CleenError>)
    ensures
        r is Ok == home is Some,
        r matches Ok(d) ==> d@ == cleen_dir_below(home->0@),
        r matches Err(e) ==> e matches CleenError::HomeDirectoryNotFound,
{
    match home {
        Some(h) => Ok(join_path(h.as_str(), ".cleen")),
        None => Err(CleenError::HomeDirectoryNotFound),
    }
}

/// The directory of the version manager of the user: `.cleen` below the home
/// directory, whatever that is, and an error where the user has none.
pub fn get_cleen_dir() -> (r: Result<String, CleenError>)
    ensures
        r matches Ok(d) ==> exists|home: Seq<char>| d@ == cleen_dir_below(home),
        r matches Err(e) ==> e matches CleenError::HomeDirectoryNotFound,
{
    let home = home_dir();
    let r = cleen_dir_in(home);
    proof {
        if r is Ok {
            assert(r->Ok_0@ == cleen_dir_below(home->0@));
        }
    }
    r
}

/// The settings file of the user: `config.json` in the directory of the
/// version manager.
pub fn get_config_path() -> (r: Result<String, CleenError>)
    ensures
        r matches Ok(p) ==> exists|home: Seq<char>|
            p@ == joined(cleen_dir_below(home), "config.json"@),
        r matches Err(e) ==> e matches CleenError::HomeDirectoryNotFound,
{
    let home = home_dir();
    match cleen_dir_in(home) {
        Ok(d) => {
            let p = join_path(d.as_str(), "config.json");
            assert(p@ == joined(cleen_dir_below(home->0@), "config.json"@));
            Ok(p)
        },
        Err(e) => Err(e),
    }
}

/// The number that `s` writes, as the signed integer types of 64 bits parse
/// it: an optional sign, then one digit or more, and a value in range.
pub open spec fn parse_signed(s: Seq<char>) -> Option<int> {
    if s.len() > 0 && s[0] == '-' {
        let body = s.drop_first();
        if body.len() > 0 && all_digits(body) && digits_value(body) <= 0x8000_0000_0000_0000 {
            Some(-(digits_value(body) as int))
        } else {
            None
        }
    } else {
        match parse_unsigned(s, 0x7FFF_FFFF_FFFF_FFFF) {
            Some(n) => Some(n as int),
            None => None,
        }
    }
}

fn parse_i64(v: &Vec<char>) -> (r: Option<i64>)
    ensures
        match r {
            Some(n) => parse_signed(v@) == Some(n as int),
            None => parse_signed(v@) is None,
        },
{
    if v.len() > 0 && v[0] == '-' {
        let body = slice(v, 1, v.len());
        assert(body@ =~= v@.drop_first());
        if body.len() > 0 && body[0] == '+' {
            assert(!all_digits(body@)) by {
                assert(body@[0] == '+');
            }
            return None;
        }
        match parse_number(&body, 0x8000_0000_0000_0000) {
            Some(n) => {
                if n == 0x8000_0000_0000_0000 {
                    Some(i64::MIN)
                } else {
                    Some(-(n as i64))
                }
            },
            None => None,
        }
    } else {
        match parse_number(v, 0x7FFF_FFFF_FFFF_FFFF) {
            Some(n) => Some(n as i64),
            None => None,
        }
    }
}

/// Whether it is time to look for updates again: looking is switched on, and
/// the last look is unknown, unreadable, or more than `period` seconds
/// before `now`.
pub open spec fn update_due(enabled: bool, last: Option<String>, now: int, period: int) -> bool {
    enabled && match last {
        None => true,
        Some(t) => match parse_signed(t@) {
            Some(then) => now - then > period,
            None => true,
        },
    }
}

fn is_due(enabled: bool, last: &Option<String>, now: i64, period: i64) -> (b: bool)
    requires
        0 <= period <= 0x7FFF_FFFF,
    ensures
        b == update_due(enabled, *last, now as int, period as int),
{
    if !enabled {
        return false;
    }
    match last {
        None => true,
        Some(t) => match parse_i64(&chars_of(t.as_str())) {
            Some(then) => {
                let diff: i128 = now as i128 - then as i128;
                diff > period as i128
            },
            None => true,
        },
    }
}

impl Config {
    /// Sets the compiler version in use.
    pub fn set_active_version(&mut self, version: String)
        ensures
            *final(self) == (Config { active_version: Some(version), ..*old(self) }),
    {
        self.active_version = Some(version);
    }

    /// Clears the compiler version in use.
    pub fn clear_active_version(&mut self)
        ensures
            *final(self) == (Config { active_version: None, ..*old(self) }),
    {
        self.active_version = None;
    }

    /// The version to use: the project's own, where it has one, else the
    /// active one.
    pub fn get_effective_version(&self, project_version: Option<String>) -> (r: Option<String>)
        ensures
            r is Some == (project_version is Some || self.active_version is Some),
            r matches Some(v) ==> v@ == (match project_version {
                Some(p) => p@,
                None => self.active_version->0@,
            }),
    {
        match project_version {
            Some(p) => Some(p),
            None => match &self.active_version {
                Some(v) => Some(string_of(&chars_of(v.as_str()))),
                None => None,
            },
        }
    }

    /// The directory of the installed compiler versions.
    pub open spec fn versions_dir(&self) -> Seq<char> {
        joined(self.cleen_dir@, "versions"@)
    }

    /// The directory of the shims.
    pub open spec fn bin_dir(&self) -> Seq<char> {
        joined(self.cleen_dir@, "bin"@)
    }

    /// The directory of the installed compiler versions.
    pub fn get_versions_dir(&self) -> (r: String)
        ensures
            r@ == self.versions_dir(),
    {
        join_path(self.cleen_dir.as_str(), "versions")
    }

    /// The directory of the shims.
    pub fn get_bin_dir(&self) -> (r: String)
        ensures
            r@ == self.bin_dir(),
    {
        join_path(self.cleen_dir.as_str(), "bin")
    }

    /// The directory of one compiler version.
    pub fn get_version_dir(&self, version: &str) -> (r: String)
        ensures
            r@ == joined(self.versions_dir(), version@),
    {
        join_path(self.get_versions_dir().as_str(), version)
    }

    /// The compiler binary of one version.
    pub fn get_version_binary(&self, version: &str) -> (r: String)
        ensures
            r@ == joined(joined(self.versions_dir(), version@), "cln"@),
    {
        join_path(self.get_version_dir(version).as_str(), "cln")
    }

    /// The file of compile options of one compiler version.
    pub fn get_version_compile_options(&self, version: &str) -> (r: String)
        ensures
            r@ == joined(joined(self.versions_dir(), version@), "compile-options.json"@),
    {
        join_path(self.get_version_dir(version).as_str(), "compile-options.json")
    }

    /// The shim of the compiler.
    pub fn get_shim_path(&self) -> (r: String)
        ensures
            r@ == joined(self.bin_dir(), "cln"@),
    {
        join_path(self.get_bin_dir().as_str(), "cln")
    }

    /// Whether it is time to look for updates of the compiler: at most once
    /// a day.
    pub fn should_check_updates(&self, now: i64) -> (b: bool)
        ensures
            b == update_due(self.check_updates, self.last_update_check, now as int, 86400),
    {
        is_due(self.check_updates, &self.last_update_check, now, 86400)
    }

    /// Notes that updates of the compiler were looked for at `now`.
    pub fn update_last_check_time(&mut self, now: u64)
        ensures
            final(self).last_update_check is Some,
            final(self).last_update_check->0@ == decimal(now as nat),
            *final(self) == (Config {
                last_update_check: final(self).last_update_check,
                ..*old(self)
            }),
    {
        let mut t: Vec<char> = Vec::new();
        push_decimal(&mut t, now);
        assert(t@ =~= decimal(now as nat));
        self.last_update_check = Some(string_of(&t));
    }

    /// Whether it is time to look for updates of the manager itself: at most
    /// once a week.
    pub fn should_check_self_updates(&self, now: i64) -> (b: bool)
        ensures
            b == update_due(self.check_updates, self.last_self_update_check, now as int, 604800),
    {
        is_due(self.check_updates, &self.last_self_update_check, now, 604800)
    }

    /// Notes that updates of the manager itself were looked for at `now`.
    pub fn update_last_self_check_time(&mut self, now: u64)
        ensures
            final(self).last_self_update_check is Some,
            final(self).last_self_update_check->0@ == decimal(now as nat),
            *final(self) == (Config {
                last_self_update_check: final(self).last_self_update_check,
                ..*old(self)
            }),
    {
        let mut t: Vec<char> = Vec::new();
        push_decimal(&mut t, now);
        assert(t@ =~= decimal(now as nat));
        self.last_self_update_check = Some(string_of(&t));
    }

    /// The directory of the installed versions of the framework tool.
    pub open spec fn frame_versions_dir(&self) -> Seq<char> {
        joined(self.versions_dir(), "frame"@)
    }

    /// The directory of the installed versions of the framework tool.
    pub fn get_frame_versions_dir(&self) -> (r: String)
        ensures
            r@ == self.frame_versions_dir(),
    {
        join_path(self.get_versions_dir().as_str(), "frame")
    }

    /// The directory of one version of the framework tool.
    pub fn get_frame_version_dir(&self, version: &str) -> (r: String)
        ensures
            r@ == joined(self.frame_versions_dir(), version@),
    {
        join_path(self.get_frame_versions_dir().as_str(), version)
    }

    /// The binary of one version of the framework tool.
    pub fn get_frame_version_binary(&self, version: &str) -> (r: String)
        ensures
            r@ == joined(joined(self.frame_versions_dir(), version@), "frame"@),
    {
        join_path(self.get_frame_version_dir(version).as_str(), "frame")
    }

    /// The shim of the framework tool.
    pub fn get_frame_shim_path(&self) -> (r: String)
        ensures
            r@ == joined(self.bin_dir(), "frame"@),
    {
        join_path(self.get_bin_dir().as_str(), "frame")
    }
}

/// An installed compiler version.
#[derive(Debug, Clone)]
pub struct VersionInfo {
    pub version: String,
    pub is_active: bool,
    pub binary_path: String,
    pub is_valid: bool,
}

/// The manager of the installed compiler versions.
pub struct VersionManager {
    pub config: Config,
}

impl VersionManager {
    /// The manager of the compiler versions under the given settings.
    pub fn new(config: Config) -> (m: Self)
        ensures
            m.config == config,
    {
        VersionManager { config }
    }

    /// The compiler version in use, where one is set.
    pub fn get_active_version(&self) -> (r: Option<&String>)
        ensures
            r is Some == self.config.active_version is Some,
            r matches Some(v) ==> *v == self.config.active_version->0,
    {
        self.config.active_version.as_ref()
    }

    /// Checks that a version name may name a directory.
    pub fn validate_version(&self, version: &str) -> (r: Result<(), CleenError>)
        ensures
            r is Ok == valid_version(version@),
            r matches Err(e) ==> (e matches CleenError::InvalidVersion { version: v } && v@
                == version@),
    {
        if is_valid_version(version) {
            Ok(())
        } else {
            Err(CleenError::InvalidVersion { version: string_of(&chars_of(version)) })
        }
    }

    /// The settings that the manager works with.
    pub fn get_config(&self) -> (c: &Config)
        ensures
            *c == self.config,
    {
        &self.config
    }
}

/// The manager of the shims.
pub struct ShimManager {
    pub config: Config,
}

impl ShimManager {
    /// The manager of the shims under the given settings.
    pub fn new(config: Config) -> (m: Self)
        ensures
            m.config == config,
    {
        ShimManager { config }
    }

    /// The version that the shim should start: the project's own, where it
    /// has one, else the active one.
    pub fn get_effective_version(&self, project_version: Option<String>) -> (r: Option<String>)
        ensures
            r is Some == (project_version is Some || self.config.active_version is Some),
            r matches Some(v) ==> v@ == (match project_version {
                Some(p) => p@,
                None => self.config.active_version->0@,
            }),
    {
        self.config.get_effective_version(project_version)
    }

    /// The version that the shim starts at present; see
    /// `get_effective_version`.
    pub fn get_current_shim_target(&self, project_version: Option<String>) -> (r: Option<String>)
        ensures
            r is Some == (project_version is Some || self.config.active_version is Some),
            r matches Some(v) ==> v@ == (match project_version {
                Some(p) => p@,
                None => self.config.active_version->0@,
            }),
    {
        self.get_effective_version(project_version)
    }

    /// The settings that the manager works with.
    pub fn get_config(&self) -> (c: &Config)
        ensures
            *c == self.config,
    {
        &self.config
    }
}

/// A file of a release.
#[derive(Debug, Clone)]
pub struct Asset {
    pub name: String,
    pub browser_download_url: String,
    pub size: u64,
}

/// A release of the compiler or of the framework tool.
#[derive(Debug, Clone)]
pub struct Release {
    pub tag_name: String,
    pub name: String,
    pub prerelease: bool,
    pub draft: bool,
    pub assets: Vec<Asset>,
}

/// The client of the release service.
pub struct GitHubClient {
    pub github_token: Option<String>,
}

impl GitHubClient {
    /// The client that signs its requests with the given token, where there
    /// is one.
    pub fn new(github_token: Option<String>) -> (c: Self)
        ensures
            c.github_token == github_token,
    {
        GitHubClient { github_token }
    }
}

/// The downloader of release files.
pub struct Downloader;

impl Downloader {
    /// The downloader.
    pub fn new() -> (d: Self) {
        Downloader
    }
}



/// Whether the framework tool depends on a compiler version: a framework
/// version is in use, and the compiler version is the active one.
pub open spec fn frame_depends_on(config: Config, version: Seq<char>) -> bool {
    config.frame_version is Some && config.active_version is Some && config.active_version->0@
        == version
}

/// Decides whether the framework tool depends on a compiler version.
pub fn check_frame_dependency(config: &Config, version: &str) -> (b: bool)
    ensures
        b == frame_depends_on(*config, version@),
{
    if config.frame_version.is_none() {
        return false;
    }
    match &config.active_version {
        Some(v) => equals(&chars_of(v.as_str()), &chars_of(version)),
        None => false,
    }
}

/// The command that reloads the configuration of a shell: for `fish` its
/// own file, for every other shell the file given, or `~/.bashrc`.
pub open spec fn reload_command(shell: Seq<char>, config_path: Option<Seq<char>>) -> Seq<char> {
    if shell == "fish"@ {
        "source ~/.config/fish/config.fish"@
    } else {
        "source "@ + (match config_path {
            Some(p) => p,
            None => "~/.bashrc"@,
        })
    }
}

/// Gives the command that reloads the configuration of a shell.
pub fn get_reload_instructions(shell: &str, config_path: Option<&str>) -> (r: String)
    ensures
        r@ == reload_command(
            shell@,
            match config_path {
                Some(p) => Some(p@),
                None => None,
            },
        ),
{
    if equals_str(&chars_of(shell), "fish") {
        return string_of(&chars_of("source ~/.config/fish/config.fish"));
    }
    let mut out: Vec<char> = Vec::new();
    push_str(&mut out, "source ");
    match config_path {
        Some(p) => push_str(&mut out, p),
        None => push_str(&mut out, "~/.bashrc"),
    }
    string_of(&out)
}

/// The entry point that one line of a project file names: on a line that
/// begins with `entry` and has a `=`, what follows the first `=` up to the
/// next one, without white space and quotes around it.
pub open spec fn entry_in_line(line: Seq<char>) -> Option<Seq<char>> {
    let t = trim(line);
    let parts = split(t, '=');
    if starts_with(t, "entry"@) && parts.len() >= 2 {
        Some(strip_both(strip_both(trim(parts[1]), '"'), '\''))
    } else {
        None
    }
}

/// The entry point that the first line from `i` on names that names one.
pub open spec fn entry_from(ls: Seq<Seq<char>>, i: int) -> Option<Seq<char>>
    decreases ls.len() - i,
{
    if i < 0 || i >= ls.len() {
        None
    } else if entry_in_line(ls[i]) is Some {
        entry_in_line(ls[i])
    } else {
        entry_from(ls, i + 1)
    }
}

/// Finds the entry point that a project file names.
pub fn parse_entry_from_toml(content: &str) -> (r: Option<String>)
    ensures
        r is Some == entry_from(lines(content@), 0) is Some,
        r matches Some(e) ==> entry_from(lines(content@), 0) == Some(e@),
{
    let ls = lines_of(&chars_of(content));
    let mut i: usize = 0;
    while i < ls.len()
        invariant
            i <= ls.len(),
            views(ls@) == lines(content@),
            entry_from(views(ls@), i as int) == entry_from(views(ls@), 0),
        decreases ls.len() - i,
    {
        assert(views(ls@)[i as int] == ls@[i as int]@);
        let t = trim_of(&ls[i]);
        if has_prefix_str(&t, "entry") {
            let parts = split_on(&t, '=');
            if parts.len() >= 2 {
                assert(views(parts@)[1] == parts@[1]@);
                let value = strip_both_of(&strip_both_of(&trim_of(&parts[1]), '"'), '\'');
                return Some(string_of(&value));
            }
        }
        i += 1;
    }
    None
}

} // verus!
