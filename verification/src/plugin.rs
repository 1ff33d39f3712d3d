//! Plugins: their manifests, their specifiers, the compiler they need, and
//! the registry, which does not serve anything yet.

use vstd::prelude::*;
use crate::text::{
    chars_of, string_of, views, split, split_on, parse_unsigned, parse_number, strip_leading,
    strip_leading_of, last_char, scan_last_char, slice, push_str, is_alnum,
    is_alnum_char,
};
use crate::errors::CleenError;
use crate::manager::Config;

verus! {

/// What a manifest says of the plugin itself.
#[derive(Debug, Clone)]
pub struct PluginMetadata {
    pub name: String,
    pub version: String,
    pub description: Option<String>,
    pub author: Option<String>,
    pub license: Option<String>,
    pub repository: Option<String>,
}

/// The compiler versions that a plugin works with.
#[derive(Debug, Clone)]
pub struct PluginCompatibility {
    pub min_compiler_version: Option<String>,
    pub max_compiler_version: Option<String>,
}

/// The names of the functions that a plugin exports.
#[derive(Debug, Clone)]
pub struct PluginExports {
    pub expand: String,
    pub validate: String,
}

/// The plugins that a plugin depends on, each with its version.
#[derive(Debug, Clone)]
pub struct PluginDependencies {
    pub plugins: Vec<(String, String)>,
}

/// The manifest of a plugin.
#[derive(Debug, Clone)]
pub struct PluginManifest {
    pub plugin: PluginMetadata,
    pub compatibility: PluginCompatibility,
    pub exports: PluginExports,
    pub dependencies: PluginDependencies,
}

/// An installed plugin.
#[derive(Debug, Clone)]
pub struct InstalledPlugin {
    pub name: String,
    pub version: String,
    pub manifest: PluginManifest,
}

/// What the registry knows of a plugin.
#[derive(Debug, Clone)]
pub struct PluginInfo {
    pub name: String,
    pub version: String,
    pub description: Option<String>,
    pub download_url: String,
    pub checksum: Option<String>,
}

/// Whether `c` may stand in a plugin's name.
pub open spec fn name_char(c: char) -> bool {
    is_alnum(c) || c == '.' || c == '-' || c == '_'
}

/// Whether every character of `s` may stand in a plugin's name.
pub open spec fn name_chars(s: Seq<char>) -> bool {
    forall|i: int| 0 <= i < s.len() ==> name_char(#[trigger] s[i])
}

fn has_name_chars(v: &Vec<char>) -> (b: bool)
    ensures
        b == name_chars(v@),
{
    let mut i: usize = 0;
    while i < v.len()
        invariant
            i <= v.len(),
            forall|k: int| 0 <= k < i ==> name_char(#[trigger] v@[k]),
        decreases v.len() - i,
    {
        let c = v[i];
        if !(is_alnum_char(c) || c == '.' || c == '-' || c == '_') {
            assert(!name_char(v@[i as int]));
            return false;
        }
        i += 1;
    }
    true
}

/// The message of the error that the validation of a manifest gives, where
/// it gives one: for a missing name, for a missing version, and for a name
/// with a character that may not stand in it, in this order.
pub open spec fn manifest_fault(name: Seq<char>, version: Seq<char>) -> Option<Seq<char>> {
    if name.len() == 0 {
        Some("Plugin name is required"@)
    } else if version.len() == 0 {
        Some("Plugin version is required"@)
    } else if !name_chars(name) {
        Some(
            "Plugin name can only contain alphanumeric characters, dots, hyphens, and underscores"@,
        )
    } else {
        None
    }
}

impl PluginManifest {
    /// A manifest for a new plugin of the given name.
    pub fn new(name: &str) -> (m: Self)
        ensures
            m.plugin.name@ == name@,
            m.plugin.version@ == "0.1.0"@,
            m.plugin.description is Some && m.plugin.description->0@ == name@
                + " plugin for Clean Language"@,
            m.plugin.author is None,
            m.plugin.license is Some && m.plugin.license->0@ == "MIT"@,
            m.plugin.repository is None,
            m.compatibility.min_compiler_version is Some
                && m.compatibility.min_compiler_version->0@ == "0.15.0"@,
            m.compatibility.max_compiler_version is None,
            m.exports.expand@ == "expand_block"@,
            m.exports.validate@ == "validate_block"@,
            m.dependencies.plugins@.len() == 0,
    {
        let mut d: Vec<char> = Vec::new();
        push_str(&mut d, name);
        push_str(&mut d, " plugin for Clean Language");
        assert(d@ =~= name@ + " plugin for Clean Language"@);
        PluginManifest {
            plugin: PluginMetadata {
                name: string_of(&chars_of(name)),
                version: string_of(&chars_of("0.1.0")),
                description: Some(string_of(&d)),
                author: None,
                license: Some(string_of(&chars_of("MIT"))),
                repository: None,
            },
            compatibility: PluginCompatibility {
                min_compiler_version: Some(string_of(&chars_of("0.15.0"))),
                max_compiler_version: None,
            },
            exports: PluginExports {
                expand: string_of(&chars_of("expand_block")),
                validate: string_of(&chars_of("validate_block")),
            },
            dependencies: PluginDependencies { plugins: Vec::new() },
        }
    }

    /// Checks that the manifest names the plugin and its version, and that
    /// the name holds only characters that may stand in it.
    pub fn validate(&self) -> (r: Result<(), CleenError>)
        ensures
            r is Ok == manifest_fault(self.plugin.name@, self.plugin.version@) is None,
            r matches Err(e) ==> (e matches CleenError::PluginManifestError { message } && Some(
                message@,
            ) == manifest_fault(self.plugin.name@, self.plugin.version@)),
    {
        let name = chars_of(self.plugin.name.as_str());
        let version = chars_of(self.plugin.version.as_str());
        if name.len() == 0 {
            return Err(
                CleenError::PluginManifestError {
                    message: string_of(&chars_of("Plugin name is required")),
                },
            );
        }
        if version.len() == 0 {
            return Err(
                CleenError::PluginManifestError {
                    message: string_of(&chars_of("Plugin version is required")),
                },
            );
        }
        if !has_name_chars(&name) {
            return Err(
                CleenError::PluginManifestError {
                    message: string_of(
                        &chars_of(
                            "Plugin name can only contain alphanumeric characters, dots, hyphens, and underscores",
                        ),
                    ),
                },
            );
        }
        Ok(())
    }
}

/// The message of the error that a name for a new plugin gives, where it
/// gives one.
pub open spec fn new_name_fault(name: Seq<char>) -> Option<Seq<char>> {
    if name.len() == 0 {
        Some("Plugin name cannot be empty"@)
    } else if !name_chars(name) {
        Some(
            "Plugin name can only contain alphanumeric characters, dots, hyphens, and underscores"@,
        )
    } else {
        None
    }
}

/// Checks the name of a plugin that is to be created.
pub fn create_plugin(name: &str) -> (r: Result<(), CleenError>)
    ensures
        r is Ok == new_name_fault(name@) is None,
        r matches Err(e) ==> (e matches CleenError::PluginManifestError { message } && Some(
            message@,
        ) == new_name_fault(name@)),
{
    let v = chars_of(name);
    if v.len() == 0 {
        return Err(
            CleenError::PluginManifestError {
                message: string_of(&chars_of("Plugin name cannot be empty")),
            },
        );
    }
    if !has_name_chars(&v) {
        return Err(
            CleenError::PluginManifestError {
                message: string_of(
                    &chars_of(
                        "Plugin name can only contain alphanumeric characters, dots, hyphens, and underscores",
                    ),
                ),
            },
        );
    }
    Ok(())
}

/// The name in a plugin specifier: what stands before its last `@`, or all
/// of it.
pub open spec fn specifier_name(s: Seq<char>) -> Seq<char> {
    let k = last_char(s, '@', s.len() as int);
    if 0 <= k < s.len() {
        s.subrange(0, k)
    } else {
        s
    }
}

/// The version in a plugin specifier: what follows its last `@`, where it
/// has one.
pub open spec fn specifier_version(s: Seq<char>) -> Option<Seq<char>> {
    let k = last_char(s, '@', s.len() as int);
    if 0 <= k < s.len() {
        Some(s.subrange(k + 1, s.len() as int))
    } else {
        None
    }
}

/// Parses a plugin specifier, such as "frame.web" or "frame.web@1.0.0".
pub fn parse_plugin_specifier(specifier: &str) -> (r: (String, Option<String>))
    ensures
        r.0@ == specifier_name(specifier@),
        r.1 is Some == specifier_version(specifier@) is Some,
        r.1 matches Some(v) ==> specifier_version(specifier@) == Some(v@),
{
    let v = chars_of(specifier);
    match scan_last_char(&v, '@') {
        Some(k) => (string_of(&slice(&v, 0, k)), Some(string_of(&slice(&v, k + 1, v.len())))),
        None => (string_of(&v), None),
    }
}

/// The numbers among the first `n` parts of a dotted version; parts that
/// are no numbers of 32 bits are left out.
pub open spec fn numbers(parts: Seq<Seq<char>>, n: nat) -> Seq<nat>
    decreases n,
{
    if n == 0 || n > parts.len() {
        Seq::empty()
    } else {
        match parse_unsigned(parts[n - 1], 0xFFFF_FFFF) {
            Some(x) => numbers(parts, (n - 1) as nat).push(x),
            None => numbers(parts, (n - 1) as nat),
        }
    }
}

/// The numbers of a version name.
pub open spec fn version_numbers(v: Seq<char>) -> Seq<nat> {
    let parts = split(strip_leading(v, 'v'), '.');
    numbers(parts, parts.len())
}

/// The number at position `i`, or 0 behind the end.
pub open spec fn number_at(a: Seq<nat>, i: int) -> nat {
    if 0 <= i < a.len() {
        a[i]
    } else {
        0
    }
}

/// Whether `a` is at least `b` from position `i` on, number by number, the
/// shorter one filled up with zeros.
pub open spec fn at_least_from(a: Seq<nat>, b: Seq<nat>, i: int) -> bool
    decreases a.len() + b.len() - i,
{
    if i < 0 || (i >= a.len() && i >= b.len()) {
        true
    } else if number_at(a, i) > number_at(b, i) {
        true
    } else if number_at(a, i) < number_at(b, i) {
        false
    } else {
        at_least_from(a, b, i + 1)
    }
}

/// Whether the version `current` is at least the version `required`.
pub open spec fn satisfies(current: Seq<char>, required: Seq<char>) -> bool {
    at_least_from(version_numbers(current), version_numbers(required), 0)
}

fn version_numbers_of(v: &Vec<char>) -> (r: Vec<u32>)
    ensures
        r@.len() == version_numbers(v@).len(),
        forall|i: int| 0 <= i < r@.len() ==> r@[i] as nat == version_numbers(v@)[i],
{
    let parts = split_on(&strip_leading_of(v, 'v'), '.');
    let mut r: Vec<u32> = Vec::new();
    let mut i: usize = 0;
    while i < parts.len()
        invariant
            i <= parts.len(),
            r@.len() == numbers(views(parts@), i as nat).len(),
            forall|k: int| 0 <= k < r@.len() ==> r@[k] as nat == numbers(views(parts@), i as nat)[k],
        decreases parts.len() - i,
    {
        match parse_number(&parts[i], 0xFFFF_FFFF) {
            Some(n) => {
                r.push(n as u32);
            },
            None => {},
        }
        i += 1;
    }
    r
}

/// Decides whether the version `current` is at least the version
/// `required`.
pub fn version_satisfies(current: &str, required: &str) -> (b: bool)
    ensures
        b == satisfies(current@, required@),
{
    let a = version_numbers_of(&chars_of(current));
    let r = version_numbers_of(&chars_of(required));
    let ghost sa = version_numbers(current@);
    let ghost sr = version_numbers(required@);
    let mut i: usize = 0;
    while i < a.len() || i < r.len()
        invariant
            sa == version_numbers(current@),
            sr == version_numbers(required@),
            a@.len() == sa.len(),
            r@.len() == sr.len(),
            forall|k: int| 0 <= k < a@.len() ==> a@[k] as nat == sa[k],
            forall|k: int| 0 <= k < r@.len() ==> r@[k] as nat == sr[k],
            at_least_from(sa, sr, i as int) == at_least_from(sa, sr, 0),
        decreases a.len() + r.len() - i,
    {
        let x: u32 = if i < a.len() { a[i] } else { 0 };
        let y: u32 = if i < r.len() { r[i] } else { 0 };
        assert(x as nat == number_at(sa, i as int));
        assert(y as nat == number_at(sr, i as int));
        if x > y {
            return true;
        } else if x < y {
            return false;
        }
        i += 1;
    }
    true
}

/// Checks that the active compiler is new enough for a plugin.
pub fn check_plugin_compatibility(config: &Config, manifest: &PluginManifest) -> (r: Result<(), CleenError>)
    ensures
        r is Ok == (config.active_version is Some && (
        manifest.compatibility.min_compiler_version matches Some(min) ==> satisfies(
            config.active_version->0@,
            min@,
        ))),
        r is Err && config.active_version is None ==> r->Err_0 == CleenError::NoCompilerForPlugin,
        r is Err && config.active_version is Some ==> (r->Err_0 matches CleenError::PluginIncompatible {
            name,
            required,
            current,
        } && name@ == manifest.plugin.name@ && required@
            == manifest.compatibility.min_compiler_version->0@ && current@
            == config.active_version->0@),
{
    let current = match &config.active_version {
        Some(v) => string_of(&chars_of(v.as_str())),
        None => {
            return Err(CleenError::NoCompilerForPlugin);
        },
    };
    match &manifest.compatibility.min_compiler_version {
        Some(min) => {
            if !version_satisfies(current.as_str(), min.as_str()) {
                return Err(
                    CleenError::PluginIncompatible {
                        name: string_of(&chars_of(manifest.plugin.name.as_str())),
                        required: string_of(&chars_of(min.as_str())),
                        current,
                    },
                );
            }
        },
        None => {},
    }
    Ok(())
}

/// The address of the plugin registry.
pub open spec fn registry_url() -> Seq<char> {
    "https://plugins.cleanlang.org"@
}

/// The client of the plugin registry.
pub struct RegistryClient {
    pub base_url: String,
}

impl RegistryClient {
    /// The client of the registry at its usual address.
    pub fn new() -> (c: Self)
        ensures
            c.base_url@ == registry_url(),
    {
        RegistryClient { base_url: string_of(&chars_of("https://plugins.cleanlang.org")) }
    }

    /// Asks the registry for a plugin. The registry does not serve anything
    /// yet: the answer is always the error that says so.
    pub fn get_plugin_info(&self, name: &str, _version: Option<&str>) -> (r: Result<PluginInfo, CleenError>)
        ensures
            r matches Err(CleenError::PluginRegistryError { message }) && message@
                == "Plugin registry not yet available. Cannot fetch '"@ + name@ + "' from "@
                + self.base_url@,
    {
        let mut m: Vec<char> = Vec::new();
        push_str(&mut m, "Plugin registry not yet available. Cannot fetch '");
        push_str(&mut m, name);
        push_str(&mut m, "' from ");
        push_str(&mut m, self.base_url.as_str());
        assert(m@ =~= "Plugin registry not yet available. Cannot fetch '"@ + name@ + "' from "@
            + self.base_url@);
        Err(CleenError::PluginRegistryError { message: string_of(&m) })
    }

    /// Asks the registry for all plugins; see `get_plugin_info`.
    pub fn list_available(&self) -> (r: Result<Vec<PluginInfo>, CleenError>)
        ensures
            r matches Err(CleenError::PluginRegistryError { message }) && message@
                == "Plugin registry not yet available at "@ + self.base_url@,
    {
        let mut m: Vec<char> = Vec::new();
        push_str(&mut m, "Plugin registry not yet available at ");
        push_str(&mut m, self.base_url.as_str());
        Err(CleenError::PluginRegistryError { message: string_of(&m) })
    }

    /// Searches the registry; see `get_plugin_info`.
    pub fn search(&self, query: &str) -> (r: Result<Vec<PluginInfo>, CleenError>)
        ensures
            r matches Err(CleenError::PluginRegistryError { message }) && message@
                == "Plugin registry search not yet available. Query: '"@ + query@ + "'"@,
    {
        let mut m: Vec<char> = Vec::new();
        push_str(&mut m, "Plugin registry search not yet available. Query: '");
        push_str(&mut m, query);
        push_str(&mut m, "'");
        assert(m@ =~= "Plugin registry search not yet available. Query: '"@ + query@ + "'"@);
        Err(CleenError::PluginRegistryError { message: string_of(&m) })
    }

    /// Publishes a plugin; see `get_plugin_info`.
    pub fn publish(&self, _manifest: &PluginManifest, _wasm_path: &str) -> (r: Result<(), CleenError>)
        ensures
            r matches Err(CleenError::PluginRegistryError { message }) && message@
                == "Plugin publishing not yet available. Registry is planned for future release."@,
    {
        Err(
            CleenError::PluginRegistryError {
                message: string_of(
                    &chars_of(
                        "Plugin publishing not yet available. Registry is planned for future release.",
                    ),
                ),
            },
        )
    }
}

} // verus!
