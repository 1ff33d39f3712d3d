//! Version names of the compiler and of the framework tool: their two
//! spellings, their order, and which compiler a framework version needs.

use vstd::prelude::*;
use crate::text::{
    chars_of, string_of, views, split, split_on, parse_unsigned, parse_number, strip_leading,
    strip_leading_of, equals, equals_str, contains, has_str, push_all, push_str, slice,
};
use crate::errors::CleenError;

verus! {

/// A version name without the `v` in front of it.
pub open spec fn clean_version(v: Seq<char>) -> Seq<char> {
    if v.len() > 0 && v[0] == 'v' {
        v.drop_first()
    } else {
        v
    }
}

/// A version name as releases spell it: with a `v` in front, but for
/// `latest`.
pub open spec fn github_version(v: Seq<char>) -> Seq<char> {
    if v == "latest"@ || (v.len() > 0 && v[0] == 'v') {
        v
    } else {
        "v"@ + v
    }
}

/// Removes the `v` in front of a version name.
pub fn to_clean_version(version: &str) -> (r: String)
    ensures
        r@ == clean_version(version@),
{
    let v = chars_of(version);
    if v.len() > 0 && v[0] == 'v' {
        let t = slice(&v, 1, v.len());
        assert(t@ =~= v@.drop_first());
        string_of(&t)
    } else {
        string_of(&v)
    }
}

/// Puts a `v` in front of a version name that has none and is not `latest`.
pub fn to_github_version(version: &str) -> (r: String)
    ensures
        r@ == github_version(version@),
{
    let v = chars_of(version);
    if equals_str(&v, "latest") || (v.len() > 0 && v[0] == 'v') {
        string_of(&v)
    } else {
        let mut t: Vec<char> = Vec::new();
        push_str(&mut t, "v");
        push_all(&mut t, &v);
        string_of(&t)
    }
}

/// Decides whether two version names differ at most by the `v` in front.
pub fn versions_equal(a: &str, b: &str) -> (r: bool)
    ensures
        r == (clean_version(a@) == clean_version(b@)),
{
    let x = chars_of(to_clean_version(a).as_str());
    let y = chars_of(to_clean_version(b).as_str());
    equals(&x, &y)
}

/// The number at position `i` of a dotted version name; 0 where there is
/// none or where it is no number of 32 bits.
pub open spec fn version_part(v: Seq<char>, i: int) -> nat {
    let parts = split(strip_leading(v, 'v'), '.');
    if 0 <= i < parts.len() && parse_unsigned(parts[i], 0xFFFF_FFFF) is Some {
        parse_unsigned(parts[i], 0xFFFF_FFFF)->0
    } else {
        0
    }
}

/// Whether version `a` is at least version `b`, by major, minor and patch
/// number.
pub open spec fn version_gte(a: Seq<char>, b: Seq<char>) -> bool {
    let (a0, a1, a2) = (version_part(a, 0), version_part(a, 1), version_part(a, 2));
    let (b0, b1, b2) = (version_part(b, 0), version_part(b, 1), version_part(b, 2));
    a0 > b0 || (a0 == b0 && (a1 > b1 || (a1 == b1 && a2 >= b2)))
}

fn part_of(parts: &Vec<Vec<char>>, i: usize) -> (n: u32)
    ensures
        n == (if i < parts.len() && parse_unsigned(views(parts@)[i as int], 0xFFFF_FFFF) is Some {
            parse_unsigned(views(parts@)[i as int], 0xFFFF_FFFF)->0
        } else {
            0
        }),
{
    if i < parts.len() {
        match parse_number(&parts[i], 0xFFFF_FFFF) {
            Some(n) => n as u32,
            None => 0,
        }
    } else {
        0
    }
}

/// Parses a version name into major, minor and patch number.
pub fn parse_version(version: &str) -> (r: [u32; 3])
    ensures
        r[0] == version_part(version@, 0),
        r[1] == version_part(version@, 1),
        r[2] == version_part(version@, 2),
{
    let v = strip_leading_of(&chars_of(version), 'v');
    let parts = split_on(&v, '.');
    [part_of(&parts, 0), part_of(&parts, 1), part_of(&parts, 2)]
}

/// Decides whether version `a` is at least version `b`.
pub fn is_version_gte(a: &str, b: &str) -> (r: bool)
    ensures
        r == version_gte(a@, b@),
{
    let x = parse_version(a);
    let y = parse_version(b);
    x[0] > y[0] || (x[0] == y[0] && (x[1] > y[1] || (x[1] == y[1] && x[2] >= y[2])))
}

/// Which framework versions go with which compiler version.
#[derive(Debug)]
pub struct CompatibilityMatrix {
    /// Compiler versions, each with the framework versions that go with it.
    pub mappings: Vec<(String, Vec<String>)>,
}

/// The position of the first mapping from `i` on whose compiler version is
/// `key`, or the number of mappings.
pub open spec fn mapping_index(maps: Seq<(String, Vec<String>)>, key: Seq<char>, i: int) -> int
    decreases maps.len() - i,
{
    if i < 0 || i >= maps.len() {
        maps.len() as int
    } else if maps[i].0@ == key {
        i
    } else {
        mapping_index(maps, key, i + 1)
    }
}

/// The framework version that goes with a compiler version: the first one
/// of its mapping, where it has a mapping; else 0.1.0 for every compiler from
/// 0.14.0 on.
pub open spec fn compatible_frame(maps: Seq<(String, Vec<String>)>, compiler: Seq<char>) -> Option<Seq<char>> {
    let key = strip_leading(compiler, 'v');
    let k = mapping_index(maps, key, 0);
    if 0 <= k < maps.len() {
        if maps[k].1@.len() > 0 {
            Some(maps[k].1@[0]@)
        } else {
            None
        }
    } else if version_gte(key, "0.14.0"@) {
        Some("0.1.0"@)
    } else {
        None
    }
}

/// The compiler version that a framework version needs at least.
pub open spec fn required_compiler(frame: Seq<char>) -> Option<Seq<char>> {
    if strip_leading(frame, 'v') == "0.1.0"@ {
        Some("0.14.0"@)
    } else {
        None
    }
}

/// Whether a compiler version is new enough for a framework version.
pub open spec fn compatible(compiler: Seq<char>, frame: Seq<char>) -> bool {
    required_compiler(frame) is Some && version_gte(
        strip_leading(compiler, 'v'),
        required_compiler(frame)->0,
    )
}

impl CompatibilityMatrix {
    /// The matrix of the versions known so far.
    pub fn new() -> (m: Self)
        ensures
            m.mappings@.len() == 2,
            m.mappings@[0].0@ == "0.14.0"@,
            m.mappings@[1].0@ == "0.15.0"@,
            m.mappings@[0].1@.len() == 1 && m.mappings@[0].1@[0]@ == "0.1.0"@,
            m.mappings@[1].1@.len() == 1 && m.mappings@[1].1@[0]@ == "0.1.0"@,
    {
        let mut mappings: Vec<(String, Vec<String>)> = Vec::new();
        let mut first: Vec<String> = Vec::new();
        first.push(string_of(&chars_of("0.1.0")));
        mappings.push((string_of(&chars_of("0.14.0")), first));
        let mut second: Vec<String> = Vec::new();
        second.push(string_of(&chars_of("0.1.0")));
        mappings.push((string_of(&chars_of("0.15.0")), second));
        CompatibilityMatrix { mappings }
    }

    /// Finds the framework version that goes with a compiler version.
    pub fn find_compatible_frame_version(&self, compiler_version: &str) -> (r: Option<String>)
        ensures
            r is Some == compatible_frame(self.mappings@, compiler_version@) is Some,
            r matches Some(v) ==> compatible_frame(self.mappings@, compiler_version@) == Some(v@),
    {
        let key = strip_leading_of(&chars_of(compiler_version), 'v');
        let mut i: usize = 0;
        while i < self.mappings.len()
            invariant
                i <= self.mappings.len(),
                key@ == strip_leading(compiler_version@, 'v'),
                mapping_index(self.mappings@, key@, i as int) == mapping_index(
                    self.mappings@,
                    key@,
                    0,
                ),
            decreases self.mappings.len() - i,
        {
            if equals(&chars_of(self.mappings[i].0.as_str()), &key) {
                if self.mappings[i].1.len() > 0 {
                    return Some(string_of(&chars_of(self.mappings[i].1[0].as_str())));
                } else {
                    return None;
                }
            }
            i += 1;
        }
        if is_version_gte(string_of(&key).as_str(), "0.14.0") {
            Some(string_of(&chars_of("0.1.0")))
        } else {
            None
        }
    }

    /// Gives the compiler version that a framework version needs at least.
    pub fn get_required_compiler_version(&self, frame_version: &str) -> (r: Option<String>)
        ensures
            r is Some == required_compiler(frame_version@) is Some,
            r matches Some(v) ==> required_compiler(frame_version@) == Some(v@),
    {
        let f = strip_leading_of(&chars_of(frame_version), 'v');
        if equals_str(&f, "0.1.0") {
            Some(string_of(&chars_of("0.14.0")))
        } else {
            None
        }
    }

    /// Decides whether a compiler version is new enough for a framework
    /// version.
    pub fn is_compatible(&self, compiler_version: &str, frame_version: &str) -> (r: bool)
        ensures
            r == compatible(compiler_version@, frame_version@),
    {
        match self.get_required_compiler_version(frame_version) {
            Some(required) => {
                let c = strip_leading_of(&chars_of(compiler_version), 'v');
                is_version_gte(string_of(&c).as_str(), required.as_str())
            },
            None => false,
        }
    }
}

/// Checks that a compiler version is new enough for a framework version,
/// and says which one would be where it is not.
pub fn check_frame_compatibility(compiler_version: &str, frame_version: &str) -> (r: Result<(), CleenError>)
    ensures
        r is Ok == compatible(compiler_version@, frame_version@),
        r matches Err(e) ==> (e matches CleenError::FrameIncompatible {
            frame_version: f,
            required_compiler: q,
            current_compiler: c,
        } && f@ == frame_version@ && c@ == compiler_version@ && q@ == (match required_compiler(
            frame_version@,
        ) {
            Some(v) => v,
            None => "unknown"@,
        })),
{
    let matrix = CompatibilityMatrix::new();
    if matrix.is_compatible(compiler_version, frame_version) {
        return Ok(());
    }
    let required = match matrix.get_required_compiler_version(frame_version) {
        Some(v) => v,
        None => string_of(&chars_of("unknown")),
    };
    Err(
        CleenError::FrameIncompatible {
            frame_version: string_of(&chars_of(frame_version)),
            required_compiler: required,
            current_compiler: string_of(&chars_of(compiler_version)),
        },
    )
}

/// Whether a version name may name a directory: it is not empty and holds
/// neither `..` nor a slash nor a backslash.
pub open spec fn valid_version(v: Seq<char>) -> bool {
    v.len() > 0 && !contains(v, ".."@) && !contains(v, "/"@) && !contains(v, "\\"@)
}

/// Decides whether a version name may name a directory.
pub fn is_valid_version(version: &str) -> (b: bool)
    ensures
        b == valid_version(version@),
{
    let v = chars_of(version);
    v.len() > 0 && !has_str(&v, "..") && !has_str(&v, "/") && !has_str(&v, "\\")
}

} // verus!
