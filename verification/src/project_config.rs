//! The project configuration: a port, explicit imports, and the routes whose
//! handlers were compiled elsewhere, read from a line-oriented text.

use vstd::prelude::*;
use crate::text::{
    chars_of, string_of, trim, starts_with, views, lines, lines_of, trim_of, has_prefix_str,
    equals_str, strings_of, string_views, slice, split, split_on, next_char, scan_char,
    last_char, scan_last_char, parse_unsigned, parse_number, strip_both, strip_both_of,
};

verus! {

/// A route from the configuration's `routes:` section: its handler exists
/// already, under the index given.
#[derive(Debug, Clone, PartialEq)]
pub struct ConfigRoute {
    /// HTTP method.
    pub method: String,
    /// URL path, such as "/api/health".
    pub path: String,
    /// Index of the handler.
    pub index: usize,
}

/// The settings of a project.
#[derive(Debug)]
pub struct ProjectConfig {
    /// Port of the server; 3000 where none is set.
    pub port: u16,
    /// Explicit import paths.
    pub imports: Vec<String>,
    /// Routes with handlers of their own.
    pub routes: Vec<ConfigRoute>,
}

/// A configured route as plain values.
pub ghost struct RouteView {
    pub method: Seq<char>,
    pub path: Seq<char>,
    pub index: nat,
}

/// A configured route as plain values.
pub open spec fn route_view(r: ConfigRoute) -> RouteView {
    RouteView { method: r.method@, path: r.path@, index: r.index as nat }
}

/// The configured routes as plain values, in order.
pub open spec fn route_views(rs: Seq<ConfigRoute>) -> Seq<RouteView> {
    Seq::new(rs.len(), |i: int| route_view(rs[i]))
}

impl Default for ProjectConfig {
    fn default() -> (c: Self)
        ensures
            c.port == 3000,
            c.imports@.len() == 0,
            c.routes@.len() == 0,
    {
        ProjectConfig { port: 3000, imports: Vec::new(), routes: Vec::new() }
    }
}

/// The parts of a line of the form `METHOD /path = index`: method, path and
/// the text of the index.
///
/// The line is cut at its last `=`: what follows is the index, what precedes
/// is cut at its first space into method and path. A line has this form
/// where it has a `=`, a space on the left of it, and neither method nor
/// path is empty.
pub open spec fn route_parts(line: Seq<char>) -> Option<(Seq<char>, Seq<char>, Seq<char>)> {
    let t = trim(line);
    let k = last_char(t, '=', t.len() as int);
    if k < 0 || k >= t.len() {
        None
    } else {
        let left = trim(t.subrange(0, k));
        let sp = next_char(left, ' ', 0);
        if sp < 0 || sp >= left.len() {
            None
        } else {
            let method = trim(left.subrange(0, sp));
            let path = trim(left.subrange(sp + 1, left.len() as int));
            if method.len() == 0 || path.len() == 0 {
                None
            } else {
                Some((method, path, trim(t.subrange(k + 1, t.len() as int))))
            }
        }
    }
}

/// The route that one line of the `routes:` section declares: the line has
/// the form of a route, and its index is a number of the machine's word
/// size.
pub open spec fn parse_route(line: Seq<char>) -> Option<RouteView> {
    match route_parts(line) {
        Some((method, path, index)) => match parse_unsigned(index, usize::MAX as nat) {
            Some(n) => Some(RouteView { method, path, index: n }),
            None => None,
        },
        None => None,
    }
}

/// Parses one line of the `routes:` section, of the form
/// `METHOD /path = index`.
pub fn parse_config_route_line(line: &str) -> (r: Option<ConfigRoute>)
    ensures
        r is Some == parse_route(line@) is Some,
        r matches Some(route) ==> parse_route(line@) == Some(route_view(route)),
{
    let v = chars_of(line);
    match route_parts_chars(&v) {
        Some(parts) => route_of_parts(parts),
        None => None,
    }
}

/// Cuts a line of the `routes:` section into its parts.
fn route_parts_chars(v: &Vec<char>) -> (r: Option<(Vec<char>, Vec<char>, Vec<char>)>)
    ensures
        r is Some == route_parts(v@) is Some,
        r matches Some(p) ==> route_parts(v@) == Some((p.0@, p.1@, p.2@)),
{
    let t = trim_of(v);
    let k = match scan_last_char(&t, '=') {
        Some(k) => k,
        None => {
            return None;
        },
    };
    let left = trim_of(&slice(&t, 0, k));
    let sp = scan_char(&left, ' ', 0);
    if sp >= left.len() {
        return None;
    }
    let method = trim_of(&slice(&left, 0, sp));
    let path = trim_of(&slice(&left, sp + 1, left.len()));
    if method.len() == 0 || path.len() == 0 {
        return None;
    }
    Some((method, path, trim_of(&slice(&t, k + 1, t.len()))))
}

/// Makes the route of the parts of a line, where the index is a number.
fn route_of_parts(parts: (Vec<char>, Vec<char>, Vec<char>)) -> (r: Option<ConfigRoute>)
    ensures
        r is Some == parse_unsigned(parts.2@, usize::MAX as nat) is Some,
        r matches Some(route) ==> route_view(route) == (RouteView {
            method: parts.0@,
            path: parts.1@,
            index: parse_unsigned(parts.2@, usize::MAX as nat)->0,
        }),
{
    match parse_number(&parts.2, usize::MAX as u64) {
        Some(n) => Some(
            ConfigRoute { method: string_of(&parts.0), path: string_of(&parts.1), index: n as usize },
        ),
        None => None,
    }
}

/// The state of the configuration parser, between two lines.
pub ghost struct ConfigState {
    pub port: nat,
    pub imports: Seq<Seq<char>>,
    pub routes: Seq<RouteView>,
    /// Whether the parser stands in the `imports:` section.
    pub in_imports: bool,
    /// Whether the parser stands in the `routes:` section.
    pub in_routes: bool,
}

/// Whether `t` begins with the character `c`.
pub open spec fn first_is(t: Seq<char>, c: char) -> bool {
    t.len() > 0 && t[0] == c
}

/// The port that a `port` line sets: the number after its first `=`, where
/// that is a number of sixteen bits; else the port as it was.
pub open spec fn port_of_line(t: Seq<char>, before: nat) -> nat {
    let ps = split(t, '=');
    if ps.len() >= 2 && parse_unsigned(trim(ps[1]), 65535) is Some {
        parse_unsigned(trim(ps[1]), 65535)->0
    } else {
        before
    }
}

/// The transition of the parser on one line.
///
/// A line that begins with `port` sets the port and closes any section. The
/// lines `imports:` and `routes:` open their sections. Blank lines change
/// nothing. In the imports section a quoted line adds its path, without the
/// quotes, and any other line closes the section. In the routes section a
/// line that declares a route adds it; a line of that form whose index is no
/// number is passed over; and any other line closes the section.
pub open spec fn config_step(st: ConfigState, line: Seq<char>) -> ConfigState {
    let t = trim(line);
    if starts_with(t, "port"@) {
        ConfigState { port: port_of_line(t, st.port), in_imports: false, in_routes: false, ..st }
    } else if t == "imports:"@ {
        ConfigState { in_imports: true, in_routes: false, ..st }
    } else if t == "routes:"@ {
        ConfigState { in_routes: true, in_imports: false, ..st }
    } else if t.len() == 0 {
        st
    } else if st.in_imports {
        if !first_is(t, '"') && !first_is(t, '\'') {
            ConfigState { in_imports: false, ..st }
        } else if strip_both(strip_both(t, '"'), '\'').len() > 0 {
            ConfigState { imports: st.imports.push(strip_both(strip_both(t, '"'), '\'')), ..st }
        } else {
            st
        }
    } else if st.in_routes {
        if parse_route(t) is Some {
            ConfigState { routes: st.routes.push(parse_route(t)->0), ..st }
        } else if route_parts(t) is Some {
            st
        } else {
            ConfigState { in_routes: false, ..st }
        }
    } else {
        st
    }
}

/// The state of the parser after the first `n` lines; it begins with port
/// 3000 and outside every section.
pub open spec fn config_run(ls: Seq<Seq<char>>, n: nat) -> ConfigState
    decreases n,
{
    if n == 0 || n > ls.len() {
        ConfigState {
            port: 3000,
            imports: Seq::empty(),
            routes: Seq::empty(),
            in_imports: false,
            in_routes: false,
        }
    } else {
        config_step(config_run(ls, (n - 1) as nat), ls[n - 1])
    }
}

/// The state in which the parser leaves the text `content`.
pub open spec fn parsed_config(content: Seq<char>) -> ConfigState {
    let ls = lines(content);
    config_run(ls, ls.len())
}

fn first_is_char(t: &Vec<char>, c: char) -> (b: bool)
    ensures
        b == first_is(t@, c),
{
    t.len() > 0 && t[0] == c
}

fn port_of_line_chars(t: &Vec<char>, before: u16) -> (p: u16)
    ensures
        p == port_of_line(t@, before as nat),
{
    let ps = split_on(t, '=');
    if ps.len() >= 2 {
        assert(views(ps@)[1] == ps@[1]@);
        match parse_number(&trim_of(&ps[1]), 65535) {
            Some(n) => n as u16,
            None => before,
        }
    } else {
        before
    }
}

/// Parses the text of a project's configuration file.
pub fn parse_project_config(content: &str) -> (c: ProjectConfig)
    ensures
        c.port == parsed_config(content@).port,
        string_views(c.imports@) == parsed_config(content@).imports,
        route_views(c.routes@) == parsed_config(content@).routes,
{
    let v = chars_of(content);
    let ls = lines_of(&v);
    let mut port: u16 = 3000;
    let mut imports: Vec<Vec<char>> = Vec::new();
    let mut routes: Vec<ConfigRoute> = Vec::new();
    let mut in_imports = false;
    let mut in_routes = false;
    let mut i: usize = 0;
    assert(views(imports@) =~= Seq::<Seq<char>>::empty());
    assert(route_views(routes@) =~= Seq::<RouteView>::empty());
    while i < ls.len()
        invariant
            i <= ls.len(),
            config_run(views(ls@), i as nat) == (ConfigState {
                port: port as nat,
                imports: views(imports@),
                routes: route_views(routes@),
                in_imports,
                in_routes,
            }),
        decreases ls.len() - i,
    {
        let t = trim_of(&ls[i]);
        let ghost imports_before = views(imports@);
        let ghost routes_before = route_views(routes@);
        if has_prefix_str(&t, "port") {
            port = port_of_line_chars(&t, port);
            in_imports = false;
            in_routes = false;
        } else if equals_str(&t, "imports:") {
            in_imports = true;
            in_routes = false;
        } else if equals_str(&t, "routes:") {
            in_routes = true;
            in_imports = false;
        } else if t.len() == 0 {
        } else if in_imports {
            if !first_is_char(&t, '"') && !first_is_char(&t, '\'') {
                in_imports = false;
            } else {
                let p = strip_both_of(&strip_both_of(&t, '"'), '\'');
                if p.len() > 0 {
                    imports.push(p);
                    assert(views(imports@) =~= imports_before.push(p@));
                }
            }
        } else if in_routes {
            match route_parts_chars(&t) {
                Some(parts) => {
                    match route_of_parts(parts) {
                        Some(route) => {
                            routes.push(route);
                            assert(route_views(routes@) =~= routes_before.push(route_view(route)));
                        },
                        None => {},
                    }
                },
                None => {
                    in_routes = false;
                },
            }
        }
        i += 1;
    }
    ProjectConfig { port, imports: strings_of(&imports), routes }
}

} // verus!
