//! Assembly of the generated unit: handler indices, handler functions, route
//! registration, the plugin and import blocks, and the order of compilation.

use vstd::prelude::*;
use crate::text::{
    replace, replace_all, chars_of, string_of, trim, contains, views, lines, lines_of, trim_of,
    has_str, push_all, push_str, strings_of, string_views, texts_of, slice, split, split_on,
    join, join_with, decimal, push_decimal, equals, last_char, scan_last_char, starts_with,
};
use crate::component::{
    tabs, push_tabs, component_helpers, component_helpers_chars, component_props,
    extract_component_props, prop_views, component_render_body, component_render_body_chars,
};
use crate::escape::{sanitized, sanitize_chars};
use crate::page::{
    page_code, page_code_chars, layout_code, layout_code_chars, page_layout, extract_page_layout,
    layout_index, find_layout_at, page_data_block, page_data_block_chars, page_html_lines,
    page_html_lines_chars,
};
use crate::discovery::{ApiRoute, Component, DiscoveredProject, Layout, PageRoute, Model};
use crate::project_config::{ConfigRoute, ProjectConfig, first_is};

verus! {

/// What a run of the generator is asked to add.
#[derive(Debug, Default)]
pub struct CodegenOptions {
    /// Whether to put comments into the generated code.
    pub debug_comments: bool,
    /// Whether to make the component registry.
    pub generate_registry: bool,
}

/// What a run of the generator gives.
#[derive(Debug)]
pub struct GeneratedCode {
    /// The text of the generated main file.
    pub main_cln: String,
    /// The component registry, where one was asked for and there are components.
    pub component_registry: Option<String>,
    /// The files to compile, in order; the generated main file is the last.
    pub compile_order: Vec<String>,
}

/// The greatest index among the first `n` routes; 0 where `n` is 0.
pub open spec fn max_index(routes: Seq<ConfigRoute>, n: nat) -> nat
    decreases n,
{
    if n == 0 || n > routes.len() {
        0
    } else {
        let m = max_index(routes, (n - 1) as nat);
        if routes[n - 1].index > m {
            routes[n - 1].index as nat
        } else {
            m
        }
    }
}

/// The first handler index that is free: one more than the greatest index
/// of a configured route, or 0 where no route is configured.
pub open spec fn offset_of(routes: Seq<ConfigRoute>) -> nat {
    if routes.len() == 0 {
        0
    } else {
        max_index(routes, routes.len()) + 1
    }
}

/// The greatest index is an index of the routes and no route has a greater
/// one.
pub proof fn lemma_max_index(routes: Seq<ConfigRoute>, n: nat)
    requires
        n <= routes.len(),
    ensures
        forall|i: int| 0 <= i < n ==> (#[trigger] routes[i]).index <= max_index(routes, n),
        n > 0 ==> exists|i: int| 0 <= i < n && (#[trigger] routes[i]).index == max_index(routes, n),
    decreases n,
{
    if n > 0 {
        lemma_max_index(routes, (n - 1) as nat);
        if n > 1 {
            let w = choose|i: int|
                0 <= i < n - 1 && (#[trigger] routes[i]).index == max_index(routes, (n - 1) as nat);
            if routes[n - 1].index > max_index(routes, (n - 1) as nat) {
                assert(routes[n - 1].index == max_index(routes, n));
            } else {
                assert(routes[w].index == max_index(routes, n));
            }
        } else {
            assert(routes[0].index == max_index(routes, n));
        }
    }
}

/// No index from the offset on is the index of a configured route.
pub proof fn lemma_offset_is_free(routes: Seq<ConfigRoute>, k: nat)
    ensures
        forall|i: int| 0 <= i < routes.len() ==> (#[trigger] routes[i]).index != offset_of(routes) + k,
{
    lemma_max_index(routes, routes.len());
}

/// The index of the handler at position `k` of a run: the pages come first,
/// in their order, then the API routes, all from the offset on.
pub open spec fn allocated_index(routes: Seq<ConfigRoute>, k: nat) -> nat {
    offset_of(routes) + k
}

/// Within one run no handler index is given twice: two positions get two
/// indices, and no position gets the index of a configured route.
pub proof fn lemma_handler_indices_unique(routes: Seq<ConfigRoute>, a: nat, b: nat)
    ensures
        a != b ==> allocated_index(routes, a) != allocated_index(routes, b),
        forall|i: int| 0 <= i < routes.len() ==> (#[trigger] routes[i]).index != allocated_index(routes, a),
{
    lemma_offset_is_free(routes, a);
}

/// Computes the first free handler index.
pub fn handler_offset(routes: &Vec<ConfigRoute>) -> (offset: usize)
    requires
        forall|i: int| 0 <= i < routes.len() ==> (#[trigger] routes[i]).index < usize::MAX,
    ensures
        offset == offset_of(routes@),
{
    if routes.len() == 0 {
        return 0;
    }
    let mut m: usize = 0;
    let mut i: usize = 0;
    while i < routes.len()
        invariant
            i <= routes.len(),
            m == max_index(routes@, i as nat),
            m < usize::MAX,
            forall|k: int| 0 <= k < routes.len() ==> (#[trigger] routes[k]).index < usize::MAX,
        decreases routes.len() - i,
    {
        if routes[i].index > m {
            m = routes[i].index;
        }
        i += 1;
    }
    m + 1
}

/// The names of the parameters among the first `n` segments of a path: of
/// each segment that begins with a colon, what follows the colon.
pub open spec fn params_of(segments: Seq<Seq<char>>, n: nat) -> Seq<Seq<char>>
    decreases n,
{
    if n == 0 || n > segments.len() {
        Seq::empty()
    } else if first_is(segments[n - 1], ':') {
        params_of(segments, (n - 1) as nat).push(segments[n - 1].drop_first())
    } else {
        params_of(segments, (n - 1) as nat)
    }
}

/// The parameters of a route path, from left to right.
pub open spec fn route_params(path: Seq<char>) -> Seq<Seq<char>> {
    let segments = split(path, '/');
    params_of(segments, segments.len())
}

/// The name that a segment gives: what follows its colon, where it begins
/// with one.
pub open spec fn param_name(segment: Seq<char>) -> Option<Seq<char>> {
    if first_is(segment, ':') {
        Some(segment.drop_first())
    } else {
        None
    }
}

/// The function that gives each segment its name.
pub open spec fn param_names() -> spec_fn(Seq<char>) -> Option<Seq<char>> {
    |segment: Seq<char>| param_name(segment)
}

/// The parameters among the first `n` segments are the names of those
/// segments that begin with a colon, in the order of the segments.
pub proof fn lemma_params_in_order(segments: Seq<Seq<char>>, n: nat)
    requires
        n <= segments.len(),
    ensures
        params_of(segments, n) == segments.take(n as int).filter_map(param_names()),
    decreases n,
{
    let t = segments.take(n as int);
    if n > 0 {
        lemma_params_in_order(segments, (n - 1) as nat);
        assert(t.drop_last() =~= segments.take(n - 1));
        assert(t.last() == segments[n - 1]);
        assert(params_of(segments, n) =~= t.filter_map(param_names()));
    } else {
        assert(params_of(segments, n) =~= t.filter_map(param_names()));
    }
}

/// The parameters of a path are the names of its segments that begin with a
/// colon, as many as there are and from left to right.
pub proof fn lemma_route_params(path: Seq<char>)
    ensures
        route_params(path) == split(path, '/').filter_map(param_names()),
{
    let segments = split(path, '/');
    lemma_params_in_order(segments, segments.len());
    assert(segments.take(segments.len() as int) =~= segments);
}

/// Extracts the parameters of a route path, character vector to character
/// vectors.
pub fn route_params_chars(path: &Vec<char>) -> (r: Vec<Vec<char>>)
    ensures
        views(r@) == route_params(path@),
{
    let segments = split_on(path, '/');
    let mut r: Vec<Vec<char>> = Vec::new();
    let mut i: usize = 0;
    assert(views(r@) =~= Seq::<Seq<char>>::empty());
    while i < segments.len()
        invariant
            i <= segments.len(),
            views(r@) == params_of(views(segments@), i as nat),
        decreases segments.len() - i,
    {
        let seg = &segments[i];
        if seg.len() > 0 && seg[0] == ':' {
            let name = slice(seg, 1, seg.len());
            assert(name@ =~= seg@.drop_first());
            let ghost before = views(r@);
            r.push(name);
            assert(views(r@) =~= before.push(name@));
        }
        i += 1;
    }
    r
}

/// Extracts the parameters of a route path: the names of its `:name`
/// segments, from left to right.
pub fn extract_route_params(path: &str) -> (r: Vec<String>)
    ensures
        string_views(r@) == route_params(path@),
{
    let v = chars_of(path);
    strings_of(&route_params_chars(&v))
}

/// A line of code behind `n` tabs; a blank line becomes empty.
pub open spec fn indented_line(line: Seq<char>, n: nat) -> Seq<char> {
    if trim(line).len() == 0 {
        Seq::empty()
    } else {
        tabs(n) + line
    }
}

/// The lines of `code`, each behind `n` tabs, joined by line feeds.
pub open spec fn indented(code: Seq<char>, n: nat) -> Seq<char> {
    let ls = lines(code);
    join(Seq::new(ls.len(), |i: int| indented_line(ls[i], n)), "\n"@)
}

/// Indents code by `n` tabs, character vector to character vector.
pub fn indent_chars(code: &Vec<char>, n: usize) -> (r: Vec<char>)
    ensures
        r@ == indented(code@, n as nat),
{
    let ls = lines_of(code);
    let mut out: Vec<Vec<char>> = Vec::new();
    let mut i: usize = 0;
    let ghost want = Seq::new(views(ls@).len(), |k: int| indented_line(views(ls@)[k], n as nat));
    assert(views(out@) =~= want.take(0));
    while i < ls.len()
        invariant
            i <= ls.len(),
            want == Seq::new(views(ls@).len(), |k: int| indented_line(views(ls@)[k], n as nat)),
            views(out@) == want.take(i as int),
        decreases ls.len() - i,
    {
        let mut line: Vec<char> = Vec::new();
        if trim_of(&ls[i]).len() > 0 {
            push_tabs(&mut line, n);
            push_all(&mut line, &ls[i]);
        }
        assert(line@ =~= want[i as int]);
        let ghost before = views(out@);
        out.push(line);
        assert(views(out@) =~= before.push(line@));
        assert(views(out@) =~= want.take(i + 1));
        i += 1;
    }
    assert(want.take(ls.len() as int) =~= want);
    join_with(&out, "\n")
}

/// Indents code by the given number of tabs.
pub fn indent_code(code: &str, tabs: usize) -> (r: String)
    ensures
        r@ == indented(code@, tabs as nat),
{
    let v = chars_of(code);
    string_of(&indent_chars(&v, tabs))
}



/// `s` where `b` holds, else nothing.
pub open spec fn when(b: bool, s: Seq<char>) -> Seq<char> {
    if b {
        s
    } else {
        Seq::empty()
    }
}

/// The statement that registers one route under a handler index.
pub open spec fn registration(method: Seq<char>, path: Seq<char>, index: nat) -> Seq<char> {
    "\ts = _http_route(\""@ + method + "\", \""@ + path + "\", "@ + decimal(index) + ")\n"@
}

fn push_registration(out: &mut Vec<char>, method: &str, path: &str, index: usize)
    ensures
        final(out)@ == old(out)@ + registration(method@, path@, index as nat),
{
    push_str(out, "\ts = _http_route(\"");
    push_str(out, method);
    push_str(out, "\", \"");
    push_str(out, path);
    push_str(out, "\", ");
    push_decimal(out, index as u64);
    push_str(out, ")\n");
    assert(out@ =~= old(out)@ + registration(method@, path@, index as nat));
}

/// The registrations of the first `n` configured routes, each under its own
/// index.
pub open spec fn config_registrations(routes: Seq<ConfigRoute>, n: nat) -> Seq<char>
    decreases n,
{
    if n == 0 || n > routes.len() {
        Seq::empty()
    } else {
        config_registrations(routes, (n - 1) as nat) + registration(
            routes[n - 1].method@,
            routes[n - 1].path@,
            routes[n - 1].index as nat,
        )
    }
}

/// The registrations of the first `n` pages, under the indices from `first`
/// on.
pub open spec fn page_registrations(pages: Seq<PageRoute>, first: nat, n: nat) -> Seq<char>
    decreases n,
{
    if n == 0 || n > pages.len() {
        Seq::empty()
    } else {
        page_registrations(pages, first, (n - 1) as nat) + registration(
            pages[n - 1].method@,
            pages[n - 1].path@,
            (first + n - 1) as nat,
        )
    }
}

/// The registrations of the first `n` API routes, under the indices from
/// `first` on.
pub open spec fn api_registrations(apis: Seq<ApiRoute>, first: nat, n: nat) -> Seq<char>
    decreases n,
{
    if n == 0 || n > apis.len() {
        Seq::empty()
    } else {
        api_registrations(apis, first, (n - 1) as nat) + registration(
            apis[n - 1].method@,
            apis[n - 1].path@,
            (first + n - 1) as nat,
        )
    }
}

/// The statement that starts the listener on a port.
pub open spec fn listen(port: nat) -> Seq<char> {
    "\ts = _http_listen("@ + decimal(port) + ")\n"@
}

/// The start block: the configured routes under their own indices, then the
/// pages and the API routes under the indices from `offset` on, and the
/// listener where there is any route at all.
pub open spec fn start_block(
    project: DiscoveredProject,
    debug: bool,
    port: nat,
    offset: nat,
    routes: Seq<ConfigRoute>,
) -> Seq<char> {
    "\nstart:\n"@ + "\tinteger s = 0\n"@ + when(
        debug && routes.len() > 0,
        "\n\t// Imported route registrations\n"@,
    ) + config_registrations(routes, routes.len()) + when(
        debug && project.pages@.len() > 0,
        "\n\t// Page routes\n"@,
    ) + page_registrations(project.pages@, offset, project.pages@.len()) + when(
        debug && project.api_routes@.len() > 0,
        "\n\t// API routes\n"@,
    ) + api_registrations(
        project.api_routes@,
        offset + project.pages@.len(),
        project.api_routes@.len(),
    ) + when(
        project.pages@.len() > 0 || project.api_routes@.len() > 0 || routes.len() > 0,
        listen(port),
    ) + "\n"@
}

/// Appends `s` where `b` holds.
fn push_when(out: &mut Vec<char>, b: bool, s: &str)
    ensures
        final(out)@ == old(out)@ + when(b, s@),
{
    if b {
        push_str(out, s);
    } else {
        assert(out@ =~= old(out)@ + Seq::<char>::empty());
    }
}

fn push_config_registrations(out: &mut Vec<char>, routes: &Vec<ConfigRoute>)
    ensures
        final(out)@ == old(out)@ + config_registrations(routes@, routes@.len()),
{
    let mut i: usize = 0;
    assert(out@ =~= old(out)@ + Seq::<char>::empty());
    while i < routes.len()
        invariant
            i <= routes.len(),
            out@ == old(out)@ + config_registrations(routes@, i as nat),
        decreases routes.len() - i,
    {
        let ghost before = out@;
        push_registration(out, routes[i].method.as_str(), routes[i].path.as_str(), routes[i].index);
        assert(out@ =~= old(out)@ + config_registrations(routes@, (i + 1) as nat));
        i += 1;
    }
}

fn push_page_registrations(out: &mut Vec<char>, pages: &Vec<PageRoute>, first: usize)
    requires
        first + pages.len() <= usize::MAX,
    ensures
        final(out)@ == old(out)@ + page_registrations(pages@, first as nat, pages@.len()),
{
    let mut i: usize = 0;
    assert(out@ =~= old(out)@ + Seq::<char>::empty());
    while i < pages.len()
        invariant
            i <= pages.len(),
            first + pages.len() <= usize::MAX,
            out@ == old(out)@ + page_registrations(pages@, first as nat, i as nat),
        decreases pages.len() - i,
    {
        push_registration(out, pages[i].method.as_str(), pages[i].path.as_str(), first + i);
        assert(out@ =~= old(out)@ + page_registrations(pages@, first as nat, (i + 1) as nat));
        i += 1;
    }
}

fn push_api_registrations(out: &mut Vec<char>, apis: &Vec<ApiRoute>, first: usize)
    requires
        first + apis.len() <= usize::MAX,
    ensures
        final(out)@ == old(out)@ + api_registrations(apis@, first as nat, apis@.len()),
{
    let mut i: usize = 0;
    assert(out@ =~= old(out)@ + Seq::<char>::empty());
    while i < apis.len()
        invariant
            i <= apis.len(),
            first + apis.len() <= usize::MAX,
            out@ == old(out)@ + api_registrations(apis@, first as nat, i as nat),
        decreases apis.len() - i,
    {
        push_registration(out, apis[i].method.as_str(), apis[i].path.as_str(), first + i);
        assert(out@ =~= old(out)@ + api_registrations(apis@, first as nat, (i + 1) as nat));
        i += 1;
    }
}

fn start_block_chars(
    project: &DiscoveredProject,
    options: &CodegenOptions,
    port: u16,
    handler_offset: usize,
    config_routes: &Vec<ConfigRoute>,
) -> (out: Vec<char>)
    requires
        handler_offset + project.pages@.len() + project.api_routes@.len() <= usize::MAX,
    ensures
        out@ == start_block(
            *project,
            options.debug_comments,
            port as nat,
            handler_offset as nat,
            config_routes@,
        ),
{
    let debug = options.debug_comments;
    let mut out: Vec<char> = Vec::new();
    push_str(&mut out, "\nstart:\n");
    push_str(&mut out, "\tinteger s = 0\n");
    push_when(&mut out, debug && config_routes.len() > 0, "\n\t// Imported route registrations\n");
    push_config_registrations(&mut out, config_routes);
    push_when(&mut out, debug && project.pages.len() > 0, "\n\t// Page routes\n");
    push_page_registrations(&mut out, &project.pages, handler_offset);
    push_when(&mut out, debug && project.api_routes.len() > 0, "\n\t// API routes\n");
    push_api_registrations(&mut out, &project.api_routes, handler_offset + project.pages.len());
    let ghost before = out@;
    if project.pages.len() > 0 || project.api_routes.len() > 0 || config_routes.len() > 0 {
        push_str(&mut out, "\ts = _http_listen(");
        push_decimal(&mut out, port as u64);
        push_str(&mut out, ")\n");
        assert(out@ =~= before + listen(port as nat));
    } else {
        assert(out@ =~= before + Seq::<char>::empty());
    }
    push_str(&mut out, "\n");
    out
}

/// Generates the start block, which registers every route and starts the
/// listener.
pub fn generate_start_function(
    project: &DiscoveredProject,
    options: &CodegenOptions,
    port: u16,
    handler_offset: usize,
    config_routes: &Vec<ConfigRoute>,
) -> (r: String)
    requires
        handler_offset + project.pages@.len() + project.api_routes@.len() <= usize::MAX,
    ensures
        r@ == start_block(
            *project,
            options.debug_comments,
            port as nat,
            handler_offset as nat,
            config_routes@,
        ),
{
    string_of(&start_block_chars(project, options, port, handler_offset, config_routes))
}



/// Whether a source text calls one of the data-access functions.
pub open spec fn has_data_marker(text: Seq<char>) -> bool {
    contains(text, "_db_query"@) || contains(text, "_db_execute"@) || contains(text, "_db_insert"@)
        || contains(text, "_db_update"@) || contains(text, "_db_delete"@)
}

/// Whether one of the first `n` texts calls a data-access function.
pub open spec fn any_data_marker(texts: Seq<Seq<char>>, n: nat) -> bool
    decreases n,
{
    if n == 0 || n > texts.len() {
        false
    } else {
        any_data_marker(texts, (n - 1) as nat) || has_data_marker(texts[n - 1])
    }
}

/// Whether one of the source texts of a project uses the database.
pub fn project_uses_database(texts: &Vec<String>) -> (b: bool)
    ensures
        b == any_data_marker(string_views(texts@), texts@.len()),
{
    let mut i: usize = 0;
    while i < texts.len()
        invariant
            i <= texts.len(),
            !any_data_marker(string_views(texts@), i as nat),
        decreases texts.len() - i,
    {
        let t = chars_of(texts[i].as_str());
        if has_str(&t, "_db_query") || has_str(&t, "_db_execute") || has_str(&t, "_db_insert")
            || has_str(&t, "_db_update") || has_str(&t, "_db_delete") {
            proof {
                lemma_marker_stays(string_views(texts@), (i + 1) as nat, texts@.len());
            }
            return true;
        }
        i += 1;
    }
    false
}

/// A data-access call among the first `n` texts is one among the first `m`,
/// for every `m` from `n` on.
pub proof fn lemma_marker_stays(texts: Seq<Seq<char>>, n: nat, m: nat)
    requires
        n <= m <= texts.len(),
        any_data_marker(texts, n),
    ensures
        any_data_marker(texts, m),
    decreases m,
{
    if n < m {
        lemma_marker_stays(texts, n, (m - 1) as nat);
    }
}

/// The prefix that leads from the generated file back to the project root.
pub open spec fn root_prefix() -> Seq<char> {
    "../../"@
}

/// The import paths for the first `n` of the given files: each behind the
/// root prefix, and none twice.
pub open spec fn import_paths(files: Seq<Seq<char>>, n: nat) -> Seq<Seq<char>>
    decreases n,
{
    if n == 0 || n > files.len() {
        Seq::empty()
    } else {
        let before = import_paths(files, (n - 1) as nat);
        let p = root_prefix() + files[n - 1];
        if before.contains(p) {
            before
        } else {
            before.push(p)
        }
    }
}

/// Every import path is one of the given files behind the root prefix.
pub proof fn lemma_import_paths_prefixed(files: Seq<Seq<char>>, n: nat)
    requires
        n <= files.len(),
    ensures
        forall|i: int|
            0 <= i < import_paths(files, n).len() ==> starts_with(
                #[trigger] import_paths(files, n)[i],
                root_prefix(),
            ) && exists|k: int|
                0 <= k < n && import_paths(files, n)[i] == root_prefix() + #[trigger] files[k],
    decreases n,
{
    if n > 0 {
        lemma_import_paths_prefixed(files, (n - 1) as nat);
        let before = import_paths(files, (n - 1) as nat);
        let p = root_prefix() + files[n - 1];
        assert(p.subrange(0, root_prefix().len() as int) =~= root_prefix());
        assert forall|i: int| 0 <= i < import_paths(files, n).len() implies starts_with(
            #[trigger] import_paths(files, n)[i],
            root_prefix(),
        ) && exists|k: int|
            0 <= k < n && import_paths(files, n)[i] == root_prefix() + #[trigger] files[k] by {
            if i < before.len() {
                let k = choose|k: int| 0 <= k < n - 1 && before[i] == root_prefix() + #[trigger] files[k];
                assert(import_paths(files, n)[i] == root_prefix() + files[k]);
            } else {
                assert(import_paths(files, n)[i] == root_prefix() + files[n - 1]);
            }
        }
    }
}

/// The files that are imported: the configured imports, then the modules of
/// the shared library.
pub open spec fn imported_files(project: DiscoveredProject, config: ProjectConfig) -> Seq<Seq<char>> {
    string_views(config.imports@) + Seq::new(
        project.lib_modules@.len(),
        |i: int| project.lib_modules@[i].source_file@,
    )
}

/// The lines of the import block for the first `n` paths.
pub open spec fn import_lines(paths: Seq<Seq<char>>, n: nat) -> Seq<char>
    decreases n,
{
    if n == 0 || n > paths.len() {
        Seq::empty()
    } else {
        import_lines(paths, (n - 1) as nat) + "\t\""@ + paths[n - 1] + "\"\n"@
    }
}

/// The plugin block: one line for each capability that is needed.
pub open spec fn plugin_block(http: bool, data: bool, ui: bool) -> Seq<char> {
    when(http || data || ui, "plugins:\n"@) + when(http, "\tframe.httpserver\n"@) + when(
        data,
        "\tframe.data\n"@,
    ) + when(ui, "\tframe.ui\n"@)
}

/// Whether the HTTP server is needed.
pub open spec fn needs_http(project: DiscoveredProject, config: ProjectConfig) -> bool {
    project.pages@.len() > 0 || project.api_routes@.len() > 0 || config.routes@.len() > 0
        || config.imports@.len() > 0
}

/// Whether data access is needed: there is a model, or one of the scanned
/// texts calls a data-access function.
pub open spec fn needs_data(project: DiscoveredProject, scanned: Seq<Seq<char>>) -> bool {
    project.models@.len() > 0 || any_data_marker(scanned, scanned.len())
}

/// The plugin and import blocks of the generated file.
pub open spec fn imports_block(
    project: DiscoveredProject,
    config: ProjectConfig,
    scanned: Seq<Seq<char>>,
) -> Seq<char> {
    let files = imported_files(project, config);
    let paths = import_paths(files, files.len());
    let body = plugin_block(
        needs_http(project, config),
        needs_data(project, scanned),
        project.components@.len() > 0,
    ) + when(paths.len() > 0, "\nimport:\n"@) + import_lines(paths, paths.len());
    body + when(body.len() > 0, "\n"@)
}

fn has_text(l: &Vec<Vec<char>>, x: &Vec<char>) -> (b: bool)
    ensures
        b == views(l@).contains(x@),
{
    let mut i: usize = 0;
    while i < l.len()
        invariant
            i <= l.len(),
            forall|k: int| 0 <= k < i ==> views(l@)[k] != x@,
        decreases l.len() - i,
    {
        if equals(&l[i], x) {
            assert(views(l@)[i as int] == x@);
            return true;
        }
        i += 1;
    }
    false
}

fn import_paths_chars(files: &Vec<Vec<char>>) -> (r: Vec<Vec<char>>)
    ensures
        views(r@) == import_paths(views(files@), files@.len()),
{
    let mut r: Vec<Vec<char>> = Vec::new();
    let mut i: usize = 0;
    assert(views(r@) =~= Seq::<Seq<char>>::empty());
    while i < files.len()
        invariant
            i <= files.len(),
            views(r@) == import_paths(views(files@), i as nat),
        decreases files.len() - i,
    {
        let mut p: Vec<char> = Vec::new();
        push_str(&mut p, "../../");
        push_all(&mut p, &files[i]);
        assert(p@ =~= root_prefix() + views(files@)[i as int]);
        if !has_text(&r, &p) {
            let ghost before = views(r@);
            r.push(p);
            assert(views(r@) =~= before.push(p@));
        }
        i += 1;
    }
    r
}

fn imported_files_chars(project: &DiscoveredProject, config: &ProjectConfig) -> (r: Vec<Vec<char>>)
    ensures
        views(r@) == imported_files(*project, *config),
{
    let mut r = texts_of(&config.imports);
    let ghost start = views(r@);
    let ghost libs = Seq::new(
        project.lib_modules@.len(),
        |i: int| project.lib_modules@[i].source_file@,
    );
    let mut i: usize = 0;
    assert(views(r@) =~= start + libs.take(0));
    while i < project.lib_modules.len()
        invariant
            i <= project.lib_modules.len(),
            libs == Seq::new(
                project.lib_modules@.len(),
                |i: int| project.lib_modules@[i].source_file@,
            ),
            views(r@) == start + libs.take(i as int),
        decreases project.lib_modules.len() - i,
    {
        let f = chars_of(project.lib_modules[i].source_file.as_str());
        let ghost before = views(r@);
        r.push(f);
        assert(views(r@) =~= before.push(f@));
        assert(views(r@) =~= start + libs.take(i + 1));
        i += 1;
    }
    assert(libs.take(libs.len() as int) =~= libs);
    r
}

fn imports_block_chars(project: &DiscoveredProject, config: &ProjectConfig, scanned: &Vec<String>) -> (out: Vec<char>)
    ensures
        out@ == imports_block(*project, *config, string_views(scanned@)),
{
    let http = project.pages.len() > 0 || project.api_routes.len() > 0 || config.routes.len() > 0
        || config.imports.len() > 0;
    let data = project.models.len() > 0 || project_uses_database(scanned);
    let ui = project.components.len() > 0;
    let mut out: Vec<char> = Vec::new();
    push_when(&mut out, http || data || ui, "plugins:\n");
    push_when(&mut out, http, "\tframe.httpserver\n");
    push_when(&mut out, data, "\tframe.data\n");
    push_when(&mut out, ui, "\tframe.ui\n");
    assert(out@ =~= plugin_block(http, data, ui));
    let files = imported_files_chars(project, config);
    let paths = import_paths_chars(&files);
    push_when(&mut out, paths.len() > 0, "\nimport:\n");
    let ghost head = out@;
    let mut i: usize = 0;
    assert(out@ =~= head + Seq::<char>::empty());
    while i < paths.len()
        invariant
            i <= paths.len(),
            out@ == head + import_lines(views(paths@), i as nat),
        decreases paths.len() - i,
    {
        push_str(&mut out, "\t\"");
        push_all(&mut out, &paths[i]);
        push_str(&mut out, "\"\n");
        assert(out@ =~= head + import_lines(views(paths@), (i + 1) as nat));
        i += 1;
    }
    let nonempty = out.len() > 0;
    push_when(&mut out, nonempty, "\n");
    out
}

/// Generates the plugin block and the import block.
///
/// `scanned` holds the texts that are searched for data-access calls: those
/// of the pages, the API routes, the shared library and the configured
/// imports, as far as they could be read.
pub fn generate_imports(project: &DiscoveredProject, config: &ProjectConfig, scanned: &Vec<String>) -> (r: String)
    ensures
        r@ == imports_block(*project, *config, string_views(scanned@)),
{
    string_of(&imports_block_chars(project, config, scanned))
}



/// The comment that stands for a model in the generated file.
pub open spec fn model_include(source_file: Seq<char>) -> Seq<char> {
    "// include: "@ + source_file + "\n"@
}

/// Generates the comment that names a model's source file.
pub fn generate_model_import(source_file: &str) -> (r: String)
    ensures
        r@ == model_include(source_file@),
{
    let mut out: Vec<char> = Vec::new();
    push_str(&mut out, "// include: ");
    push_str(&mut out, source_file);
    push_str(&mut out, "\n");
    assert(out@ =~= model_include(source_file@));
    string_of(&out)
}

/// The function of the target language that escapes a value for markup.
pub open spec fn safe_escape_function() -> Seq<char> {
    "\tstring __safe_html_escape(string input)\n"@
        + "\t\tstring result = input.replace(\"&\", \"&amp;\")\n"@
        + "\t\tresult = result.replace(\"<\", \"&lt;\")\n"@
        + "\t\tresult = result.replace(\">\", \"&gt;\")\n"@
        + "\t\tresult = result.replace(\"\\\"\", \"&quot;\")\n"@
        + "\t\tresult = result.replace(\"'\", \"&#39;\")\n"@ + "\t\treturn result\n\n"@
}

fn safe_escape_function_chars() -> (out: Vec<char>)
    ensures
        out@ == safe_escape_function(),
{
    let mut out: Vec<char> = Vec::new();
    push_str(&mut out, "\tstring __safe_html_escape(string input)\n");
    push_str(&mut out, "\t\tstring result = input.replace(\"&\", \"&amp;\")\n");
    push_str(&mut out, "\t\tresult = result.replace(\"<\", \"&lt;\")\n");
    push_str(&mut out, "\t\tresult = result.replace(\">\", \"&gt;\")\n");
    push_str(&mut out, "\t\tresult = result.replace(\"\\\"\", \"&quot;\")\n");
    push_str(&mut out, "\t\tresult = result.replace(\"'\", \"&#39;\")\n");
    push_str(&mut out, "\t\treturn result\n\n");
    assert(out@ =~= safe_escape_function());
    out
}

/// Generates the escape function that safe interpolation calls.
pub fn generate_safe_html_escape_function() -> (r: String)
    ensures
        r@ == safe_escape_function(),
{
    string_of(&safe_escape_function_chars())
}

/// The entry of one component in the registry.
pub open spec fn registry_entry(c: Component) -> Seq<char> {
    "    {\n      \"tag\": \""@ + c.tag@ + "\",\n      \"class\": \""@ + c.class_name@
        + "\",\n      \"hydration\": \""@ + c.hydration@ + "\"\n    }"@
}

/// The entries of the first `n` components, with a comma behind each but
/// the last of all.
pub open spec fn registry_entries(comps: Seq<Component>, n: nat) -> Seq<char>
    decreases n,
{
    if n == 0 || n > comps.len() {
        Seq::empty()
    } else {
        registry_entries(comps, (n - 1) as nat) + registry_entry(comps[n - 1]) + when(
            n < comps.len(),
            ","@,
        ) + "\n"@
    }
}

/// The component registry as a JSON document.
pub open spec fn registry(comps: Seq<Component>) -> Seq<char> {
    "{\n  \"components\": [\n"@ + registry_entries(comps, comps.len()) + "  ]\n}"@
}

fn registry_chars(components: &Vec<Component>) -> (out: Vec<char>)
    ensures
        out@ == registry(components@),
{
    let mut out: Vec<char> = Vec::new();
    push_str(&mut out, "{\n  \"components\": [\n");
    let ghost head = out@;
    let mut i: usize = 0;
    assert(out@ =~= head + Seq::<char>::empty());
    while i < components.len()
        invariant
            i <= components.len(),
            out@ == head + registry_entries(components@, i as nat),
        decreases components.len() - i,
    {
        let ghost before = out@;
        push_str(&mut out, "    {\n      \"tag\": \"");
        push_str(&mut out, components[i].tag.as_str());
        push_str(&mut out, "\",\n      \"class\": \"");
        push_str(&mut out, components[i].class_name.as_str());
        push_str(&mut out, "\",\n      \"hydration\": \"");
        push_str(&mut out, components[i].hydration.as_str());
        push_str(&mut out, "\"\n    }");
        assert(out@ =~= before + registry_entry(components@[i as int]));
        push_when(&mut out, i + 1 < components.len(), ",");
        push_str(&mut out, "\n");
        assert(out@ =~= head + registry_entries(components@, (i + 1) as nat));
        i += 1;
    }
    push_str(&mut out, "  ]\n}");
    out
}

/// Generates the component registry.
pub fn generate_component_registry(components: &Vec<Component>) -> (r: String)
    ensures
        r@ == registry(components@),
{
    string_of(&registry_chars(components))
}

/// The path of the generated main file, from the project root.
pub open spec fn main_file() -> Seq<char> {
    "dist/.generated/main.cln"@
}

/// The files to compile, in order: models, modules of the shared library,
/// components, and the generated main file.
pub open spec fn compile_order(project: DiscoveredProject) -> Seq<Seq<char>> {
    Seq::new(project.models@.len(), |i: int| project.models@[i].source_file@) + Seq::new(
        project.lib_modules@.len(),
        |i: int| project.lib_modules@[i].source_file@,
    ) + Seq::new(project.components@.len(), |i: int| project.components@[i].source_file@).push(
        main_file(),
    )
}

/// Builds the list of files to compile, in the order in which the compiler
/// must see them.
pub fn build_compile_order(project: &DiscoveredProject) -> (r: Vec<String>)
    ensures
        string_views(r@) == compile_order(*project),
{
    let ghost models = Seq::new(project.models@.len(), |i: int| project.models@[i].source_file@);
    let ghost libs = Seq::new(
        project.lib_modules@.len(),
        |i: int| project.lib_modules@[i].source_file@,
    );
    let ghost comps = Seq::new(
        project.components@.len(),
        |i: int| project.components@[i].source_file@,
    );
    let mut r: Vec<String> = Vec::new();
    let mut i: usize = 0;
    assert(string_views(r@) =~= models.take(0));
    while i < project.models.len()
        invariant
            i <= project.models.len(),
            models == Seq::new(project.models@.len(), |i: int| project.models@[i].source_file@),
            string_views(r@) == models.take(i as int),
        decreases project.models.len() - i,
    {
        let f = project.models[i].source_file.clone();
        let ghost before = string_views(r@);
        r.push(f);
        assert(string_views(r@) =~= before.push(f@));
        assert(string_views(r@) =~= models.take(i + 1));
        i += 1;
    }
    assert(models.take(models.len() as int) =~= models);
    i = 0;
    assert(string_views(r@) =~= models + libs.take(0));
    while i < project.lib_modules.len()
        invariant
            i <= project.lib_modules.len(),
            libs == Seq::new(
                project.lib_modules@.len(),
                |i: int| project.lib_modules@[i].source_file@,
            ),
            string_views(r@) == models + libs.take(i as int),
        decreases project.lib_modules.len() - i,
    {
        let f = project.lib_modules[i].source_file.clone();
        let ghost before = string_views(r@);
        r.push(f);
        assert(string_views(r@) =~= before.push(f@));
        assert(string_views(r@) =~= models + libs.take(i + 1));
        i += 1;
    }
    assert(libs.take(libs.len() as int) =~= libs);
    i = 0;
    assert(string_views(r@) =~= models + libs + comps.take(0));
    while i < project.components.len()
        invariant
            i <= project.components.len(),
            comps == Seq::new(
                project.components@.len(),
                |i: int| project.components@[i].source_file@,
            ),
            string_views(r@) == models + libs + comps.take(i as int),
        decreases project.components.len() - i,
    {
        let f = project.components[i].source_file.clone();
        let ghost before = string_views(r@);
        r.push(f);
        assert(string_views(r@) =~= before.push(f@));
        assert(string_views(r@) =~= models + libs + comps.take(i + 1));
        i += 1;
    }
    assert(comps.take(comps.len() as int) =~= comps);
    let last = string_of(&chars_of("dist/.generated/main.cln"));
    let ghost before = string_views(r@);
    r.push(last);
    assert(string_views(r@) =~= before.push(last@));
    assert(string_views(r@) =~= compile_order(*project));
    r
}



/// The last segment of a path: what follows its last slash.
pub open spec fn file_name(path: Seq<char>) -> Seq<char> {
    path.subrange(last_char(path, '/', path.len() as int) + 1, path.len() as int)
}

fn file_name_chars(path: &Vec<char>) -> (r: Vec<char>)
    ensures
        r@ == file_name(path@),
{
    match scan_last_char(path, '/') {
        Some(k) => slice(path, k + 1, path.len()),
        None => slice(path, 0, path.len()),
    }
}

/// `text` with each reference `this.name` to one of the first `n`
/// properties rewritten to the bare name, one property after the other.
pub open spec fn without_this(text: Seq<char>, props: Seq<(Seq<char>, Seq<char>)>, n: nat) -> Seq<char>
    decreases n,
{
    if n == 0 || n > props.len() {
        text
    } else {
        replace(without_this(text, props, (n - 1) as nat), "this."@ + props[n - 1].1, props[n - 1].1)
    }
}

fn without_this_chars(text: Vec<char>, props: &Vec<(String, String)>) -> (r: Vec<char>)
    ensures
        r@ == without_this(text@, prop_views(props@), props@.len()),
{
    let mut cur = text;
    let mut i: usize = 0;
    while i < props.len()
        invariant
            i <= props.len(),
            cur@ == without_this(text@, prop_views(props@), i as nat),
        decreases props.len() - i,
    {
        let name = chars_of(props[i].1.as_str());
        let mut from: Vec<char> = Vec::new();
        push_str(&mut from, "this.");
        push_all(&mut from, &name);
        assert(from@ =~= "this."@ + prop_views(props@)[i as int].1);
        cur = replace_all(&cur, &from, &name);
        i += 1;
    }
    cur
}

/// The first `n` helpers of a component as they are emitted: references to
/// properties rewritten, behind one tab, and followed by an empty line.
pub open spec fn helper_texts(helpers: Seq<Seq<char>>, props: Seq<(Seq<char>, Seq<char>)>, n: nat) -> Seq<char>
    decreases n,
{
    if n == 0 || n > helpers.len() {
        Seq::empty()
    } else {
        helper_texts(helpers, props, (n - 1) as nat) + indented(
            without_this(helpers[n - 1], props, props.len()),
            1,
        ) + "\n\n"@
    }
}

/// The first `n` properties as parameters: type, space, name.
pub open spec fn param_list(props: Seq<(Seq<char>, Seq<char>)>) -> Seq<Seq<char>> {
    Seq::new(props.len(), |i: int| props[i].0 + " "@ + props[i].1)
}

/// The render function of a component together with its helpers: the
/// helpers first, then a function that takes the properties as parameters
/// and whose body is the component's render body.
pub open spec fn render_function(component: Component, content: Seq<char>, debug: bool) -> Seq<char> {
    let props = component_props(content);
    let helpers = component_helpers(content);
    when(
        debug,
        "\t// Component: <"@ + component.tag@ + "> from "@ + file_name(component.source_file@)
            + "\n"@,
    ) + helper_texts(helpers, props, helpers.len()) + "\tstring __component_"@ + sanitized(
        component.class_name@,
    ) + "_render("@ + join(param_list(props), ", "@) + ")\n"@ + indented(
        without_this(component_render_body(content), props, props.len()),
        2,
    ) + "\n\n"@
}

fn render_function_chars(component: &Component, content: &str, options: &CodegenOptions) -> (out: Vec<char>)
    ensures
        out@ == render_function(*component, content@, options.debug_comments),
{
    let v = chars_of(content);
    let props = extract_component_props(content);
    let helpers = component_helpers_chars(&v);
    let mut out: Vec<char> = Vec::new();
    if options.debug_comments {
        push_str(&mut out, "\t// Component: <");
        push_str(&mut out, component.tag.as_str());
        push_str(&mut out, "> from ");
        push_all(&mut out, &file_name_chars(&chars_of(component.source_file.as_str())));
        push_str(&mut out, "\n");
    }
    assert(out@ =~= when(
        options.debug_comments,
        "\t// Component: <"@ + component.tag@ + "> from "@ + file_name(component.source_file@)
            + "\n"@,
    ));
    let ghost head = out@;
    let mut i: usize = 0;
    assert(out@ =~= head + Seq::<char>::empty());
    while i < helpers.len()
        invariant
            i <= helpers.len(),
            out@ == head + helper_texts(views(helpers@), prop_views(props@), i as nat),
        decreases helpers.len() - i,
    {
        let h = slice(&helpers[i], 0, helpers[i].len());
        assert(h@ =~= views(helpers@)[i as int]);
        let code = without_this_chars(h, &props);
        push_all(&mut out, &indent_chars(&code, 1));
        push_str(&mut out, "\n\n");
        assert(out@ =~= head + helper_texts(views(helpers@), prop_views(props@), (i + 1) as nat));
        i += 1;
    }
    let ghost mid = out@;
    let mut params: Vec<Vec<char>> = Vec::new();
    let mut k: usize = 0;
    assert(views(params@) =~= param_list(prop_views(props@)).take(0));
    while k < props.len()
        invariant
            k <= props.len(),
            views(params@) == param_list(prop_views(props@)).take(k as int),
        decreases props.len() - k,
    {
        let mut p: Vec<char> = Vec::new();
        push_str(&mut p, props[k].0.as_str());
        push_str(&mut p, " ");
        push_str(&mut p, props[k].1.as_str());
        assert(p@ =~= param_list(prop_views(props@))[k as int]);
        let ghost before = views(params@);
        params.push(p);
        assert(views(params@) =~= before.push(p@));
        assert(views(params@) =~= param_list(prop_views(props@)).take(k + 1));
        k += 1;
    }
    assert(param_list(prop_views(props@)).take(props.len() as int) =~= param_list(
        prop_views(props@),
    ));
    push_str(&mut out, "\tstring __component_");
    push_all(&mut out, &sanitize_chars(&chars_of(component.class_name.as_str())));
    push_str(&mut out, "_render(");
    push_all(&mut out, &join_with(&params, ", "));
    push_str(&mut out, ")\n");
    let body = without_this_chars(component_render_body_chars(&v), &props);
    push_all(&mut out, &indent_chars(&body, 2));
    push_str(&mut out, "\n\n");
    assert(out@ =~= render_function(*component, content@, options.debug_comments));
    out
}

/// Generates the render function of a component from the text of its source
/// file.
pub fn generate_component_render_function(component: &Component, content: &str, options: &CodegenOptions) -> (r: String)
    ensures
        r@ == render_function(*component, content@, options.debug_comments),
{
    string_of(&render_function_chars(component, content, options))
}

/// The statements that read the first `n` parameters of a route.
pub open spec fn param_statements(params: Seq<Seq<char>>, n: nat) -> Seq<char>
    decreases n,
{
    if n == 0 || n > params.len() {
        Seq::empty()
    } else {
        param_statements(params, (n - 1) as nat) + "\t\tstring "@ + params[n - 1]
            + " = _req_param(\""@ + params[n - 1] + "\")\n"@
    }
}

/// The head of a handler: its signature, keyed by the handler index, and one
/// statement for each parameter of the path, from left to right.
pub open spec fn handler_head(path: Seq<char>, index: nat) -> Seq<char> {
    "\tstring __route_handler_"@ + decimal(index) + "()\n"@ + param_statements(
        route_params(path),
        route_params(path).len(),
    )
}

fn push_handler_head(out: &mut Vec<char>, path: &str, index: usize)
    ensures
        final(out)@ == old(out)@ + handler_head(path@, index as nat),
{
    push_str(out, "\tstring __route_handler_");
    push_decimal(out, index as u64);
    push_str(out, "()\n");
    let params = route_params_chars(&chars_of(path));
    let ghost head = out@;
    let mut i: usize = 0;
    assert(out@ =~= head + Seq::<char>::empty());
    while i < params.len()
        invariant
            i <= params.len(),
            out@ == head + param_statements(views(params@), i as nat),
        decreases params.len() - i,
    {
        push_str(out, "\t\tstring ");
        push_all(out, &params[i]);
        push_str(out, " = _req_param(\"");
        push_all(out, &params[i]);
        push_str(out, "\")\n");
        assert(out@ =~= head + param_statements(views(params@), (i + 1) as nat));
        i += 1;
    }
    assert(out@ =~= old(out)@ + handler_head(path@, index as nat));
}

/// The code of a page: inside the layout that it names, where the project
/// has a layout of that name, with the page's data block in front; else the
/// page compiled as it stands.
pub open spec fn page_source(
    content: Seq<char>,
    comps: Seq<Component>,
    layouts: Seq<Layout>,
    layout_sources: Seq<Seq<char>>,
) -> Seq<char> {
    match page_layout(content) {
        Some(name) => {
            let k = layout_index(layouts, name, 0);
            if 0 <= k < layouts.len() && k < layout_sources.len() {
                page_data_block(content) + layout_code(
                    layout_sources[k],
                    page_html_lines(content),
                    comps,
                )
            } else {
                page_code(content, comps)
            }
        },
        None => page_code(content, comps),
    }
}

/// The handler function of a page.
pub open spec fn page_handler(
    page: PageRoute,
    content: Seq<char>,
    index: nat,
    comps: Seq<Component>,
    layouts: Seq<Layout>,
    layout_sources: Seq<Seq<char>>,
    debug: bool,
) -> Seq<char> {
    when(debug, "\t// Handler for "@ + page.path@ + " (from "@ + page.source_file@ + ")\n"@)
        + handler_head(page.path@, index) + indented(
        page_source(content, comps, layouts, layout_sources),
        2,
    ) + "\n"@
}

fn page_source_chars(
    content: &str,
    components: &Vec<Component>,
    layouts: &Vec<Layout>,
    layout_sources: &Vec<String>,
) -> (r: Vec<char>)
    requires
        layout_sources.len() == layouts.len(),
    ensures
        r@ == page_source(content@, components@, layouts@, string_views(layout_sources@)),
{
    let v = chars_of(content);
    match extract_page_layout(content) {
        Some(name) => {
            match find_layout_at(layouts, &chars_of(name.as_str())) {
                Some(k) => {
                    let mut code = page_data_block_chars(&v);
                    let lines = page_html_lines_chars(&v);
                    let layout = chars_of(layout_sources[k].as_str());
                    assert(string_views(layout_sources@)[k as int] == layout@);
                    push_all(&mut code, &layout_code_chars(&layout, &lines, components));
                    code
                },
                None => page_code_chars(&v, components),
            }
        },
        None => page_code_chars(&v, components),
    }
}

fn page_handler_chars(
    page: &PageRoute,
    content: &str,
    handler_index: usize,
    components: &Vec<Component>,
    layouts: &Vec<Layout>,
    layout_sources: &Vec<String>,
    options: &CodegenOptions,
) -> (out: Vec<char>)
    requires
        layout_sources.len() == layouts.len(),
    ensures
        out@ == page_handler(
            *page,
            content@,
            handler_index as nat,
            components@,
            layouts@,
            string_views(layout_sources@),
            options.debug_comments,
        ),
{
    let mut out: Vec<char> = Vec::new();
    if options.debug_comments {
        push_str(&mut out, "\t// Handler for ");
        push_str(&mut out, page.path.as_str());
        push_str(&mut out, " (from ");
        push_str(&mut out, page.source_file.as_str());
        push_str(&mut out, ")\n");
    }
    assert(out@ =~= when(
        options.debug_comments,
        "\t// Handler for "@ + page.path@ + " (from "@ + page.source_file@ + ")\n"@,
    ));
    push_handler_head(&mut out, page.path.as_str(), handler_index);
    let source = page_source_chars(content, components, layouts, layout_sources);
    push_all(&mut out, &indent_chars(&source, 2));
    push_str(&mut out, "\n");
    out
}

/// Generates the handler function of a page from the text of its source
/// file; `layout_sources` holds the text of each layout, in the order of
/// `layouts`.
pub fn generate_page_handler(
    page: &PageRoute,
    content: &str,
    handler_index: usize,
    components: &Vec<Component>,
    layouts: &Vec<Layout>,
    layout_sources: &Vec<String>,
    options: &CodegenOptions,
) -> (r: String)
    requires
        layout_sources.len() == layouts.len(),
    ensures
        r@ == page_handler(
            *page,
            content@,
            handler_index as nat,
            components@,
            layouts@,
            string_views(layout_sources@),
            options.debug_comments,
        ),
{
    string_of(
        &page_handler_chars(
            page,
            content,
            handler_index,
            components,
            layouts,
            layout_sources,
            options,
        ),
    )
}

/// The handler function of an API route: its head, and the text of its
/// source file as the body.
pub open spec fn api_handler(api: ApiRoute, source: Seq<char>, index: nat, debug: bool) -> Seq<char> {
    when(
        debug,
        "\t// API handler for "@ + api.method@ + " "@ + api.path@ + " (from "@ + api.source_file@
            + ")\n"@,
    ) + handler_head(api.path@, index) + indented(source, 2) + "\n"@
}

fn api_handler_chars(api: &ApiRoute, source: &str, handler_index: usize, options: &CodegenOptions) -> (out: Vec<char>)
    ensures
        out@ == api_handler(*api, source@, handler_index as nat, options.debug_comments),
{
    let mut out: Vec<char> = Vec::new();
    if options.debug_comments {
        push_str(&mut out, "\t// API handler for ");
        push_str(&mut out, api.method.as_str());
        push_str(&mut out, " ");
        push_str(&mut out, api.path.as_str());
        push_str(&mut out, " (from ");
        push_str(&mut out, api.source_file.as_str());
        push_str(&mut out, ")\n");
    }
    assert(out@ =~= when(
        options.debug_comments,
        "\t// API handler for "@ + api.method@ + " "@ + api.path@ + " (from "@ + api.source_file@
            + ")\n"@,
    ));
    push_handler_head(&mut out, api.path.as_str(), handler_index);
    push_all(&mut out, &indent_chars(&chars_of(source), 2));
    push_str(&mut out, "\n");
    out
}

/// Generates the handler function of an API route from the text of its
/// source file.
pub fn generate_api_handler(api: &ApiRoute, source: &str, handler_index: usize, options: &CodegenOptions) -> (r: String)
    ensures
        r@ == api_handler(*api, source@, handler_index as nat, options.debug_comments),
{
    string_of(&api_handler_chars(api, source, handler_index, options))
}



/// The texts of a project's source files, as the generator needs them.
#[derive(Debug)]
pub struct ProjectSources {
    /// The text of each page, in the order of the project's pages.
    pub pages: Vec<String>,
    /// The text of each component, in the order of the project's components.
    pub components: Vec<String>,
    /// The text of each layout, in the order of the project's layouts.
    pub layouts: Vec<String>,
    /// The text of each API route, in the order of the project's API routes.
    pub api_routes: Vec<String>,
    /// The texts that are searched for data-access calls.
    pub scanned: Vec<String>,
}

impl ProjectSources {
    /// Whether there is one text for each page, component, layout and API
    /// route of `project`.
    pub open spec fn fits(&self, project: DiscoveredProject) -> bool {
        &&& self.pages@.len() == project.pages@.len()
        &&& self.components@.len() == project.components@.len()
        &&& self.layouts@.len() == project.layouts@.len()
        &&& self.api_routes@.len() == project.api_routes@.len()
    }

    /// Decides whether there is one text for each page, component, layout
    /// and API route of `project`.
    pub fn matches_project(&self, project: &DiscoveredProject) -> (b: bool)
        ensures
            b == self.fits(*project),
    {
        self.pages.len() == project.pages.len() && self.components.len()
            == project.components.len() && self.layouts.len() == project.layouts.len()
            && self.api_routes.len() == project.api_routes.len()
    }
}

/// The comments that name the first `n` models.
pub open spec fn model_includes(models: Seq<Model>, n: nat) -> Seq<char>
    decreases n,
{
    if n == 0 || n > models.len() {
        Seq::empty()
    } else {
        model_includes(models, (n - 1) as nat) + model_include(models[n - 1].source_file@)
    }
}

/// The tags of the components, in order.
pub open spec fn tag_list(comps: Seq<Component>) -> Seq<Seq<char>> {
    Seq::new(comps.len(), |i: int| comps[i].tag@)
}

/// The render functions of the first `n` components.
pub open spec fn render_functions(comps: Seq<Component>, sources: Seq<Seq<char>>, debug: bool, n: nat) -> Seq<char>
    decreases n,
{
    if n == 0 || n > comps.len() || n > sources.len() {
        Seq::empty()
    } else {
        render_functions(comps, sources, debug, (n - 1) as nat) + render_function(
            comps[n - 1],
            sources[n - 1],
            debug,
        )
    }
}

/// The handlers of the first `n` pages, under the indices from `first` on.
pub open spec fn page_handlers(
    project: DiscoveredProject,
    sources: Seq<Seq<char>>,
    layout_sources: Seq<Seq<char>>,
    first: nat,
    debug: bool,
    n: nat,
) -> Seq<char>
    decreases n,
{
    if n == 0 || n > project.pages@.len() || n > sources.len() {
        Seq::empty()
    } else {
        page_handlers(project, sources, layout_sources, first, debug, (n - 1) as nat)
            + page_handler(
            project.pages@[n - 1],
            sources[n - 1],
            (first + n - 1) as nat,
            project.components@,
            project.layouts@,
            layout_sources,
            debug,
        )
    }
}

/// The handlers of the first `n` API routes, under the indices from `first`
/// on.
pub open spec fn api_handlers(apis: Seq<ApiRoute>, sources: Seq<Seq<char>>, first: nat, debug: bool, n: nat) -> Seq<char>
    decreases n,
{
    if n == 0 || n > apis.len() || n > sources.len() {
        Seq::empty()
    } else {
        api_handlers(apis, sources, first, debug, (n - 1) as nat) + api_handler(
            apis[n - 1],
            sources[n - 1],
            (first + n - 1) as nat,
            debug,
        )
    }
}

/// The text of the generated main file.
///
/// The plugin and import blocks come first, then the models, the start
/// block and the functions: the escape function and the render functions
/// where there are components, the page handlers under the indices from the
/// offset on, and the API handlers under the indices that follow.
pub open spec fn main_text(
    project: DiscoveredProject,
    config: ProjectConfig,
    sources: ProjectSources,
    options: CodegenOptions,
) -> Seq<char> {
    let debug = options.debug_comments;
    let offset = offset_of(config.routes@);
    imports_block(project, config, string_views(sources.scanned@)) + when(
        project.models@.len() > 0,
        "\n// Database models\n"@,
    ) + model_includes(project.models@, project.models@.len()) + when(
        project.components@.len() > 0 && debug,
        "\n// Components available: "@ + join(tag_list(project.components@), ", "@) + "\n"@,
    ) + start_block(project, debug, config.port as nat, offset, config.routes@)
        + "\nfunctions:\n"@ + when(project.components@.len() > 0, safe_escape_function())
        + render_functions(
        project.components@,
        string_views(sources.components@),
        debug,
        project.components@.len(),
    ) + page_handlers(
        project,
        string_views(sources.pages@),
        string_views(sources.layouts@),
        offset,
        debug,
        project.pages@.len(),
    ) + api_handlers(
        project.api_routes@,
        string_views(sources.api_routes@),
        offset + project.pages@.len(),
        debug,
        project.api_routes@.len(),
    )
}

/// What has to hold of a project, its configuration and its texts for the
/// generator to run: one text for each source file, and handler indices that
/// fit the machine's word.
pub open spec fn can_generate(project: DiscoveredProject, config: ProjectConfig, sources: ProjectSources) -> bool {
    &&& sources.fits(project)
    &&& forall|i: int| 0 <= i < config.routes@.len() ==> (#[trigger] config.routes@[i]).index < usize::MAX
    &&& offset_of(config.routes@) + project.pages@.len() + project.api_routes@.len() <= usize::MAX
}

fn push_tags(out: &mut Vec<char>, components: &Vec<Component>)
    ensures
        final(out)@ == old(out)@ + join(tag_list(components@), ", "@),
{
    let mut tags: Vec<Vec<char>> = Vec::new();
    let mut i: usize = 0;
    assert(views(tags@) =~= tag_list(components@).take(0));
    while i < components.len()
        invariant
            i <= components.len(),
            views(tags@) == tag_list(components@).take(i as int),
        decreases components.len() - i,
    {
        let t = chars_of(components[i].tag.as_str());
        let ghost before = views(tags@);
        tags.push(t);
        assert(views(tags@) =~= before.push(t@));
        assert(views(tags@) =~= tag_list(components@).take(i + 1));
        i += 1;
    }
    assert(tag_list(components@).take(components.len() as int) =~= tag_list(components@));
    push_all(out, &join_with(&tags, ", "));
}

fn push_model_includes(out: &mut Vec<char>, models: &Vec<Model>)
    ensures
        final(out)@ == old(out)@ + model_includes(models@, models@.len()),
{
    let mut i: usize = 0;
    assert(out@ =~= old(out)@ + Seq::<char>::empty());
    while i < models.len()
        invariant
            i <= models.len(),
            out@ == old(out)@ + model_includes(models@, i as nat),
        decreases models.len() - i,
    {
        push_str(out, "// include: ");
        push_str(out, models[i].source_file.as_str());
        push_str(out, "\n");
        assert(out@ =~= old(out)@ + model_includes(models@, (i + 1) as nat));
        i += 1;
    }
}

fn push_components_comment(out: &mut Vec<char>, components: &Vec<Component>, debug: bool)
    ensures
        final(out)@ == old(out)@ + when(
            components@.len() > 0 && debug,
            "\n// Components available: "@ + join(tag_list(components@), ", "@) + "\n"@,
        ),
{
    if components.len() > 0 && debug {
        push_str(out, "\n// Components available: ");
        push_tags(out, components);
        push_str(out, "\n");
        assert(out@ =~= old(out)@ + ("\n// Components available: "@ + join(
            tag_list(components@),
            ", "@,
        ) + "\n"@));
    } else {
        assert(out@ =~= old(out)@ + Seq::<char>::empty());
    }
}

fn push_render_functions(
    out: &mut Vec<char>,
    components: &Vec<Component>,
    sources: &Vec<String>,
    options: &CodegenOptions,
)
    requires
        sources.len() == components.len(),
    ensures
        final(out)@ == old(out)@ + when(components@.len() > 0, safe_escape_function())
            + render_functions(
            components@,
            string_views(sources@),
            options.debug_comments,
            components@.len(),
        ),
{
    if components.len() > 0 {
        push_all(out, &safe_escape_function_chars());
    }
    let ghost head = out@;
    assert(head =~= old(out)@ + when(components@.len() > 0, safe_escape_function()));
    let mut i: usize = 0;
    assert(out@ =~= head + Seq::<char>::empty());
    while i < components.len()
        invariant
            i <= components.len(),
            sources.len() == components.len(),
            out@ == head + render_functions(
                components@,
                string_views(sources@),
                options.debug_comments,
                i as nat,
            ),
        decreases components.len() - i,
    {
        let f = render_function_chars(&components[i], sources[i].as_str(), options);
        push_all(out, &f);
        assert(out@ =~= head + render_functions(
            components@,
            string_views(sources@),
            options.debug_comments,
            (i + 1) as nat,
        ));
        i += 1;
    }
}

fn push_page_handlers(
    out: &mut Vec<char>,
    project: &DiscoveredProject,
    sources: &Vec<String>,
    layout_sources: &Vec<String>,
    first: usize,
    options: &CodegenOptions,
)
    requires
        sources.len() == project.pages.len(),
        layout_sources.len() == project.layouts.len(),
        first + project.pages.len() <= usize::MAX,
    ensures
        final(out)@ == old(out)@ + page_handlers(
            *project,
            string_views(sources@),
            string_views(layout_sources@),
            first as nat,
            options.debug_comments,
            project.pages@.len(),
        ),
{
    let mut i: usize = 0;
    assert(out@ =~= old(out)@ + Seq::<char>::empty());
    while i < project.pages.len()
        invariant
            i <= project.pages.len(),
            sources.len() == project.pages.len(),
            layout_sources.len() == project.layouts.len(),
            first + project.pages.len() <= usize::MAX,
            out@ == old(out)@ + page_handlers(
                *project,
                string_views(sources@),
                string_views(layout_sources@),
                first as nat,
                options.debug_comments,
                i as nat,
            ),
        decreases project.pages.len() - i,
    {
        let h = page_handler_chars(
            &project.pages[i],
            sources[i].as_str(),
            first + i,
            &project.components,
            &project.layouts,
            layout_sources,
            options,
        );
        push_all(out, &h);
        assert(out@ =~= old(out)@ + page_handlers(
            *project,
            string_views(sources@),
            string_views(layout_sources@),
            first as nat,
            options.debug_comments,
            (i + 1) as nat,
        ));
        i += 1;
    }
}

fn push_api_handlers(
    out: &mut Vec<char>,
    apis: &Vec<ApiRoute>,
    sources: &Vec<String>,
    first: usize,
    options: &CodegenOptions,
)
    requires
        sources.len() == apis.len(),
        first + apis.len() <= usize::MAX,
    ensures
        final(out)@ == old(out)@ + api_handlers(
            apis@,
            string_views(sources@),
            first as nat,
            options.debug_comments,
            apis@.len(),
        ),
{
    let mut i: usize = 0;
    assert(out@ =~= old(out)@ + Seq::<char>::empty());
    while i < apis.len()
        invariant
            i <= apis.len(),
            sources.len() == apis.len(),
            first + apis.len() <= usize::MAX,
            out@ == old(out)@ + api_handlers(
                apis@,
                string_views(sources@),
                first as nat,
                options.debug_comments,
                i as nat,
            ),
        decreases apis.len() - i,
    {
        let h = api_handler_chars(&apis[i], sources[i].as_str(), first + i, options);
        push_all(out, &h);
        assert(out@ =~= old(out)@ + api_handlers(
            apis@,
            string_views(sources@),
            first as nat,
            options.debug_comments,
            (i + 1) as nat,
        ));
        i += 1;
    }
}

fn main_text_chars(
    project: &DiscoveredProject,
    config: &ProjectConfig,
    sources: &ProjectSources,
    options: &CodegenOptions,
) -> (out: Vec<char>)
    requires
        can_generate(*project, *config, *sources),
    ensures
        out@ == main_text(*project, *config, *sources, *options),
{
    let offset = handler_offset(&config.routes);
    let mut out = imports_block_chars(project, config, &sources.scanned);
    push_when(&mut out, project.models.len() > 0, "\n// Database models\n");
    push_model_includes(&mut out, &project.models);
    push_components_comment(&mut out, &project.components, options.debug_comments);
    push_all(&mut out, &start_block_chars(project, options, config.port, offset, &config.routes));
    push_str(&mut out, "\nfunctions:\n");
    push_render_functions(&mut out, &project.components, &sources.components, options);
    push_page_handlers(&mut out, project, &sources.pages, &sources.layouts, offset, options);
    push_api_handlers(
        &mut out,
        &project.api_routes,
        &sources.api_routes,
        offset + project.pages.len(),
        options,
    );
    out
}

/// Generates the main file, the component registry and the compile order of
/// a discovered project.
pub fn generate_code(
    project: &DiscoveredProject,
    config: &ProjectConfig,
    sources: &ProjectSources,
    options: &CodegenOptions,
) -> (g: GeneratedCode)
    requires
        can_generate(*project, *config, *sources),
    ensures
        g.main_cln@ == main_text(*project, *config, *sources, *options),
        g.component_registry is Some == (options.generate_registry && project.components@.len() > 0),
        g.component_registry matches Some(r) ==> r@ == registry(project.components@),
        string_views(g.compile_order@) == compile_order(*project),
{
    let main_cln = string_of(&main_text_chars(project, config, sources, options));
    let component_registry = if options.generate_registry && project.components.len() > 0 {
        Some(generate_component_registry(&project.components))
    } else {
        None
    };
    let compile_order = build_compile_order(project);
    GeneratedCode { main_cln, component_registry, compile_order }
}

/// Generates as `generate_code` does where the project, its configuration
/// and its texts fit together, and nothing where they do not.
pub fn try_generate_code(
    project: &DiscoveredProject,
    config: &ProjectConfig,
    sources: &ProjectSources,
    options: &CodegenOptions,
) -> (r: Option<GeneratedCode>)
    ensures
        r is Some == can_generate(*project, *config, *sources),
        r matches Some(g) ==> {
            &&& g.main_cln@ == main_text(*project, *config, *sources, *options)
            &&& g.component_registry is Some == (options.generate_registry
                && project.components@.len() > 0)
            &&& (g.component_registry matches Some(r) ==> r@ == registry(project.components@))
            &&& string_views(g.compile_order@) == compile_order(*project)
        },
{
    if !sources.matches_project(project) {
        return None;
    }
    let mut i: usize = 0;
    while i < config.routes.len()
        invariant
            i <= config.routes.len(),
            forall|k: int| 0 <= k < i ==> (#[trigger] config.routes@[k]).index < usize::MAX,
        decreases config.routes.len() - i,
    {
        if config.routes[i].index == usize::MAX {
            return None;
        }
        i += 1;
    }
    let offset = handler_offset(&config.routes);
    if project.pages.len() > usize::MAX - offset || project.api_routes.len() > usize::MAX - offset
        - project.pages.len() {
        return None;
    }
    Some(generate_code(project, config, sources, options))
}

} // verus!
