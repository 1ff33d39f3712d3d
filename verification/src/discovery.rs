//! The project model that discovery produces, and the naming rules that turn
//! file names into routes, tags and table names.

use vstd::prelude::*;
use crate::text::{
    chars_of, string_of, ends_with, has_suffix_str, equals_str, push_all, push_str, slice,
    last_char, scan_last_char, scan_char, lemma_next_char, is_upper, is_upper_char,
    ascii_lower, to_ascii_lower, strip_suffix_all, strip_suffix_all_of,
};

verus! {

/// A discovered page and the route that serves it.
#[derive(Debug, Clone)]
pub struct PageRoute {
    /// HTTP method; always "GET" for a page.
    pub method: String,
    /// URL path, such as "/blog/:slug".
    pub path: String,
    /// Path of the source file, relative to the project root.
    pub source_file: String,
    /// Position of the page in the order of discovery.
    pub handler_index: usize,
    /// Name of the layout, where one is set.
    pub layout: Option<String>,
    /// Auth requirement, where one is set.
    pub auth: Option<String>,
    /// Cache setting, where one is set.
    pub cache: Option<String>,
}

/// A discovered API route.
#[derive(Debug, Clone)]
pub struct ApiRoute {
    /// HTTP method.
    pub method: String,
    /// URL path, such as "/api/users/:id".
    pub path: String,
    /// Path of the source file, relative to the project root.
    pub source_file: String,
    /// Position of the route in the order of discovery.
    pub handler_index: usize,
    /// Middleware to apply.
    pub middleware: Vec<String>,
}

/// A discovered layout; pages name it to be wrapped by it.
#[derive(Debug, Clone)]
pub struct Layout {
    /// Name, such as "main".
    pub name: String,
    /// Path of the source file, relative to the project root.
    pub source_file: String,
}

/// A discovered database model.
#[derive(Debug, Clone)]
pub struct Model {
    /// Name, such as "User".
    pub name: String,
    /// Table name, such as "users".
    pub table: String,
    /// Path of the source file, relative to the project root.
    pub source_file: String,
}

/// A discovered middleware.
#[derive(Debug, Clone)]
pub struct Middleware {
    /// Name, such as "auth".
    pub name: String,
    /// Path of the source file, relative to the project root.
    pub source_file: String,
    /// Route patterns that it applies to.
    pub applies_to: Vec<String>,
}

/// A discovered module of the shared library.
#[derive(Debug, Clone)]
pub struct LibModule {
    /// Name of the module.
    pub name: String,
    /// Path of the source file, relative to the project root.
    pub source_file: String,
}

/// Everything that discovery found in a project.
#[derive(Debug)]
pub struct DiscoveredProject {
    pub pages: Vec<PageRoute>,
    pub components: Vec<Component>,
    pub layouts: Vec<Layout>,
    pub api_routes: Vec<ApiRoute>,
    pub models: Vec<Model>,
    pub middleware: Vec<Middleware>,
    pub lib_modules: Vec<LibModule>,
    /// Directory of static files, where the project has one.
    pub public_dir: Option<String>,
}

impl Default for DiscoveredProject {
    fn default() -> (p: Self)
        ensures
            p.spec_total() == 0,
            p.public_dir is None,
    {
        DiscoveredProject {
            pages: Vec::new(),
            components: Vec::new(),
            layouts: Vec::new(),
            api_routes: Vec::new(),
            models: Vec::new(),
            middleware: Vec::new(),
            lib_modules: Vec::new(),
            public_dir: None,
        }
    }
}

impl DiscoveredProject {
    /// The number of discovered items of all seven categories.
    pub open spec fn spec_total(&self) -> nat {
        self.pages@.len() + self.components@.len() + self.layouts@.len() + self.api_routes@.len()
            + self.models@.len() + self.middleware@.len() + self.lib_modules@.len()
    }

    /// Whether nothing was discovered.
    pub fn is_empty(&self) -> (b: bool)
        ensures
            b == (self.spec_total() == 0),
    {
        self.pages.len() == 0 && self.components.len() == 0 && self.layouts.len() == 0
            && self.api_routes.len() == 0 && self.models.len() == 0 && self.middleware.len() == 0
            && self.lib_modules.len() == 0
    }

    /// The number of discovered items.
    pub fn total_count(&self) -> (n: usize)
        requires
            self.spec_total() <= usize::MAX,
        ensures
            n == self.spec_total(),
    {
        self.pages.len() + self.components.len() + self.layouts.len() + self.api_routes.len()
            + self.models.len() + self.middleware.len() + self.lib_modules.len()
    }
}

/// A discovered UI component.
#[derive(Debug, Clone)]
pub struct Component {
    /// Tag name of the custom element, such as "user-card".
    pub tag: String,
    /// Class name, such as "UserCard".
    pub class_name: String,
    /// Path of the source file, relative to the project root.
    pub source_file: String,
    /// Hydration mode: "off", "on", "visible" or "idle".
    pub hydration: String,
}



/// The last segment of a path: what follows its last slash.
pub open spec fn base_name(path: Seq<char>) -> Seq<char> {
    path.subrange(last_char(path, '/', path.len() as int) + 1, path.len() as int)
}

/// The position of the dot that opens the extension of a file name, where
/// it has an extension: its last dot, unless that is its first character.
pub open spec fn extension_dot(name: Seq<char>) -> int {
    last_char(name, '.', name.len() as int)
}

/// The stem of a path: its last segment without the extension.
pub open spec fn file_stem(path: Seq<char>) -> Seq<char> {
    let name = base_name(path);
    if extension_dot(name) > 0 {
        name.subrange(0, extension_dot(name))
    } else {
        name
    }
}

/// Whether a path names a source file of the target language: its
/// extension is `cln`.
pub open spec fn cln_file(path: Seq<char>) -> bool {
    let name = base_name(path);
    extension_dot(name) > 0 && name.subrange(extension_dot(name) + 1, name.len() as int) == "cln"@
}

/// Whether a path names a page: it ends in `.html.cln` or in `.html`.
pub open spec fn page_file(path: Seq<char>) -> bool {
    ends_with(path, ".html.cln"@) || ends_with(path, ".html"@)
}

fn base_name_chars(path: &Vec<char>) -> (r: Vec<char>)
    ensures
        r@ == base_name(path@),
{
    match scan_last_char(path, '/') {
        Some(k) => slice(path, k + 1, path.len()),
        None => slice(path, 0, path.len()),
    }
}

fn file_stem_chars(path: &Vec<char>) -> (r: Vec<char>)
    ensures
        r@ == file_stem(path@),
{
    let name = base_name_chars(path);
    match scan_last_char(&name, '.') {
        Some(k) => {
            if k > 0 {
                slice(&name, 0, k)
            } else {
                name
            }
        },
        None => name,
    }
}

/// Decides whether a path names a source file of the target language.
pub fn is_cln_file(path: &str) -> (b: bool)
    ensures
        b == cln_file(path@),
{
    let name = base_name_chars(&chars_of(path));
    match scan_last_char(&name, '.') {
        Some(k) => k > 0 && equals_str(&slice(&name, k + 1, name.len()), "cln"),
        None => false,
    }
}

/// Decides whether a path names a page.
pub fn is_page_file(path: &str) -> (b: bool)
    ensures
        b == page_file(path@),
{
    let v = chars_of(path);
    has_suffix_str(&v, ".html.cln") || has_suffix_str(&v, ".html")
}

/// The state of the rewriting of bracketed segments, between two
/// characters.
pub ghost struct BracketState {
    pub out: Seq<char>,
    pub in_bracket: bool,
    pub name: Seq<char>,
}

/// The transition of that rewriting: an opening bracket starts a name, a
/// closing bracket emits a colon and the name, and every other character
/// goes to the name inside brackets and to the output outside.
pub open spec fn bracket_step(st: BracketState, c: char) -> BracketState {
    if c == '[' {
        BracketState { in_bracket: true, name: Seq::empty(), ..st }
    } else if c == ']' {
        BracketState { in_bracket: false, out: st.out.push(':') + st.name, ..st }
    } else if st.in_bracket {
        BracketState { name: st.name.push(c), ..st }
    } else {
        BracketState { out: st.out.push(c), ..st }
    }
}

/// The state of the rewriting after the first `n` characters.
pub open spec fn bracket_run(s: Seq<char>, n: nat) -> BracketState
    decreases n,
{
    if n == 0 || n > s.len() {
        BracketState { out: Seq::empty(), in_bracket: false, name: Seq::empty() }
    } else {
        bracket_step(bracket_run(s, (n - 1) as nat), s[n - 1])
    }
}

/// A path with each `[name]` turned into `:name`.
pub open spec fn with_params(path: Seq<char>) -> Seq<char> {
    bracket_run(path, path.len()).out
}

/// Converts bracketed segments into route parameters, character vector to
/// character vector.
pub fn convert_params_chars(path: &Vec<char>) -> (r: Vec<char>)
    ensures
        r@ == with_params(path@),
{
    let mut out: Vec<char> = Vec::new();
    let mut name: Vec<char> = Vec::new();
    let mut in_bracket = false;
    let mut i: usize = 0;
    while i < path.len()
        invariant
            i <= path.len(),
            bracket_run(path@, i as nat) == (BracketState { out: out@, in_bracket, name: name@ }),
        decreases path.len() - i,
    {
        let c = path[i];
        if c == '[' {
            in_bracket = true;
            name = Vec::new();
        } else if c == ']' {
            in_bracket = false;
            out.push(':');
            push_all(&mut out, &name);
        } else if in_bracket {
            name.push(c);
        } else {
            out.push(c);
        }
        i += 1;
    }
    out
}

/// Converts the bracketed segments of a path into route parameters.
pub fn convert_params(path: &str) -> (r: String)
    ensures
        r@ == with_params(path@),
{
    string_of(&convert_params_chars(&chars_of(path)))
}

/// The route of a page, from the path of its file below the pages
/// directory: the page suffix is dropped, `index` stands for its directory,
/// and bracketed segments become parameters.
pub open spec fn route_path(relative: Seq<char>) -> Seq<char> {
    let stem = strip_suffix_all(strip_suffix_all(relative, ".html.cln"@), ".html"@);
    if stem == "index"@ || stem.len() == 0 {
        with_params("/"@)
    } else if ends_with(stem, "/index"@) {
        with_params("/"@ + strip_suffix_all(stem, "/index"@))
    } else {
        with_params("/"@ + stem)
    }
}

/// The route of an API file, from its path below the API directory: as for
/// a page, with the suffix `.cln` and under `/api`.
pub open spec fn api_route_path(relative: Seq<char>) -> Seq<char> {
    let stem = strip_suffix_all(relative, ".cln"@);
    if stem == "index"@ || stem.len() == 0 {
        with_params("/api"@)
    } else if ends_with(stem, "/index"@) {
        with_params("/api/"@ + strip_suffix_all(stem, "/index"@))
    } else {
        with_params("/api/"@ + stem)
    }
}

fn route_of_stem(stem: &Vec<char>, root: &str, prefix: &str) -> (r: Vec<char>)
    ensures
        r@ == (if stem@ == "index"@ || stem@.len() == 0 {
            with_params(root@)
        } else if ends_with(stem@, "/index"@) {
            with_params(prefix@ + strip_suffix_all(stem@, "/index"@))
        } else {
            with_params(prefix@ + stem@)
        }),
{
    let mut p: Vec<char> = Vec::new();
    if equals_str(stem, "index") || stem.len() == 0 {
        push_str(&mut p, root);
        assert(p@ =~= root@);
    } else if has_suffix_str(stem, "/index") {
        push_str(&mut p, prefix);
        push_all(&mut p, &strip_suffix_all_of(stem, "/index"));
        assert(p@ =~= prefix@ + strip_suffix_all(stem@, "/index"@));
    } else {
        push_str(&mut p, prefix);
        push_all(&mut p, stem);
        assert(p@ =~= prefix@ + stem@);
    }
    convert_params_chars(&p)
}

/// Derives the route of a page from the path of its file below the pages
/// directory.
pub fn file_to_route_path(relative: &str) -> (r: String)
    ensures
        r@ == route_path(relative@),
{
    let v = chars_of(relative);
    let stem = strip_suffix_all_of(&strip_suffix_all_of(&v, ".html.cln"), ".html");
    string_of(&route_of_stem(&stem, "/", "/"))
}

/// Derives the route of an API file from its path below the API directory.
pub fn file_to_api_route_path(relative: &str) -> (r: String)
    ensures
        r@ == api_route_path(relative@),
{
    let v = chars_of(relative);
    let stem = strip_suffix_all_of(&v, ".cln");
    string_of(&route_of_stem(&stem, "/api", "/api/"))
}

/// The first `n` characters of a name in kebab case: each capital letter in
/// lower case, behind a hyphen unless nothing stands before it.
pub open spec fn kebab(name: Seq<char>, n: nat) -> Seq<char>
    decreases n,
{
    if n == 0 || n > name.len() {
        Seq::empty()
    } else {
        let before = kebab(name, (n - 1) as nat);
        let c = name[n - 1];
        if !is_upper(c) {
            before.push(c)
        } else if before.len() > 0 {
            before.push('-').push(ascii_lower(c))
        } else {
            before.push(ascii_lower(c))
        }
    }
}

/// The first `n` characters of a name in snake case: each capital letter in
/// lower case, behind an underscore unless it is the first character.
pub open spec fn snake(name: Seq<char>, n: nat) -> Seq<char>
    decreases n,
{
    if n == 0 || n > name.len() {
        Seq::empty()
    } else {
        let before = snake(name, (n - 1) as nat);
        let c = name[n - 1];
        if !is_upper(c) {
            before.push(c)
        } else if n > 1 {
            before.push('_').push(ascii_lower(c))
        } else {
            before.push(ascii_lower(c))
        }
    }
}

/// The tag of a component: its class name in kebab case, behind `app-`
/// where it would have no hyphen.
pub open spec fn tag_of(class_name: Seq<char>) -> Seq<char> {
    let kebab = kebab(class_name, class_name.len());
    if kebab.contains('-') {
        kebab
    } else {
        "app-"@ + kebab
    }
}

/// The table of a model: its name in snake case, with an `s` at its end
/// where it has none.
pub open spec fn table_of(name: Seq<char>) -> Seq<char> {
    let snake = snake(name, name.len());
    if snake.len() > 0 && snake.last() == 's' {
        snake
    } else {
        snake.push('s')
    }
}

fn kebab_chars(name: &Vec<char>) -> (r: Vec<char>)
    ensures
        r@ == kebab(name@, name@.len()),
{
    let mut r: Vec<char> = Vec::new();
    let mut i: usize = 0;
    while i < name.len()
        invariant
            i <= name.len(),
            r@ == kebab(name@, i as nat),
        decreases name.len() - i,
    {
        let c = name[i];
        if !is_upper_char(c) {
            r.push(c);
        } else {
            if r.len() > 0 {
                r.push('-');
            }
            r.push(to_ascii_lower(c));
        }
        i += 1;
    }
    r
}

fn snake_chars(name: &Vec<char>) -> (r: Vec<char>)
    ensures
        r@ == snake(name@, name@.len()),
{
    let mut r: Vec<char> = Vec::new();
    let mut i: usize = 0;
    while i < name.len()
        invariant
            i <= name.len(),
            r@ == snake(name@, i as nat),
        decreases name.len() - i,
    {
        let c = name[i];
        if !is_upper_char(c) {
            r.push(c);
        } else {
            if i > 0 {
                r.push('_');
            }
            r.push(to_ascii_lower(c));
        }
        i += 1;
    }
    r
}

/// Every tag holds a hyphen.
pub proof fn lemma_tag_has_hyphen(class_name: Seq<char>)
    ensures
        tag_of(class_name).contains('-'),
{
    let kebab = kebab(class_name, class_name.len());
    if !kebab.contains('-') {
        reveal_strlit("app-");
        assert(("app-"@ + kebab)[3] == '-');
    }
}

/// Every table name ends with an `s`.
pub proof fn lemma_table_is_plural(name: Seq<char>)
    ensures
        table_of(name).len() > 0,
        table_of(name).last() == 's',
{
}

/// Derives the tag of a component from its class name.
pub fn class_name_to_tag(class_name: &str) -> (r: String)
    ensures
        r@ == tag_of(class_name@),
        r@.contains('-'),
{
    let kebab = kebab_chars(&chars_of(class_name));
    let j = scan_char(&kebab, '-', 0);
    proof {
        lemma_next_char(kebab@, '-', 0);
        lemma_tag_has_hyphen(class_name@);
    }
    if j < kebab.len() {
        assert(kebab@[j as int] == '-');
        string_of(&kebab)
    } else {
        let mut t: Vec<char> = Vec::new();
        push_str(&mut t, "app-");
        push_all(&mut t, &kebab);
        assert(t@ =~= "app-"@ + kebab@);
        string_of(&t)
    }
}

/// Derives the table name of a model from its name.
pub fn pascal_to_snake(name: &str) -> (r: String)
    ensures
        r@ == table_of(name@),
        r@.len() > 0 && r@.last() == 's',
{
    let mut snake = snake_chars(&chars_of(name));
    if !(snake.len() > 0 && snake[snake.len() - 1] == 's') {
        snake.push('s');
    }
    string_of(&snake)
}



/// A file that the walk through a project found.
#[derive(Debug, Clone)]
pub struct FoundFile {
    /// Its path below the directory of its category, with `/` between the
    /// segments.
    pub relative: String,
    /// Its path from the project root.
    pub source_file: String,
}

/// The files of a project, by category and in the order in which the walk
/// read them.
#[derive(Debug)]
pub struct ProjectFiles {
    pub pages: Vec<FoundFile>,
    pub components: Vec<FoundFile>,
    pub layouts: Vec<FoundFile>,
    pub api_routes: Vec<FoundFile>,
    pub models: Vec<FoundFile>,
    pub middleware: Vec<FoundFile>,
    pub lib_modules: Vec<FoundFile>,
    /// The directory of static files, where there is one.
    pub public_dir: Option<String>,
}

/// What a category takes up.
#[derive(Clone, Copy, PartialEq, Eq, Debug)]
pub enum FileKind {
    /// Page files.
    Page,
    /// Source files of the target language.
    Source,
    /// Both of them.
    Layout,
}

/// Whether a category of the kind `kind` takes up the file `f`.
pub open spec fn accepts(kind: FileKind, f: FoundFile) -> bool {
    match kind {
        FileKind::Page => page_file(f.source_file@),
        FileKind::Source => cln_file(f.source_file@),
        FileKind::Layout => cln_file(f.source_file@) || page_file(f.source_file@),
    }
}

/// Those of the first `n` files that a category takes up, in order.
pub open spec fn selected(kind: FileKind, files: Seq<FoundFile>, n: nat) -> Seq<FoundFile>
    decreases n,
{
    if n == 0 || n > files.len() {
        Seq::empty()
    } else if accepts(kind, files[n - 1]) {
        selected(kind, files, (n - 1) as nat).push(files[n - 1])
    } else {
        selected(kind, files, (n - 1) as nat)
    }
}

fn accepts_file(kind: FileKind, f: &FoundFile) -> (b: bool)
    ensures
        b == accepts(kind, *f),
{
    match kind {
        FileKind::Page => is_page_file(f.source_file.as_str()),
        FileKind::Source => is_cln_file(f.source_file.as_str()),
        FileKind::Layout => is_cln_file(f.source_file.as_str()) || is_page_file(
            f.source_file.as_str(),
        ),
    }
}

/// Whether `p` is the page that the file `f` gives at position `k`.
pub open spec fn is_page_of(p: PageRoute, f: FoundFile, k: int) -> bool {
    &&& p.method@ == "GET"@
    &&& p.path@ == route_path(f.relative@)
    &&& p.source_file@ == f.source_file@
    &&& p.handler_index == k
    &&& p.layout is None
    &&& p.auth is None
    &&& p.cache is None
}

/// Whether `a` is the API route that the file `f` gives at position `k`.
pub open spec fn is_api_of(a: ApiRoute, f: FoundFile, k: int) -> bool {
    &&& a.method@ == "GET"@
    &&& a.path@ == api_route_path(f.relative@)
    &&& a.source_file@ == f.source_file@
    &&& a.handler_index == k
    &&& a.middleware@.len() == 0
}

/// Whether `c` is the component that the file `f` gives.
pub open spec fn is_component_of(c: Component, f: FoundFile) -> bool {
    &&& c.class_name@ == file_stem(f.source_file@)
    &&& c.tag@ == tag_of(file_stem(f.source_file@))
    &&& c.source_file@ == f.source_file@
    &&& c.hydration@ == "off"@
}

/// Whether `l` is the layout that the file `f` gives.
pub open spec fn is_layout_of(l: Layout, f: FoundFile) -> bool {
    &&& l.name@ == strip_suffix_all(file_stem(f.source_file@), ".html"@)
    &&& l.source_file@ == f.source_file@
}

/// Whether `m` is the model that the file `f` gives.
pub open spec fn is_model_of(m: Model, f: FoundFile) -> bool {
    &&& m.name@ == file_stem(f.source_file@)
    &&& m.table@ == table_of(file_stem(f.source_file@))
    &&& m.source_file@ == f.source_file@
}

/// Whether `m` is the middleware that the file `f` gives.
pub open spec fn is_middleware_of(m: Middleware, f: FoundFile) -> bool {
    &&& m.name@ == file_stem(f.source_file@)
    &&& m.source_file@ == f.source_file@
    &&& m.applies_to@.len() == 0
}

/// Whether `m` is the library module that the file `f` gives.
pub open spec fn is_lib_of(m: LibModule, f: FoundFile) -> bool {
    &&& m.name@ == file_stem(f.source_file@)
    &&& m.source_file@ == f.source_file@
}

fn stem_of(f: &FoundFile) -> (r: (String, Vec<char>))
    ensures
        r.0@ == file_stem(f.source_file@),
        r.1@ == file_stem(f.source_file@),
{
    let stem = file_stem_chars(&chars_of(f.source_file.as_str()));
    (string_of(&stem), stem)
}

fn copy_of(s: &String) -> (r: String)
    ensures
        r@ == s@,
{
    string_of(&chars_of(s.as_str()))
}

/// The pages among the files of the pages directory.
pub fn discover_pages(files: &Vec<FoundFile>) -> (r: Vec<PageRoute>)
    ensures
        r@.len() == selected(FileKind::Page, files@, files@.len()).len(),
        forall|k: int|
            0 <= k < r@.len() ==> is_page_of(
                #[trigger] r@[k],
                selected(FileKind::Page, files@, files@.len())[k],
                k,
            ),
{
    let mut r: Vec<PageRoute> = Vec::new();
    let mut i: usize = 0;
    while i < files.len()
        invariant
            i <= files.len(),
            r@.len() == selected(FileKind::Page, files@, i as nat).len(),
            forall|k: int|
                0 <= k < r@.len() ==> is_page_of(
                    #[trigger] r@[k],
                    selected(FileKind::Page, files@, i as nat)[k],
                    k,
                ),
        decreases files.len() - i,
    {
        if accepts_file(FileKind::Page, &files[i]) {
            let page = PageRoute {
                method: string_of(&chars_of("GET")),
                path: file_to_route_path(files[i].relative.as_str()),
                source_file: copy_of(&files[i].source_file),
                handler_index: r.len(),
                layout: None,
                auth: None,
                cache: None,
            };
            r.push(page);
        }
        i += 1;
    }
    r
}

/// The API routes among the files of the API directory.
pub fn discover_api_routes(files: &Vec<FoundFile>) -> (r: Vec<ApiRoute>)
    ensures
        r@.len() == selected(FileKind::Source, files@, files@.len()).len(),
        forall|k: int|
            0 <= k < r@.len() ==> is_api_of(
                #[trigger] r@[k],
                selected(FileKind::Source, files@, files@.len())[k],
                k,
            ),
{
    let mut r: Vec<ApiRoute> = Vec::new();
    let mut i: usize = 0;
    while i < files.len()
        invariant
            i <= files.len(),
            r@.len() == selected(FileKind::Source, files@, i as nat).len(),
            forall|k: int|
                0 <= k < r@.len() ==> is_api_of(
                    #[trigger] r@[k],
                    selected(FileKind::Source, files@, i as nat)[k],
                    k,
                ),
        decreases files.len() - i,
    {
        if accepts_file(FileKind::Source, &files[i]) {
            let api = ApiRoute {
                method: string_of(&chars_of("GET")),
                path: file_to_api_route_path(files[i].relative.as_str()),
                source_file: copy_of(&files[i].source_file),
                handler_index: r.len(),
                middleware: Vec::new(),
            };
            r.push(api);
        }
        i += 1;
    }
    r
}

/// The components among the files of the components directory.
pub fn discover_components(files: &Vec<FoundFile>) -> (r: Vec<Component>)
    ensures
        r@.len() == selected(FileKind::Source, files@, files@.len()).len(),
        forall|k: int|
            0 <= k < r@.len() ==> is_component_of(
                #[trigger] r@[k],
                selected(FileKind::Source, files@, files@.len())[k],
            ),
{
    let mut r: Vec<Component> = Vec::new();
    let mut i: usize = 0;
    while i < files.len()
        invariant
            i <= files.len(),
            r@.len() == selected(FileKind::Source, files@, i as nat).len(),
            forall|k: int|
                0 <= k < r@.len() ==> is_component_of(
                    #[trigger] r@[k],
                    selected(FileKind::Source, files@, i as nat)[k],
                ),
        decreases files.len() - i,
    {
        if accepts_file(FileKind::Source, &files[i]) {
            let (class_name, _) = stem_of(&files[i]);
            let component = Component {
                tag: class_name_to_tag(class_name.as_str()),
                class_name,
                source_file: copy_of(&files[i].source_file),
                hydration: string_of(&chars_of("off")),
            };
            r.push(component);
        }
        i += 1;
    }
    r
}

/// The layouts among the files of the layouts directory.
pub fn discover_layouts(files: &Vec<FoundFile>) -> (r: Vec<Layout>)
    ensures
        r@.len() == selected(FileKind::Layout, files@, files@.len()).len(),
        forall|k: int|
            0 <= k < r@.len() ==> is_layout_of(
                #[trigger] r@[k],
                selected(FileKind::Layout, files@, files@.len())[k],
            ),
{
    let mut r: Vec<Layout> = Vec::new();
    let mut i: usize = 0;
    while i < files.len()
        invariant
            i <= files.len(),
            r@.len() == selected(FileKind::Layout, files@, i as nat).len(),
            forall|k: int|
                0 <= k < r@.len() ==> is_layout_of(
                    #[trigger] r@[k],
                    selected(FileKind::Layout, files@, i as nat)[k],
                ),
        decreases files.len() - i,
    {
        if accepts_file(FileKind::Layout, &files[i]) {
            let (_, stem) = stem_of(&files[i]);
            let layout = Layout {
                name: string_of(&strip_suffix_all_of(&stem, ".html")),
                source_file: copy_of(&files[i].source_file),
            };
            r.push(layout);
        }
        i += 1;
    }
    r
}

/// The models among the files of the models directory.
pub fn discover_models(files: &Vec<FoundFile>) -> (r: Vec<Model>)
    ensures
        r@.len() == selected(FileKind::Source, files@, files@.len()).len(),
        forall|k: int|
            0 <= k < r@.len() ==> is_model_of(
                #[trigger] r@[k],
                selected(FileKind::Source, files@, files@.len())[k],
            ),
{
    let mut r: Vec<Model> = Vec::new();
    let mut i: usize = 0;
    while i < files.len()
        invariant
            i <= files.len(),
            r@.len() == selected(FileKind::Source, files@, i as nat).len(),
            forall|k: int|
                0 <= k < r@.len() ==> is_model_of(
                    #[trigger] r@[k],
                    selected(FileKind::Source, files@, i as nat)[k],
                ),
        decreases files.len() - i,
    {
        if accepts_file(FileKind::Source, &files[i]) {
            let (name, _) = stem_of(&files[i]);
            let model = Model {
                table: pascal_to_snake(name.as_str()),
                name,
                source_file: copy_of(&files[i].source_file),
            };
            r.push(model);
        }
        i += 1;
    }
    r
}

/// The middleware among the files of the middleware directory.
pub fn discover_middleware(files: &Vec<FoundFile>) -> (r: Vec<Middleware>)
    ensures
        r@.len() == selected(FileKind::Source, files@, files@.len()).len(),
        forall|k: int|
            0 <= k < r@.len() ==> is_middleware_of(
                #[trigger] r@[k],
                selected(FileKind::Source, files@, files@.len())[k],
            ),
{
    let mut r: Vec<Middleware> = Vec::new();
    let mut i: usize = 0;
    while i < files.len()
        invariant
            i <= files.len(),
            r@.len() == selected(FileKind::Source, files@, i as nat).len(),
            forall|k: int|
                0 <= k < r@.len() ==> is_middleware_of(
                    #[trigger] r@[k],
                    selected(FileKind::Source, files@, i as nat)[k],
                ),
        decreases files.len() - i,
    {
        if accepts_file(FileKind::Source, &files[i]) {
            let (name, _) = stem_of(&files[i]);
            let m = Middleware {
                name,
                source_file: copy_of(&files[i].source_file),
                applies_to: Vec::new(),
            };
            r.push(m);
        }
        i += 1;
    }
    r
}

/// The library modules among the files of the library directory.
pub fn discover_lib_modules(files: &Vec<FoundFile>) -> (r: Vec<LibModule>)
    ensures
        r@.len() == selected(FileKind::Source, files@, files@.len()).len(),
        forall|k: int|
            0 <= k < r@.len() ==> is_lib_of(
                #[trigger] r@[k],
                selected(FileKind::Source, files@, files@.len())[k],
            ),
{
    let mut r: Vec<LibModule> = Vec::new();
    let mut i: usize = 0;
    while i < files.len()
        invariant
            i <= files.len(),
            r@.len() == selected(FileKind::Source, files@, i as nat).len(),
            forall|k: int|
                0 <= k < r@.len() ==> is_lib_of(
                    #[trigger] r@[k],
                    selected(FileKind::Source, files@, i as nat)[k],
                ),
        decreases files.len() - i,
    {
        if accepts_file(FileKind::Source, &files[i]) {
            let (name, _) = stem_of(&files[i]);
            let m = LibModule { name, source_file: copy_of(&files[i].source_file) };
            r.push(m);
        }
        i += 1;
    }
    r
}

/// Whether `project` is what discovery makes of `files`: in each category
/// one item for each file that the category takes up, in the order of the
/// files.
pub open spec fn discovered_from(project: DiscoveredProject, files: ProjectFiles) -> bool {
    let pages = selected(FileKind::Page, files.pages@, files.pages@.len());
    let comps = selected(FileKind::Source, files.components@, files.components@.len());
    let layouts = selected(FileKind::Layout, files.layouts@, files.layouts@.len());
    let apis = selected(FileKind::Source, files.api_routes@, files.api_routes@.len());
    let models = selected(FileKind::Source, files.models@, files.models@.len());
    let mids = selected(FileKind::Source, files.middleware@, files.middleware@.len());
    let libs = selected(FileKind::Source, files.lib_modules@, files.lib_modules@.len());
    &&& project.pages@.len() == pages.len()
    &&& forall|k: int| 0 <= k < pages.len() ==> is_page_of(#[trigger] project.pages@[k], pages[k], k)
    &&& project.components@.len() == comps.len()
    &&& forall|k: int|
        0 <= k < comps.len() ==> is_component_of(#[trigger] project.components@[k], comps[k])
    &&& project.layouts@.len() == layouts.len()
    &&& forall|k: int|
        0 <= k < layouts.len() ==> is_layout_of(#[trigger] project.layouts@[k], layouts[k])
    &&& project.api_routes@.len() == apis.len()
    &&& forall|k: int|
        0 <= k < apis.len() ==> is_api_of(#[trigger] project.api_routes@[k], apis[k], k)
    &&& project.models@.len() == models.len()
    &&& forall|k: int| 0 <= k < models.len() ==> is_model_of(#[trigger] project.models@[k], models[k])
    &&& project.middleware@.len() == mids.len()
    &&& forall|k: int|
        0 <= k < mids.len() ==> is_middleware_of(#[trigger] project.middleware@[k], mids[k])
    &&& project.lib_modules@.len() == libs.len()
    &&& forall|k: int| 0 <= k < libs.len() ==> is_lib_of(#[trigger] project.lib_modules@[k], libs[k])
    &&& project.public_dir is Some == files.public_dir is Some
    &&& (files.public_dir matches Some(d) ==> project.public_dir->0@ == d@)
}

/// Builds the project model from the files that the walk found.
pub fn discover_project(files: &ProjectFiles) -> (project: DiscoveredProject)
    ensures
        discovered_from(project, *files),
{
    DiscoveredProject {
        pages: discover_pages(&files.pages),
        components: discover_components(&files.components),
        layouts: discover_layouts(&files.layouts),
        api_routes: discover_api_routes(&files.api_routes),
        models: discover_models(&files.models),
        middleware: discover_middleware(&files.middleware),
        lib_modules: discover_lib_modules(&files.lib_modules),
        public_dir: match &files.public_dir {
            Some(d) => Some(copy_of(d)),
            None => None,
        },
    }
}

} // verus!
