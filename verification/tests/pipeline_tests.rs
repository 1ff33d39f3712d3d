use cleen::codegen::{
    build_compile_order, extract_route_params, generate_api_handler, generate_code,
    generate_component_registry, generate_component_render_function, generate_imports,
    generate_model_import, generate_page_handler, generate_safe_html_escape_function,
    generate_start_function, handler_offset, indent_code, project_uses_database,
    try_generate_code, CodegenOptions, ProjectSources,
};
use cleen::component::{
    extract_component_helpers, extract_component_props, extract_component_render_body,
};
use cleen::discovery::{
    ApiRoute, Component, DiscoveredProject, Layout, LibModule, Model, PageRoute,
};
use cleen::escape::{
    escape_html_for_clean, escape_html_for_clean_with_calls, escape_html_line,
    expand_component_tags, sanitize_identifier,
};
use cleen::page::{
    apply_layout, convert_html_to_clean, extract_page_data_block, extract_page_html_lines,
    extract_page_layout, find_layout,
};
use cleen::project_config::{
    parse_config_route_line, parse_project_config, ConfigRoute, ProjectConfig,
};

fn component(tag: &str, class_name: &str, hydration: &str) -> Component {
    Component {
        tag: tag.to_string(),
        class_name: class_name.to_string(),
        source_file: format!("app/ui/components/{}.cln", class_name),
        hydration: hydration.to_string(),
    }
}

fn page(path: &str, source_file: &str) -> PageRoute {
    PageRoute {
        method: "GET".to_string(),
        path: path.to_string(),
        source_file: source_file.to_string(),
        handler_index: 0,
        layout: None,
        auth: None,
        cache: None,
    }
}

fn route(method: &str, path: &str, index: usize) -> ConfigRoute {
    ConfigRoute { method: method.to_string(), path: path.to_string(), index }
}

fn no_sources() -> ProjectSources {
    ProjectSources {
        pages: vec![],
        components: vec![],
        layouts: vec![],
        api_routes: vec![],
        scanned: vec![],
    }
}

#[test]
fn test_route_params_edges() {
    assert_eq!(extract_route_params(""), Vec::<String>::new());
    assert_eq!(extract_route_params("/:a/b/:/::c"), vec!["a", "", ":c"]);
    assert_eq!(extract_route_params(":x"), vec!["x"]);
    assert_eq!(extract_route_params("/a:b/c"), Vec::<String>::new());
}

#[test]
fn test_indent_code_blank_lines() {
    assert_eq!(indent_code("a\n\n  b\n", 1), "\ta\n\n\t  b");
    assert_eq!(indent_code("a\r\n \t \nb", 0), "a\n\nb");
    assert_eq!(indent_code("", 3), "");
}

#[test]
fn test_handler_offset_values() {
    assert_eq!(handler_offset(&vec![]), 0);
    assert_eq!(handler_offset(&vec![route("GET", "/", 0)]), 1);
    assert_eq!(
        handler_offset(&vec![route("GET", "/a", 21), route("GET", "/b", 0), route("GET", "/c", 5)]),
        22
    );
}

#[test]
fn test_escape_line_forms() {
    assert_eq!(escape_html_line("a\"b\\c\td"), "a\\\"b\\\\c\\td");
    assert_eq!(escape_html_line("a}b{c"), "a\\}b\\{c");
    assert_eq!(escape_html_line("{!x"), "\\{!x");
    assert_eq!(escape_html_line("{a}{b"), "\" + __safe_html_escape(a) + \"\\{b");
    assert_eq!(escape_html_line("{{ x "), "\" + x + \"");
    assert_eq!(escape_html_line("{!  y  }z"), "\" + y + \"z");
    assert_eq!(escape_html_line("{{a}b}}c"), "\" + a}b + \"c");
    assert_eq!(escape_html_line("{}"), "\" + __safe_html_escape() + \"");
    assert_eq!(escape_html_line(""), "");
}

#[test]
fn test_escape_plain() {
    assert_eq!(escape_html_for_clean("a\"b\\c\td{{ x }}{y}"), "a\\\"b\\\\c\\td\" +  x  + \"{y}");
}

#[test]
fn test_escape_with_calls() {
    let spliced = "<p>\" + __component_X_render(f(a), \"q\") + \"<b>";
    assert_eq!(escape_html_for_clean_with_calls(spliced), spliced);
    assert_eq!(
        escape_html_for_clean_with_calls("<i>{x}</i>{! y }}"),
        "<i>\" + __safe_html_escape(x) + \"</i>\" + y + \"\\}"
    );
    assert_eq!(escape_html_line(spliced), spliced);
    assert_eq!(escape_html_for_clean_with_calls("a \"b\" {{c}}"), "a \\\"b\\\" \" + c + \"");
    // a splice that never resumes the literal keeps the rest as it is
    assert_eq!(
        escape_html_for_clean_with_calls("\" + __component_X_render() \"{"),
        "\" + __component_X_render() \"{"
    );
}

#[test]
fn test_sanitize_identifier() {
    assert_eq!(sanitize_identifier("my-comp onent!\u{e9}_1"), "my_component\u{e9}_1");
    assert_eq!(sanitize_identifier("<>"), "");
    assert_eq!(sanitize_identifier("a\u{20ac}b\u{3b2}@[`{"), "ab\u{3b2}");
}

#[test]
fn test_three_spellings_expand_alike() {
    let components = vec![component("site-navbar", "Navbar", "off")];
    let a = expand_component_tags("<site-navbar></site-navbar>", &components);
    let b = expand_component_tags("<site-navbar />", &components);
    let c = expand_component_tags("<site-navbar/>", &components);
    assert_eq!(a, "\" + __component_Navbar_render() + \"");
    assert_eq!(a, b);
    assert_eq!(a, c);
}

#[test]
fn test_expand_inside_markup() {
    let components = vec![component("site-navbar", "Navbar", "off"), component("app-x", "X", "off")];
    assert_eq!(
        expand_component_tags("<div class=\"x\"><site-navbar /></div><app-x/>", &components),
        "<div class=\\\"x\\\">\" + __component_Navbar_render() + \"</div>\" + __component_X_render() + \""
    );
    assert_eq!(expand_component_tags("<other-tag/>", &components), "<other-tag/>");
}

#[test]
fn test_convert_html_plain() {
    assert_eq!(
        convert_html_to_clean("<h1>Hi</h1>\n<p>{{name}}</p>", &vec![]),
        "string html = \"<h1>Hi</h1>\"\nhtml = html + \"<p>\" + name + \"</p>\"\nreturn html"
    );
    assert_eq!(convert_html_to_clean("", &vec![]), "string html = \"\"\nreturn html");
}

#[test]
fn test_convert_html_with_data_block() {
    let src = "<page layout=\"main\"></page>\n<!-- note -->\n<main><h1>{{msg}}</h1></main>\n<script type=\"text/clean\">\n    data:\n    string msg = \"Hello\"\n\n</script>";
    assert_eq!(
        convert_html_to_clean(src, &vec![]),
        "string msg = \"Hello\"\nstring html = \"<main><h1>\" + msg + \"</h1></main>\"\nreturn html"
    );
}

#[test]
fn test_convert_html_statements() {
    // each line of markup opens a statement of its own
    assert_eq!(
        convert_html_to_clean("<a href=\"x\"\n>link</a>", &vec![]),
        "string html = \"<a href=\\\"x\\\"\"\nhtml = html + \">link</a>\"\nreturn html"
    );
    // blank lines leave no statement
    assert_eq!(
        convert_html_to_clean("\n\n<p>a</p>\n\n<p>b</p>\n\n", &vec![]),
        "string html = \"<p>a</p>\"\nhtml = html + \"<p>b</p>\"\nreturn html"
    );
}

#[test]
fn test_no_statement_ends_in_an_empty_literal() {
    assert_eq!(convert_html_to_clean("{{x}}", &vec![]), "string html = x\nreturn html");
    assert_eq!(
        convert_html_to_clean("a{{\"b\" + c}}", &vec![]),
        "string html = \"a\"\nhtml = html + (\"b\" + c)\nreturn html"
    );
    assert_eq!(
        convert_html_to_clean("<p>{{a}}{b}\n{!c}<i>\n<b>{{d}}", &vec![]),
        "string html = \"<p>\"\nhtml = html + a + __safe_html_escape(b)\nhtml = html + \"\" + c + \"<i>\"\nhtml = html + \"<b>\"\nhtml = html + d\nreturn html"
    );
    let components = vec![component("app-nav", "Nav", "off")];
    assert_eq!(
        convert_html_to_clean("<main>\n<app-nav></app-nav>\n</main>", &components),
        "string html = \"<main>\"\nhtml = html + __component_Nav_render()\nhtml = html + \"</main>\"\nreturn html"
    );
    assert_eq!(
        extract_component_render_body("html:\n  {this.a}\n  <p>{this.b}</p>{this.c}\n"),
        "string html = __safe_html_escape(this.a)\nhtml = html + \"<p>\" + __safe_html_escape(this.b) + \"</p>\"\nhtml = html + __safe_html_escape(this.c)\nreturn html"
    );
}

#[test]
fn test_every_spelling_on_a_line_is_expanded() {
    let components = vec![component("x-y", "Xy", "off")];
    assert_eq!(
        expand_component_tags("<x-y></x-y><x-y/>", &components),
        "\" + __component_Xy_render() + \"\" + __component_Xy_render() + \""
    );
    assert_eq!(
        expand_component_tags("a<x-y />b<x-y/>c<x-y></x-y>", &components),
        "a\" + __component_Xy_render() + \"b\" + __component_Xy_render() + \"c\" + __component_Xy_render() + \""
    );
}

#[test]
fn test_apply_layout() {
    let layout = "<html>\n<body>\n  <slot></slot>\n</body>\n</html>";
    let lines = vec!["<h1>T</h1>".to_string(), "<p>x</p>".to_string()];
    assert_eq!(
        apply_layout(layout, &lines, &vec![]),
        "string html = \"<html>\"\nhtml = html + \"<body>\"\nhtml = html + \"<h1>T</h1>\"\nhtml = html + \"<p>x</p>\"\nhtml = html + \"</body>\"\nhtml = html + \"</html>\"\nreturn html"
    );
    // each slot marker takes the whole page
    assert_eq!(
        apply_layout("<slot />\n<hr>\n<slot/>", &vec!["<p>x</p>".to_string()], &vec![]),
        "string html = \"<p>x</p>\"\nhtml = html + \"<hr>\"\nhtml = html + \"<p>x</p>\"\nreturn html"
    );
    // a layout without a slot leaves the page out
    assert_eq!(
        apply_layout("<hr>", &vec!["<p>x</p>".to_string()], &vec![]),
        "string html = \"<hr>\"\nreturn html"
    );
}

#[test]
fn test_page_html_lines() {
    let src = "\n<page layout=\"m\">\n<h1>A</h1>\n\n<script type='text/clean'>\nx\n</script>\n  <p>B</p>";
    assert_eq!(extract_page_html_lines(src), vec!["<h1>A</h1>", "", "  <p>B</p>"]);
    assert_eq!(extract_page_data_block(src), "x\n");
    assert_eq!(extract_page_layout(src), Some("m".to_string()));
    assert_eq!(extract_page_layout("<page layout=\"unclosed>"), None);
    assert_eq!(extract_page_layout("<page id=\"a\" layout='b'>"), Some("b".to_string()));
}

#[test]
fn test_find_layout() {
    let layouts = vec![
        Layout { name: "main".to_string(), source_file: "a".to_string() },
        Layout { name: "admin".to_string(), source_file: "b".to_string() },
        Layout { name: "main".to_string(), source_file: "c".to_string() },
    ];
    assert_eq!(find_layout(&layouts, "main").map(|l| l.source_file.clone()), Some("a".to_string()));
    assert_eq!(find_layout(&layouts, "admin").map(|l| l.source_file.clone()), Some("b".to_string()));
    assert!(find_layout(&layouts, "none").is_none());
}

#[test]
fn test_route_line_edges() {
    assert_eq!(parse_config_route_line("GET /a=b = 3"), Some(route("GET", "/a=b", 3)));
    assert_eq!(parse_config_route_line("  PUT  /x  =  +7 "), Some(route("PUT", "/x", 7)));
    assert_eq!(parse_config_route_line("GET /x = -1"), None);
    assert_eq!(parse_config_route_line("GET /x = "), None);
    assert_eq!(parse_config_route_line("GET = 5"), None);
    assert_eq!(parse_config_route_line("GET /x = 1 2"), None);
    assert_eq!(parse_config_route_line("GET /x = 340282366920938463463374607431768211456"), None);
}

#[test]
fn test_project_config_sections() {
    let content = "port = 8080\nport = soon\nimports:\n  \"a.cln\"\n\n  'b.cln'\n  stop\n  \"c.cln\"\nroutes:\n  GET /x = 1\n\n  GET /bad = one\n  GET /y = 2\n  // comment\n  GET /z = 3\n";
    let config = parse_project_config(content);
    assert_eq!(config.port, 8080);
    assert_eq!(config.imports, vec!["a.cln", "b.cln"]);
    assert_eq!(config.routes, vec![route("GET", "/x", 1), route("GET", "/y", 2)]);
    let quoted = parse_project_config("routes:\n  \"a.cln\"\n  GET /x = 1\nroutes:\n  POST /y = 2");
    assert_eq!(quoted.routes, vec![route("POST", "/y", 2)]);
    let empty = parse_project_config("");
    assert_eq!(empty.port, 3000);
    assert!(empty.imports.is_empty());
    assert!(empty.routes.is_empty());
    assert_eq!(parse_project_config("port = 65536").port, 3000);
    assert_eq!(parse_project_config("port = 1\nport = 2").port, 2);
    assert_eq!(ProjectConfig::default().port, 3000);
}

#[test]
fn test_component_props_forms() {
    let src = "props:\n  string title = \"x\"\n  integer count=\n  lonely\n\n  boolean  open\nhtml:\n  string not_a_prop\n";
    let props = extract_component_props(src);
    assert_eq!(
        props,
        vec![
            ("string".to_string(), "title".to_string()),
            ("integer".to_string(), "count".to_string()),
            ("boolean".to_string(), "".to_string()),
        ]
    );
}

#[test]
fn test_render_body_prefers_render_function() {
    let src = "component: x\n  string render()\n    string a = \"1\"\n\n    return a\n  html:\n    <p>no</p>\n";
    assert_eq!(extract_component_render_body(src), "string a = \"1\"\nreturn a");
    assert_eq!(extract_component_render_body("component: x\n"), "return \"\"");
    assert_eq!(
        extract_component_render_body("html:\n  <p>a</p>\n  <p>{b}</p>\nend"),
        "string html = \"<p>a</p>\"\nhtml = html + \"<p>\" + __safe_html_escape(b) + \"</p>\"\nreturn html"
    );
}

#[test]
fn test_helper_text_is_exact() {
    let src = "component: tag=\"c\"\n\thtml:\n\t\t<p>x</p>\n\tstring f(string a)\n\t\tif a\n\n\t\t\treturn \"1\"\n\t\treturn \"2\"\nafter\n";
    assert_eq!(
        extract_component_helpers(src),
        vec!["string f(string a)\n\tif a\n\n\t\treturn \"1\"\n\treturn \"2\""]
    );
}

#[test]
fn test_render_function() {
    let src = "component Card\n    props:\n        string title\n    html:\n        <h3>{this.title}</h3>\n";
    let c = component("app-card", "Card", "off");
    assert_eq!(
        generate_component_render_function(&c, src, &CodegenOptions::default()),
        "\tstring __component_Card_render(string title)\n\t\tstring html = \"<h3>\" + __safe_html_escape(title) + \"</h3>\"\n\t\treturn html\n\n"
    );
    let debug = CodegenOptions { debug_comments: true, generate_registry: false };
    assert_eq!(
        generate_component_render_function(&c, "", &debug),
        "\t// Component: <app-card> from Card.cln\n\tstring __component_Card_render()\n\t\treturn \"\"\n\n"
    );
}

#[test]
fn test_render_function_with_helper() {
    let src = "component: tag=\"c\"\n\tprops:\n\t\tstring icon\n\t\tinteger n\n\thtml:\n\t\t<i>{!pick(this.icon)}</i>\n\tstring pick(string name)\n\t\treturn this.icon\n";
    let c = component("my-icon", "My-Icon", "off");
    assert_eq!(
        generate_component_render_function(&c, src, &CodegenOptions::default()),
        "\tstring pick(string name)\n\t\treturn icon\n\n\tstring __component_My_Icon_render(string icon, integer n)\n\t\tstring html = \"<i>\" + pick(icon) + \"</i>\"\n\t\treturn html\n\n"
    );
}

#[test]
fn test_api_handler() {
    let api = ApiRoute {
        method: "GET".to_string(),
        path: "/api/users/:id".to_string(),
        source_file: "app/server/api/users/[id].cln".to_string(),
        handler_index: 0,
        middleware: vec![],
    };
    assert_eq!(
        generate_api_handler(&api, "string id2 = id\nreturn id2\n", 7, &CodegenOptions::default()),
        "\tstring __route_handler_7()\n\t\tstring id = _req_param(\"id\")\n\t\tstring id2 = id\n\t\treturn id2\n"
    );
    let debug = CodegenOptions { debug_comments: true, generate_registry: false };
    assert_eq!(
        generate_api_handler(&api, "", 10, &debug),
        "\t// API handler for GET /api/users/:id (from app/server/api/users/[id].cln)\n\tstring __route_handler_10()\n\t\tstring id = _req_param(\"id\")\n\n"
    );
}

#[test]
fn test_page_handler_with_layout() {
    let content = "<page layout=\"main\"></page>\n<h1>{{t}}</h1>\n<script type=\"text/clean\">\nstring t = \"x\"\n</script>";
    let layouts = vec![Layout { name: "main".to_string(), source_file: "l".to_string() }];
    let sources = vec!["<div>\n<slot/>\n</div>".to_string()];
    let p = page("/blog/:slug", "app/ui/pages/blog/[slug].html.cln");
    assert_eq!(
        generate_page_handler(&p, content, 3, &vec![], &layouts, &sources, &CodegenOptions::default()),
        "\tstring __route_handler_3()\n\t\tstring slug = _req_param(\"slug\")\n\t\tstring t = \"x\"\n\t\tstring html = \"<div>\"\n\t\thtml = html + \"<h1>\" + t + \"</h1>\"\n\t\thtml = html + \"</div>\"\n\t\treturn html\n"
    );
    // a layout that the project does not have leaves the page unwrapped
    assert_eq!(
        generate_page_handler(&p, content, 3, &vec![], &vec![], &vec![], &CodegenOptions::default()),
        "\tstring __route_handler_3()\n\t\tstring slug = _req_param(\"slug\")\n\t\tstring t = \"x\"\n\t\tstring html = \"<h1>\" + t + \"</h1>\"\n\t\treturn html\n"
    );
}

#[test]
fn test_start_block_exact() {
    let mut project = DiscoveredProject::default();
    let options = CodegenOptions::default();
    assert_eq!(
        generate_start_function(&project, &options, 3000, 0, &vec![]),
        "\nstart:\n\tinteger s = 0\n\n"
    );
    project.pages.push(page("/", "index.html"));
    project.api_routes.push(ApiRoute {
        method: "POST".to_string(),
        path: "/api/x".to_string(),
        source_file: "x.cln".to_string(),
        handler_index: 0,
        middleware: vec![],
    });
    let debug = CodegenOptions { debug_comments: true, generate_registry: false };
    assert_eq!(
        generate_start_function(&project, &debug, 80, 22, &vec![route("GET", "/h", 21)]),
        "\nstart:\n\tinteger s = 0\n\n\t// Imported route registrations\n\ts = _http_route(\"GET\", \"/h\", 21)\n\n\t// Page routes\n\ts = _http_route(\"GET\", \"/\", 22)\n\n\t// API routes\n\ts = _http_route(\"POST\", \"/api/x\", 23)\n\ts = _http_listen(80)\n\n"
    );
}

#[test]
fn test_imports_block() {
    let mut project = DiscoveredProject::default();
    let mut config = ProjectConfig::default();
    assert_eq!(generate_imports(&project, &config, &vec![]), "");
    assert_eq!(
        generate_imports(&project, &config, &vec!["x = _db_query(q)".to_string()]),
        "plugins:\n\tframe.data\n\n"
    );
    config.imports.push("shared/lib/a.cln".to_string());
    config.imports.push("b.cln".to_string());
    project.lib_modules.push(LibModule {
        name: "a".to_string(),
        source_file: "shared/lib/a.cln".to_string(),
    });
    project.components.push(component("app-x", "X", "off"));
    project.models.push(Model {
        name: "User".to_string(),
        table: "users".to_string(),
        source_file: "m/User.cln".to_string(),
    });
    assert_eq!(
        generate_imports(&project, &config, &vec![]),
        "plugins:\n\tframe.httpserver\n\tframe.data\n\tframe.ui\n\nimport:\n\t\"../../shared/lib/a.cln\"\n\t\"../../b.cln\"\n\n"
    );
    assert_eq!(
        build_compile_order(&project),
        vec!["m/User.cln", "shared/lib/a.cln", "app/ui/components/X.cln", "dist/.generated/main.cln"]
    );
}

#[test]
fn test_database_markers() {
    assert!(!project_uses_database(&vec![]));
    assert!(!project_uses_database(&vec!["_DB_QUERY".to_string(), "db_query".to_string()]));
    for marker in ["_db_query", "_db_execute", "_db_insert", "_db_update", "_db_delete"] {
        assert!(project_uses_database(&vec!["".to_string(), format!("x{}(", marker)]));
    }
}

#[test]
fn test_small_generators() {
    assert_eq!(generate_model_import("app/server/models/User.cln"), "// include: app/server/models/User.cln\n");
    assert_eq!(
        generate_safe_html_escape_function(),
        "\tstring __safe_html_escape(string input)\n\t\tstring result = input.replace(\"&\", \"&amp;\")\n\t\tresult = result.replace(\"<\", \"&lt;\")\n\t\tresult = result.replace(\">\", \"&gt;\")\n\t\tresult = result.replace(\"\\\"\", \"&quot;\")\n\t\tresult = result.replace(\"'\", \"&#39;\")\n\t\treturn result\n\n"
    );
    assert_eq!(
        generate_component_registry(&vec![component("user-card", "UserCard", "off"), component("app-nav", "Nav", "on")]),
        "{\n  \"components\": [\n    {\n      \"tag\": \"user-card\",\n      \"class\": \"UserCard\",\n      \"hydration\": \"off\"\n    },\n    {\n      \"tag\": \"app-nav\",\n      \"class\": \"Nav\",\n      \"hydration\": \"on\"\n    }\n  ]\n}"
    );
    assert_eq!(generate_component_registry(&vec![]), "{\n  \"components\": [\n  ]\n}");
}

#[test]
fn test_generate_code_small_project() {
    let mut project = DiscoveredProject::default();
    project.pages.push(page("/", "app/ui/pages/index.html.cln"));
    let mut config = ProjectConfig::default();
    config.port = 8080;
    config.routes.push(route("GET", "/api/health", 4));
    let mut sources = no_sources();
    sources.pages.push("<h1>Hi</h1>".to_string());
    let generated = generate_code(&project, &config, &sources, &CodegenOptions::default());
    assert_eq!(
        generated.main_cln,
        "plugins:\n\tframe.httpserver\n\n\nstart:\n\tinteger s = 0\n\ts = _http_route(\"GET\", \"/api/health\", 4)\n\ts = _http_route(\"GET\", \"/\", 5)\n\ts = _http_listen(8080)\n\n\nfunctions:\n\tstring __route_handler_5()\n\t\tstring html = \"<h1>Hi</h1>\"\n\t\treturn html\n"
    );
    assert_eq!(generated.component_registry, None);
    assert_eq!(generated.compile_order, vec!["dist/.generated/main.cln"]);
}

#[test]
fn test_generate_code_with_components() {
    let mut project = DiscoveredProject::default();
    project.components.push(component("app-nav", "Nav", "off"));
    project.pages.push(page("/", "index.html"));
    project.api_routes.push(ApiRoute {
        method: "GET".to_string(),
        path: "/api".to_string(),
        source_file: "api/index.cln".to_string(),
        handler_index: 0,
        middleware: vec![],
    });
    project.models.push(Model {
        name: "User".to_string(),
        table: "users".to_string(),
        source_file: "models/User.cln".to_string(),
    });
    let config = ProjectConfig::default();
    let mut sources = no_sources();
    sources.components.push("html:\n\t<nav>n</nav>\n".to_string());
    sources.pages.push("<app-nav/>".to_string());
    sources.api_routes.push("return \"ok\"".to_string());
    let options = CodegenOptions { debug_comments: true, generate_registry: true };
    let generated = generate_code(&project, &config, &sources, &options);
    let escape_fn = generate_safe_html_escape_function();
    let expected = format!(
        "plugins:\n\tframe.httpserver\n\tframe.data\n\tframe.ui\n\n\n// Database models\n// include: models/User.cln\n\n// Components available: app-nav\n\nstart:\n\tinteger s = 0\n\n\t// Page routes\n\ts = _http_route(\"GET\", \"/\", 0)\n\n\t// API routes\n\ts = _http_route(\"GET\", \"/api\", 1)\n\ts = _http_listen(3000)\n\n\nfunctions:\n{}\t// Component: <app-nav> from Nav.cln\n\tstring __component_Nav_render()\n\t\tstring html = \"<nav>n</nav>\"\n\t\treturn html\n\n\t// Handler for / (from index.html)\n\tstring __route_handler_0()\n\t\tstring html = __component_Nav_render()\n\t\treturn html\n\t// API handler for GET /api (from api/index.cln)\n\tstring __route_handler_1()\n\t\treturn \"ok\"\n",
        escape_fn
    );
    assert_eq!(generated.main_cln, expected);
    assert_eq!(
        generated.component_registry,
        Some(generate_component_registry(&project.components))
    );
    assert_eq!(
        generated.compile_order,
        vec!["models/User.cln", "app/ui/components/Nav.cln", "dist/.generated/main.cln"]
    );
}

#[test]
fn test_try_generate_code() {
    let mut project = DiscoveredProject::default();
    project.pages.push(page("/", "index.html"));
    let mut config = ProjectConfig::default();
    let options = CodegenOptions::default();
    // a page without its text
    assert!(try_generate_code(&project, &config, &no_sources(), &options).is_none());
    let mut sources = no_sources();
    sources.pages.push("x".to_string());
    assert!(sources.matches_project(&project));
    assert!(try_generate_code(&project, &config, &sources, &options).is_some());
    // no index is left above the greatest one
    config.routes.push(route("GET", "/", usize::MAX));
    assert!(try_generate_code(&project, &config, &sources, &options).is_none());
    config.routes[0].index = usize::MAX - 1;
    assert!(try_generate_code(&project, &config, &sources, &options).is_none());
    config.routes[0].index = usize::MAX - 2;
    let generated = try_generate_code(&project, &config, &sources, &options);
    assert!(generated.is_some());
    assert!(generated.unwrap().main_cln.contains(&format!("__route_handler_{}()", usize::MAX - 1)));
}
