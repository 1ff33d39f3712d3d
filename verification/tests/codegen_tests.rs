use cleen::codegen::{
    extract_route_params, generate_imports, generate_start_function, handler_offset, indent_code,
    CodegenOptions,
};
use cleen::component::{
    extract_component_helpers, extract_component_props, extract_component_render_body,
};
use cleen::discovery::{Component, DiscoveredProject, PageRoute};
use cleen::escape::{escape_html_line, expand_component_tags};
use cleen::page::{extract_page_data_block, extract_page_layout};
use cleen::project_config::{parse_config_route_line, parse_project_config, ConfigRoute};

#[test]
fn test_extract_route_params() {
    assert_eq!(extract_route_params("/"), Vec::<String>::new());
    assert_eq!(extract_route_params("/about"), Vec::<String>::new());
    assert_eq!(extract_route_params("/blog/:slug"), vec!["slug"]);
    assert_eq!(
        extract_route_params("/users/:id/posts/:postId"),
        vec!["id", "postId"]
    );
}

#[test]
fn test_indent_code() {
    let code = "line1\nline2\nline3";
    let indented = indent_code(code, 2);
    assert_eq!(indented, "\t\tline1\n\t\tline2\n\t\tline3");
}

#[test]
fn test_component_render_no_double_quotes() {
    // html: block conversion should not produce trailing ""
    let component_src = r#"component Hero
    html:
        <section class="hero">
        <div class="container">
        <h1>Hello</h1>
        </div>
        </section>
"#;
    let body = extract_component_render_body(component_src);
    // No line should end with "" (double closing quotes)
    for line in body.lines() {
        let trimmed = line.trim();
        if trimmed.starts_with("html = html + ") {
            assert!(
                !trimmed.ends_with("\"\""),
                "Line has trailing double quotes: {}",
                trimmed
            );
        }
    }
    // Each concatenation line should end with exactly one "
    for line in body.lines() {
        let trimmed = line.trim();
        if trimmed.starts_with("html = html + \"") {
            assert!(
                trimmed.ends_with('"'),
                "Line should end with single quote: {}",
                trimmed
            );
            // Count trailing quotes
            let trailing_quotes = trimmed.chars().rev().take_while(|c| *c == '"').count();
            assert_eq!(
                trailing_quotes, 1,
                "Expected 1 trailing quote, got {} in: {}",
                trailing_quotes, trimmed
            );
        }
    }
}

#[test]
fn test_interpolation_safe_escape() {
    // {expr} should expand to __safe_html_escape(expr)
    let result = escape_html_line("<h3>{this.title}</h3>");
    assert_eq!(result, "<h3>\" + __safe_html_escape(this.title) + \"</h3>");
}

#[test]
fn test_interpolation_raw() {
    // {!expr} should expand to raw expr (no escaping)
    let result = escape_html_line("<div>{!getIcon(this.icon)}</div>");
    assert_eq!(result, "<div>\" + getIcon(this.icon) + \"</div>");
}

#[test]
fn test_interpolation_legacy_double_brace() {
    // {{expr}} should still work (legacy syntax)
    let result = escape_html_line("<span>{{name}}</span>");
    assert_eq!(result, "<span>\" + name + \"</span>");
}

#[test]
fn test_extract_component_props() {
    let src = r#"component ModuleCard
    props:
        string id
        string title
        string difficulty
    html:
        <article>{this.title}</article>
"#;
    let props = extract_component_props(src);
    assert_eq!(props.len(), 3);
    assert_eq!(props[0], ("string".to_string(), "id".to_string()));
    assert_eq!(props[1], ("string".to_string(), "title".to_string()));
    assert_eq!(props[2], ("string".to_string(), "difficulty".to_string()));
}

#[test]
fn test_extract_component_props_empty() {
    let src = r#"component Hero
    html:
        <section>Hello</section>
"#;
    let props = extract_component_props(src);
    assert!(props.is_empty());
}

#[test]
fn test_this_prop_replaced_in_render_body() {
    // this.prop should be replaced with prop name
    let src = r#"component Card
    props:
        string title
        string desc
    html:
        <h3>{this.title}</h3>
        <p>{this.desc}</p>
"#;
    let mut body = extract_component_render_body(src);
    let props = extract_component_props(src);
    for (_t, name) in &props {
        body = body.replace(&format!("this.{}", name), name);
    }
    assert!(!body.contains("this.title"));
    assert!(!body.contains("this.desc"));
    assert!(body.contains("__safe_html_escape(title)"));
    assert!(body.contains("__safe_html_escape(desc)"));
}

#[test]
fn test_extract_page_layout() {
    assert_eq!(
        extract_page_layout("<page layout=\"main\"></page>\n<main>Hi</main>"),
        Some("main".to_string())
    );
    assert_eq!(
        extract_page_layout("<page layout='admin'></page>\n<div>X</div>"),
        Some("admin".to_string())
    );
    assert_eq!(extract_page_layout("<main>Hi</main>"), None);
}

#[test]
fn test_extract_page_data_block() {
    // Data block should be extracted from page's script tag
    let page = r#"<page layout="main"></page>
<main><h1>{{msg}}</h1></main>
<script type="text/clean">
    string msg = "Hello"
    string lang = "en"
</script>"#;
    let data = extract_page_data_block(page);
    assert!(
        data.contains("string msg = \"Hello\""),
        "Should extract msg: {}",
        data
    );
    assert!(
        data.contains("string lang = \"en\""),
        "Should extract lang: {}",
        data
    );
}

#[test]
fn test_parse_config_route_line() {
    // Basic GET route
    assert_eq!(
        parse_config_route_line("GET /api/health = 0"),
        Some(ConfigRoute {
            method: "GET".to_string(),
            path: "/api/health".to_string(),
            index: 0
        })
    );
    // POST with nested path
    assert_eq!(
        parse_config_route_line("POST /api/v1/reports = 13"),
        Some(ConfigRoute {
            method: "POST".to_string(),
            path: "/api/v1/reports".to_string(),
            index: 13
        })
    );
    // Route with path parameter
    assert_eq!(
        parse_config_route_line("POST /api/v1/fingerprints/:fp/resolve = 16"),
        Some(ConfigRoute {
            method: "POST".to_string(),
            path: "/api/v1/fingerprints/:fp/resolve".to_string(),
            index: 16
        })
    );
    // Invalid lines
    assert_eq!(parse_config_route_line("// not a route"), None);
    assert_eq!(parse_config_route_line("\"app/server/api.cln\""), None);
    assert_eq!(parse_config_route_line(""), None);
}

#[test]
fn test_config_route_handler_offset() {
    // Handler offset should be max route index + 1
    let routes = vec![
        ConfigRoute {
            method: "GET".to_string(),
            path: "/api/health".to_string(),
            index: 0,
        },
        ConfigRoute {
            method: "GET".to_string(),
            path: "/api/modules".to_string(),
            index: 5,
        },
        ConfigRoute {
            method: "GET".to_string(),
            path: "/errors/detail".to_string(),
            index: 21,
        },
    ];
    let offset = handler_offset(&routes);
    assert_eq!(offset, 22, "Next index should be max(21) + 1 = 22");
}

#[test]
fn test_config_route_handler_offset_empty() {
    let routes: Vec<ConfigRoute> = vec![];
    let offset = handler_offset(&routes);
    assert_eq!(offset, 0, "Empty routes should give offset 0");
}

#[test]
fn test_component_tag_expansion_in_html() {
    // Component tags should be replaced with function calls
    let components = vec![Component {
        tag: "site-navbar".to_string(),
        class_name: "Navbar".to_string(),
        source_file: "Navbar.cln".to_string(),
        hydration: "off".to_string(),
    }];
    let expanded = expand_component_tags("<site-navbar></site-navbar>", &components);
    assert!(
        expanded.contains("__component_Navbar_render()"),
        "Should replace tag with function call: {}",
        expanded
    );
    assert!(
        !expanded.contains("<site-navbar>"),
        "Should not contain literal tag: {}",
        expanded
    );
}

#[test]
fn test_handler_offset_in_start_block() {
    // Framework handlers should start after imported handler indices
    let project = DiscoveredProject {
        pages: vec![PageRoute {
            method: "GET".to_string(),
            path: "/test".to_string(),
            source_file: "test.html".to_string(),
            handler_index: 0,
            layout: None,
            auth: None,
            cache: None,
        }],
        ..Default::default()
    };
    let options = CodegenOptions::default();
    let config_routes = vec![
        ConfigRoute {
            method: "GET".to_string(),
            path: "/api/health".to_string(),
            index: 0,
        },
        ConfigRoute {
            method: "GET".to_string(),
            path: "/api/modules".to_string(),
            index: 5,
        },
    ];
    let result =
        generate_start_function(&project, &options, 3001, 22, &config_routes);
    // Framework page route should use index 22
    assert!(
        result.contains("_http_route(\"GET\", \"/test\", 22)"),
        "Handler should start at offset 22: {}",
        result
    );
    // Imported routes should be included
    assert!(
        result.contains("_http_route(\"GET\", \"/api/health\", 0)"),
        "Imported routes should be included: {}",
        result
    );
    assert!(
        result.contains("_http_listen(3001)"),
        "Should use configured port: {}",
        result
    );
}

#[test]
fn test_extract_component_helpers() {
    let content = r#"component: tag="module-card"

	props:
		integer id
		string title
		string difficulty

	html:
		<article class="module-card">
			<span class="badge {!getDifficultyClass(this.difficulty)}">{this.difficulty}</span>
		</article>

	string getDifficultyClass(string level)
		integer idx = 0
		idx = level.indexOf("beginner")
		if idx == 0
			return "badge-green"
		return "badge-default"
"#;
    let helpers = extract_component_helpers(content);
    assert_eq!(helpers.len(), 1, "Expected 1 helper, got: {:?}", helpers);
    assert!(
        helpers[0].contains("getDifficultyClass"),
        "Helper should contain function name: {}",
        helpers[0]
    );
    assert!(
        helpers[0].contains("badge-green"),
        "Helper should contain function body: {}",
        helpers[0]
    );
    // Verify relative indentation is preserved:
    // - signature line has no leading tab (base stripped)
    // - body lines have 1 tab (relative to signature)
    // - nested if body has 2 tabs
    let lines: Vec<&str> = helpers[0].lines().collect();
    assert!(
        lines[0].starts_with("string getDifficultyClass"),
        "Signature should have no leading indent: '{}'",
        lines[0]
    );
    assert!(
        lines[1].starts_with("\t") && !lines[1].starts_with("\t\t"),
        "Body should have 1 tab indent: '{}'",
        lines[1]
    );
    // "return badge-green" is inside an if block — should have 2 tabs
    let return_line = lines.iter().find(|l| l.contains("badge-green")).unwrap();
    assert!(
        return_line.starts_with("\t\t"),
        "Nested if body should have 2 tab indent: '{}'",
        return_line
    );
}

#[test]
fn test_extract_component_helpers_multiple() {
    let content = r#"component: tag="test-card"

	props:
		string title
		string icon

	html:
		<div>{!getIcon(this.icon)}</div>
		<h3>{this.title}</h3>

	string getIcon(string iconName)
		return "<svg></svg>"

	string formatTitle(string raw)
		return raw
"#;
    let helpers = extract_component_helpers(content);
    assert_eq!(helpers.len(), 2, "Expected 2 helpers, got: {:?}", helpers);
    assert!(helpers[0].contains("getIcon"));
    assert!(helpers[1].contains("formatTitle"));
}

#[test]
fn test_extract_component_helpers_none() {
    let content = r#"component: tag="simple"

	props:
		string title

	html:
		<div>{this.title}</div>
"#;
    let helpers = extract_component_helpers(content);
    assert!(
        helpers.is_empty(),
        "Expected no helpers, got: {:?}",
        helpers
    );
}

#[test]
fn test_parse_project_config_port() {
    let content = "config:\n\tserver:\n\t\tport = 3001\n";
    let config = parse_project_config(content);
    assert_eq!(config.port, 3001);
}

#[test]
fn test_parse_project_config_imports() {
    let content =
        "config:\n\timports:\n\t\t\"app/server/helpers.cln\"\n\t\t\"app/server/utils.cln\"\n";
    let config = parse_project_config(content);
    assert_eq!(config.imports.len(), 2);
    assert_eq!(config.imports[0], "app/server/helpers.cln");
    assert_eq!(config.imports[1], "app/server/utils.cln");
}

#[test]
fn test_import_paths_have_prefix() {
    let content =
        "config:\n\timports:\n\t\t\"app/server/helpers.cln\"\n\t\t\"app/server/api.cln\"\n";
    let config = parse_project_config(content);
    let project = DiscoveredProject::default();
    let result = generate_imports(&project, &config, &Vec::new());
    assert!(
        result.contains("\"../../app/server/helpers.cln\""),
        "Import should have ../../ prefix: {}",
        result
    );
    assert!(
        result.contains("\"../../app/server/api.cln\""),
        "Import should have ../../ prefix: {}",
        result
    );
}

#[test]
fn test_parse_project_config_routes() {
    let content = "config:\n\timports:\n\t\t\"app/server/helpers.cln\"\n\troutes:\n\t\tGET /api/health = 0\n\t\tGET /api/content = 1\n\t\tPOST /api/v1/reports = 13\n";
    let config = parse_project_config(content);
    assert_eq!(config.imports.len(), 1);
    assert_eq!(config.imports[0], "app/server/helpers.cln");
    assert_eq!(config.routes.len(), 3);
    assert_eq!(
        config.routes[0],
        ConfigRoute {
            method: "GET".to_string(),
            path: "/api/health".to_string(),
            index: 0
        }
    );
    assert_eq!(
        config.routes[1],
        ConfigRoute {
            method: "GET".to_string(),
            path: "/api/content".to_string(),
            index: 1
        }
    );
    assert_eq!(
        config.routes[2],
        ConfigRoute {
            method: "POST".to_string(),
            path: "/api/v1/reports".to_string(),
            index: 13
        }
    );
}
