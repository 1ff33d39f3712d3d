use cleen::discovery::{
    class_name_to_tag, convert_params, discover_project, file_to_api_route_path,
    file_to_route_path, is_cln_file, is_page_file, pascal_to_snake, FoundFile, ProjectFiles,
};

#[test]
fn test_file_to_route_path() {
    // .html.cln extension
    assert_eq!(file_to_route_path("index.html.cln"), "/");
    assert_eq!(file_to_route_path("about.html.cln"), "/about");
    assert_eq!(file_to_route_path("blog/index.html.cln"), "/blog");
    assert_eq!(file_to_route_path("blog/[slug].html.cln"), "/blog/:slug");

    // .html extension
    assert_eq!(file_to_route_path("index.html"), "/");
    assert_eq!(file_to_route_path("about.html"), "/about");
}

#[test]
fn test_is_page_file() {
    assert!(is_page_file("test.html.cln"));
    assert!(is_page_file("test.html"));
    assert!(!is_page_file("test.cln"));
    assert!(!is_page_file("test.txt"));
}

#[test]
fn test_class_name_to_tag() {
    assert_eq!(class_name_to_tag("Header"), "app-header");
    assert_eq!(class_name_to_tag("UserCard"), "user-card");
    assert_eq!(class_name_to_tag("BlogPostPreview"), "blog-post-preview");
}

#[test]
fn test_pascal_to_snake() {
    assert_eq!(pascal_to_snake("User"), "users");
    assert_eq!(pascal_to_snake("BlogPost"), "blog_posts");
    assert_eq!(pascal_to_snake("Articles"), "articles");
}

#[test]
fn test_convert_params() {
    assert_eq!(convert_params("/blog/[slug]"), "/blog/:slug");
    assert_eq!(convert_params("/users/[id]/posts"), "/users/:id/posts");
    assert_eq!(convert_params("/api/articles/[id]"), "/api/articles/:id");
}

#[test]
fn test_file_to_api_route_path() {
    assert_eq!(file_to_api_route_path("index.cln"), "/api");
    assert_eq!(file_to_api_route_path("users.cln"), "/api/users");
    assert_eq!(file_to_api_route_path("users/index.cln"), "/api/users");
    assert_eq!(file_to_api_route_path("users/[id].cln"), "/api/users/:id");
}

#[test]
fn test_is_cln_file() {
    assert!(is_cln_file("app/ui/components/Header.cln"));
    assert!(is_cln_file("page.html.cln"));
    assert!(!is_cln_file("page.html"));
    assert!(!is_cln_file(".cln"));
    assert!(!is_cln_file("cln"));
}

#[test]
fn test_convert_params_unclosed_and_repeated() {
    assert_eq!(convert_params("/a/[id"), "/a/");
    assert_eq!(convert_params("/a/[id]]"), "/a/:id:id");
    assert_eq!(convert_params(""), "");
}

#[test]
fn test_tag_always_has_hyphen() {
    assert!(class_name_to_tag("").contains('-'));
    assert!(class_name_to_tag("x").contains('-'));
    assert_eq!(class_name_to_tag("nav"), "app-nav");
    assert_eq!(class_name_to_tag("ABC"), "a-b-c");
}

#[test]
fn test_table_is_always_plural() {
    assert_eq!(pascal_to_snake(""), "s");
    assert_eq!(pascal_to_snake("Class"), "class");
    assert_eq!(pascal_to_snake("userProfile"), "user_profiles");
}

fn found(relative: &str, root: &str) -> FoundFile {
    FoundFile { relative: relative.to_string(), source_file: format!("{}/{}", root, relative) }
}

#[test]
fn test_discover_project_from_files() {
    let files = ProjectFiles {
        pages: vec![
            found("index.html.cln", "app/ui/pages"),
            found("notes.txt", "app/ui/pages"),
            found("blog/[slug].html", "app/ui/pages"),
        ],
        components: vec![found("UserCard.cln", "app/ui/components")],
        layouts: vec![found("main.html.cln", "app/ui/layouts")],
        api_routes: vec![found("users/[id].cln", "app/server/api")],
        models: vec![found("BlogPost.cln", "app/server/models")],
        middleware: vec![found("auth.cln", "app/server/middleware")],
        lib_modules: vec![found("util.cln", "app/shared/lib"), found("README.md", "app/shared/lib")],
        public_dir: Some("app/ui/public".to_string()),
    };
    let project = discover_project(&files);
    assert!(!project.is_empty());
    assert_eq!(project.total_count(), 8);
    assert_eq!(project.pages.len(), 2);
    assert_eq!(project.pages[0].method, "GET");
    assert_eq!(project.pages[0].path, "/");
    assert_eq!(project.pages[0].handler_index, 0);
    assert_eq!(project.pages[1].path, "/blog/:slug");
    assert_eq!(project.pages[1].handler_index, 1);
    assert_eq!(project.pages[1].source_file, "app/ui/pages/blog/[slug].html");
    assert_eq!(project.components[0].class_name, "UserCard");
    assert_eq!(project.components[0].tag, "user-card");
    assert_eq!(project.components[0].hydration, "off");
    assert_eq!(project.layouts[0].name, "main");
    assert_eq!(project.api_routes[0].path, "/api/users/:id");
    assert_eq!(project.models[0].name, "BlogPost");
    assert_eq!(project.models[0].table, "blog_posts");
    assert_eq!(project.middleware[0].name, "auth");
    assert_eq!(project.lib_modules.len(), 1);
    assert_eq!(project.lib_modules[0].name, "util");
    assert_eq!(project.public_dir, Some("app/ui/public".to_string()));
}

#[test]
fn test_empty_project() {
    let files = ProjectFiles {
        pages: vec![],
        components: vec![],
        layouts: vec![],
        api_routes: vec![],
        models: vec![],
        middleware: vec![],
        lib_modules: vec![],
        public_dir: None,
    };
    let project = discover_project(&files);
    assert!(project.is_empty());
    assert_eq!(project.total_count(), 0);
}

#[test]
fn test_capitals_beyond_ascii() {
    assert_eq!(class_name_to_tag("a\u{c9}b"), "a-\u{c9}b");
    assert_eq!(class_name_to_tag("\u{e9}tat"), "app-\u{e9}tat");
    assert_eq!(pascal_to_snake("x\u{c9}"), "x_\u{c9}s");
    assert_eq!(class_name_to_tag("a[Z`"), "a[-z`");
}
