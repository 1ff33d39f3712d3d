use cleen::errors::CleenError;
use cleen::manager::Config;
use cleen::scaffold::{generate_main_cln, generate_readme, generate_test_cln};
use cleen::plugin::{
    check_plugin_compatibility, create_plugin, parse_plugin_specifier, version_satisfies,
    PluginManifest, RegistryClient,
};

#[test]
fn test_new_manifest() {
    let manifest = PluginManifest::new("my-plugin");
    assert_eq!(manifest.plugin.name, "my-plugin");
    assert_eq!(manifest.plugin.version, "0.1.0");
    assert!(manifest.validate().is_ok());
}

#[test]
fn test_parse_plugin_specifier() {
    let (name, version) = parse_plugin_specifier("frame.web");
    assert_eq!(name, "frame.web");
    assert_eq!(version, None);

    let (name, version) = parse_plugin_specifier("frame.web@1.0.0");
    assert_eq!(name, "frame.web");
    assert_eq!(version, Some("1.0.0".to_string()));

    let (name, version) = parse_plugin_specifier("my-plugin@2.1.0-beta");
    assert_eq!(name, "my-plugin");
    assert_eq!(version, Some("2.1.0-beta".to_string()));
}

#[test]
fn test_version_satisfies() {
    assert!(version_satisfies("1.0.0", "1.0.0"));
    assert!(version_satisfies("1.1.0", "1.0.0"));
    assert!(version_satisfies("2.0.0", "1.0.0"));
    assert!(!version_satisfies("0.9.0", "1.0.0"));
    assert!(version_satisfies("v1.0.0", "1.0.0"));
    assert!(version_satisfies("1.0.0", "v1.0.0"));
}

#[test]
fn test_registry_client_new() {
    let client = RegistryClient::new();
    assert_eq!(client.base_url, "https://plugins.cleanlang.org");
}

#[test]
fn test_registry_not_available() {
    let client = RegistryClient::new();
    let result = client.get_plugin_info("test-plugin", None);
    assert!(result.is_err());
}

#[test]
fn test_registry_messages() {
    let client = RegistryClient::new();
    assert_eq!(
        client.get_plugin_info("p", Some("1.0")).err(),
        Some(CleenError::PluginRegistryError {
            message:
                "Plugin registry not yet available. Cannot fetch 'p' from https://plugins.cleanlang.org"
                    .to_string()
        })
    );
    assert_eq!(
        client.list_available().err(),
        Some(CleenError::PluginRegistryError {
            message: "Plugin registry not yet available at https://plugins.cleanlang.org"
                .to_string()
        })
    );
    assert_eq!(
        client.search("web").err(),
        Some(CleenError::PluginRegistryError {
            message: "Plugin registry search not yet available. Query: 'web'".to_string()
        })
    );
    assert_eq!(
        client.publish(&PluginManifest::new("p"), "p.wasm"),
        Err(CleenError::PluginRegistryError {
            message: "Plugin publishing not yet available. Registry is planned for future release."
                .to_string()
        })
    );
}

#[test]
fn test_manifest_defaults_and_faults() {
    let mut manifest = PluginManifest::new("frame.web");
    assert_eq!(manifest.plugin.description, Some("frame.web plugin for Clean Language".to_string()));
    assert_eq!(manifest.plugin.license, Some("MIT".to_string()));
    assert_eq!(manifest.compatibility.min_compiler_version, Some("0.15.0".to_string()));
    assert_eq!(manifest.exports.expand, "expand_block");
    assert_eq!(manifest.exports.validate, "validate_block");
    manifest.plugin.version = String::new();
    assert_eq!(
        manifest.validate(),
        Err(CleenError::PluginManifestError { message: "Plugin version is required".to_string() })
    );
    manifest.plugin.name = String::new();
    assert_eq!(
        manifest.validate(),
        Err(CleenError::PluginManifestError { message: "Plugin name is required".to_string() })
    );
    let bad = PluginManifest::new("my plugin");
    assert_eq!(
        bad.validate(),
        Err(CleenError::PluginManifestError {
            message: "Plugin name can only contain alphanumeric characters, dots, hyphens, and underscores".to_string()
        })
    );
}

#[test]
fn test_create_plugin_name() {
    assert_eq!(create_plugin("frame.web_2-x"), Ok(()));
    assert_eq!(
        create_plugin(""),
        Err(CleenError::PluginManifestError { message: "Plugin name cannot be empty".to_string() })
    );
    assert!(create_plugin("a/b").is_err());
}

#[test]
fn test_version_satisfies_edges() {
    assert!(version_satisfies("1", "1.0.0"));
    assert!(!version_satisfies("1.0", "1.0.1"));
    assert!(version_satisfies("1.x.2", "1.1"));
    assert!(version_satisfies("", ""));
}

#[test]
fn test_check_plugin_compatibility() {
    let mut config = Config {
        active_version: None,
        frame_version: None,
        cleen_dir: ".cleen".to_string(),
        auto_cleanup: false,
        github_api_token: None,
        check_updates: true,
        auto_offer_frame: true,
        last_update_check: None,
        last_self_update_check: None,
    };
    let manifest = PluginManifest::new("p");
    assert_eq!(check_plugin_compatibility(&config, &manifest), Err(CleenError::NoCompilerForPlugin));
    config.active_version = Some("0.15.1".to_string());
    assert_eq!(check_plugin_compatibility(&config, &manifest), Ok(()));
    config.active_version = Some("0.14.9".to_string());
    assert_eq!(
        check_plugin_compatibility(&config, &manifest),
        Err(CleenError::PluginIncompatible {
            name: "p".to_string(),
            required: "0.15.0".to_string(),
            current: "0.14.9".to_string(),
        })
    );
}

#[test]
fn test_generate_main_cln() {
    let content = generate_main_cln("test-plugin");
    assert!(content.contains("Plugin: test-plugin"));
    assert!(content.contains("expand_block"));
    assert!(content.contains("validate_block"));
}

#[test]
fn test_generate_test_cln() {
    let content = generate_test_cln("test-plugin");
    assert!(content.contains("Test file for test-plugin"));
    assert!(content.contains("test_expand_basic"));
}

#[test]
fn test_generate_readme() {
    let content = generate_readme("test-plugin");
    assert!(content.contains("# test-plugin"));
    assert!(content.contains("cleen plugin install test-plugin"));
}

#[test]
fn test_scaffold_texts_hold_the_name() {
    let main = generate_main_cln("p");
    assert!(main.starts_with("// Plugin: p\n// Expand framework blocks"));
    assert!(main.contains("result: string = \"// Expanded by p plugin\\n\" + body\n"));
    assert!(main.ends_with("    return true\n"));
    let test = generate_test_cln("p");
    assert!(test.contains("attributes: string = \"{}\"\n"));
    let readme = generate_readme("p");
    assert!(readme.contains("import: p\n"));
    assert!(readme.ends_with("## License\n\nMIT\n"));
}
