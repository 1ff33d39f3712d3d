use cleen::errors::CleenError;
use cleen::manager::{
    check_frame_dependency, cleen_dir_in, get_cleen_dir, get_config_path,
    get_reload_instructions, parse_entry_from_toml, Config, ShimManager,
    VersionManager,
};
use cleen::version::{
    check_frame_compatibility, is_version_gte, parse_version, to_clean_version,
    to_github_version, versions_equal, CompatibilityMatrix,
};

#[test]
fn test_version_comparison() {
    assert!(is_version_gte("0.14.0", "0.14.0"));
    assert!(is_version_gte("0.15.0", "0.14.0"));
    assert!(is_version_gte("1.0.0", "0.14.0"));
    assert!(!is_version_gte("0.13.0", "0.14.0"));
    assert!(!is_version_gte("0.13.9", "0.14.0"));
}

#[test]
fn test_version_parsing() {
    assert_eq!(parse_version("0.14.0"), [0, 14, 0]);
    assert_eq!(parse_version("v1.2.3"), [1, 2, 3]);
    assert_eq!(parse_version("2.0"), [2, 0, 0]);
}

#[test]
fn test_compatibility_matrix() {
    let matrix = CompatibilityMatrix::new();

    assert!(matrix.is_compatible("0.14.0", "0.1.0"));
    assert!(matrix.is_compatible("0.15.0", "0.1.0"));
    assert!(!matrix.is_compatible("0.13.0", "0.1.0"));
}

#[test]
fn test_find_compatible_frame() {
    let matrix = CompatibilityMatrix::new();

    assert_eq!(
        matrix.find_compatible_frame_version("0.14.0"),
        Some("0.1.0".to_string())
    );
    assert_eq!(
        matrix.find_compatible_frame_version("0.15.0"),
        Some("0.1.0".to_string())
    );
    assert_eq!(matrix.find_compatible_frame_version("0.13.0"), None);
}

#[test]
fn test_version_parsing_edges() {
    assert_eq!(parse_version(""), [0, 0, 0]);
    assert_eq!(parse_version("vv3.x.+7"), [3, 0, 7]);
    assert_eq!(parse_version("4294967295.4294967296.-1"), [4294967295, 0, 0]);
    assert_eq!(parse_version("1.2.3.4"), [1, 2, 3]);
}

#[test]
fn test_find_compatible_frame_above_table() {
    let matrix = CompatibilityMatrix::new();
    assert_eq!(matrix.find_compatible_frame_version("v0.16.2"), Some("0.1.0".to_string()));
    assert_eq!(matrix.get_required_compiler_version("v0.1.0"), Some("0.14.0".to_string()));
    assert_eq!(matrix.get_required_compiler_version("0.2.0"), None);
    assert!(!matrix.is_compatible("9.9.9", "0.2.0"));
}

#[test]
fn test_check_frame_compatibility() {
    assert_eq!(check_frame_compatibility("0.14.0", "0.1.0"), Ok(()));
    assert_eq!(
        check_frame_compatibility("0.13.0", "0.1.0"),
        Err(CleenError::FrameIncompatible {
            frame_version: "0.1.0".to_string(),
            required_compiler: "0.14.0".to_string(),
            current_compiler: "0.13.0".to_string(),
        })
    );
    assert_eq!(
        check_frame_compatibility("0.15.0", "0.3.0"),
        Err(CleenError::FrameIncompatible {
            frame_version: "0.3.0".to_string(),
            required_compiler: "unknown".to_string(),
            current_compiler: "0.15.0".to_string(),
        })
    );
}

#[test]
fn test_version_spellings() {
    assert_eq!(to_clean_version("v0.6.2"), "0.6.2");
    assert_eq!(to_clean_version("0.6.2"), "0.6.2");
    assert_eq!(to_clean_version("latest"), "latest");
    assert_eq!(to_github_version("0.6.2"), "v0.6.2");
    assert_eq!(to_github_version("v0.6.2"), "v0.6.2");
    assert_eq!(to_github_version("latest"), "latest");
    assert!(versions_equal("v1.0.0", "1.0.0"));
    assert!(!versions_equal("1.0.0", "1.0.1"));
}

fn config() -> Config {
    Config {
        active_version: None,
        frame_version: None,
        cleen_dir: "/home/u/.cleen".to_string(),
        auto_cleanup: false,
        github_api_token: None,
        check_updates: true,
        auto_offer_frame: true,
        last_update_check: None,
        last_self_update_check: None,
    }
}

#[test]
fn test_config_paths() {
    let c = config();
    assert_eq!(c.get_versions_dir(), "/home/u/.cleen/versions");
    assert_eq!(c.get_bin_dir(), "/home/u/.cleen/bin");
    assert_eq!(c.get_version_dir("0.6.2"), "/home/u/.cleen/versions/0.6.2");
    assert_eq!(c.get_version_binary("0.6.2"), "/home/u/.cleen/versions/0.6.2/cln");
    assert_eq!(
        c.get_version_compile_options("0.6.2"),
        "/home/u/.cleen/versions/0.6.2/compile-options.json"
    );
    assert_eq!(c.get_shim_path(), "/home/u/.cleen/bin/cln");
    assert_eq!(c.get_frame_versions_dir(), "/home/u/.cleen/versions/frame");
    assert_eq!(c.get_frame_version_dir("0.1.0"), "/home/u/.cleen/versions/frame/0.1.0");
    assert_eq!(c.get_frame_version_binary("0.1.0"), "/home/u/.cleen/versions/frame/0.1.0/frame");
    assert_eq!(c.get_frame_shim_path(), "/home/u/.cleen/bin/frame");
    assert_eq!(c.get_version_dir("/abs"), "/abs");
}

#[test]
fn test_config_active_version() {
    let mut c = config();
    assert_eq!(c.get_effective_version(None), None);
    c.set_active_version("0.6.2".to_string());
    assert_eq!(c.active_version, Some("0.6.2".to_string()));
    assert_eq!(c.get_effective_version(None), Some("0.6.2".to_string()));
    assert_eq!(c.get_effective_version(Some("0.5.0".to_string())), Some("0.5.0".to_string()));
    c.clear_active_version();
    assert_eq!(c.active_version, None);
}

#[test]
fn test_config_update_checks() {
    let mut c = config();
    assert!(c.should_check_updates(1000));
    c.update_last_check_time(1000);
    assert_eq!(c.last_update_check, Some("1000".to_string()));
    assert!(!c.should_check_updates(1000 + 86400));
    assert!(c.should_check_updates(1000 + 86401));
    c.update_last_self_check_time(0);
    assert_eq!(c.last_self_update_check, Some("0".to_string()));
    assert!(!c.should_check_self_updates(604800));
    assert!(c.should_check_self_updates(604801));
    c.last_update_check = Some("soon".to_string());
    assert!(c.should_check_updates(0));
    c.last_update_check = Some("-5".to_string());
    assert!(c.should_check_updates(86396));
    assert!(!c.should_check_updates(86395));
    c.check_updates = false;
    assert!(!c.should_check_updates(i64::MAX));
    assert!(!c.should_check_self_updates(i64::MAX));
}

#[test]
fn test_validate_version() {
    let m = VersionManager::new(config());
    assert_eq!(m.validate_version("0.6.2"), Ok(()));
    assert_eq!(m.validate_version(""), Err(CleenError::InvalidVersion { version: "".to_string() }));
    for bad in ["../x", "a/b", "a\\b"] {
        assert_eq!(
            m.validate_version(bad),
            Err(CleenError::InvalidVersion { version: bad.to_string() })
        );
    }
    assert_eq!(m.get_active_version(), None);
    assert_eq!(m.get_config().cleen_dir, "/home/u/.cleen");
    assert_eq!(ShimManager::new(config()).get_config().cleen_dir, "/home/u/.cleen");
}

#[test]
fn test_frame_dependency() {
    let mut c = config();
    assert!(!check_frame_dependency(&c, "0.6.2"));
    c.active_version = Some("0.6.2".to_string());
    assert!(!check_frame_dependency(&c, "0.6.2"));
    c.frame_version = Some("0.1.0".to_string());
    assert!(check_frame_dependency(&c, "0.6.2"));
    assert!(!check_frame_dependency(&c, "v0.6.2"));
}

#[test]
fn test_reload_instructions() {
    assert_eq!(get_reload_instructions("zsh", Some("/home/u/.zshrc")), "source /home/u/.zshrc");
    assert_eq!(get_reload_instructions("fish", Some("/x")), "source ~/.config/fish/config.fish");
    assert_eq!(get_reload_instructions("bash", None), "source ~/.bashrc");
}

#[test]
fn test_parse_entry_from_toml() {
    assert_eq!(
        parse_entry_from_toml("[app]\nname = \"x\"\n  entry = \"src/main.cln\"\nentry = 'b'"),
        Some("src/main.cln".to_string())
    );
    assert_eq!(parse_entry_from_toml("entry\nentry_point = 'a' = b"), Some("a".to_string()));
    assert_eq!(parse_entry_from_toml("name = \"entry\""), None);
    assert_eq!(parse_entry_from_toml(""), None);
}

#[test]
fn test_cleen_dir() {
    assert_eq!(cleen_dir_in(Some("/home/u".to_string())), Ok("/home/u/.cleen".to_string()));
    assert_eq!(cleen_dir_in(Some("/".to_string())), Ok("/.cleen".to_string()));
    assert_eq!(cleen_dir_in(None), Err(CleenError::HomeDirectoryNotFound));
    match get_cleen_dir() {
        Ok(dir) => {
            assert!(dir.ends_with(".cleen"));
            assert_eq!(get_config_path(), Ok(format!("{}/config.json", dir)));
        }
        Err(e) => {
            assert_eq!(e, CleenError::HomeDirectoryNotFound);
            assert_eq!(get_config_path(), Err(CleenError::HomeDirectoryNotFound));
        }
    }
}

#[test]
fn test_error_constructors() {
    assert_eq!(CleenError::config_error("a"), CleenError::ConfigError { message: "a".to_string() });
    assert_eq!(CleenError::github_error("b"), CleenError::GitHubError { message: "b".to_string() });
    assert_eq!(CleenError::shell_error("c"), CleenError::ShellError { message: "c".to_string() });
    assert_eq!(
        CleenError::environment_error("d"),
        CleenError::EnvironmentError { message: "d".to_string() }
    );
}

#[test]
fn test_shim_target() {
    let mut c = config();
    c.active_version = Some("0.6.2".to_string());
    let shims = ShimManager::new(c);
    assert_eq!(shims.get_effective_version(None), Some("0.6.2".to_string()));
    assert_eq!(shims.get_current_shim_target(Some("0.5.0".to_string())), Some("0.5.0".to_string()));
}
