use zoxi::project::cache::{
    build_cache_state_content, cache_state_content, load_build_cache_state, load_cache_state,
    parse_cache_state, BuildCacheEntry, BuildCacheState, CacheEntry, CacheState, SourceFingerprint,
};
use zoxi::project::fields::{escape, parse_u64, split_lines, u64_decimal, unescape};
use zoxi::project::hash::{stable_hash_bytes, stable_hash_str};
use zoxi::project::manifest::{
    add_dependencies, default_manifest, default_package_name, parse_manifest, remove_dependencies,
};
use zoxi::project::paths::ProjectPaths;

#[test]
fn fnv_hash_of_nothing_is_the_offset_basis() {
    assert_eq!(stable_hash_str(""), 0xcbf29ce484222325);
    assert_eq!(stable_hash_bytes(&[]), 0xcbf29ce484222325);
}

#[test]
fn fnv_hash_of_a_letter() {
    assert_eq!(stable_hash_str("a"), 0xaf63dc4c8601ec8c);
}

#[test]
fn escape_and_unescape_round_trip() {
    let original = "a\tb\\c\nd\re";
    let escaped = escape(original);
    assert_eq!(escaped, "a\\tb\\\\c\\nd\\re");
    assert_eq!(unescape(&escaped), Some(original.to_string()));
}

#[test]
fn unescape_rejects_bad_escapes() {
    assert_eq!(unescape("bad\\x"), None);
    assert_eq!(unescape("trailing\\"), None);
}

#[test]
fn decimal_numbers_round_trip() {
    assert_eq!(u64_decimal(0), "0");
    assert_eq!(u64_decimal(1234567890), "1234567890");
    assert_eq!(parse_u64("+42"), Some(42));
    assert_eq!(parse_u64(""), None);
    assert_eq!(parse_u64("+"), None);
    assert_eq!(parse_u64("12a"), None);
    assert_eq!(parse_u64("18446744073709551615"), Some(u64::MAX));
    assert_eq!(parse_u64("18446744073709551616"), None);
}

#[test]
fn lines_split_like_str_lines() {
    let text: Vec<char> = "a\r\nb\n\nc".chars().collect();
    let lines: Vec<String> = split_lines(&text).iter().map(|l| l.iter().collect()).collect();
    assert_eq!(lines, vec!["a", "b", "", "c"]);
    let text: Vec<char> = "x\n".chars().collect();
    assert_eq!(split_lines(&text).len(), 1);
}

fn entry(path: &str, size: u64, modified: u64) -> CacheEntry {
    CacheEntry::new(path.to_string(), SourceFingerprint::from_metadata(size, modified))
}

#[test]
fn cache_is_written_in_path_order() {
    let mut state = CacheState::new();
    state.insert("b.zo".to_string(), entry("src/b.rs", 3, 4));
    state.insert("a.zo".to_string(), entry("src/a.rs", 1, 2));
    assert_eq!(cache_state_content(&state), "v2\na.zo\tsrc/a.rs\t1\t2\nb.zo\tsrc/b.rs\t3\t4\n");
}

#[test]
fn cache_reads_back_what_was_written() {
    let mut state = CacheState::new();
    state.insert("dir/with\ttab.zo".to_string(), entry("src/x.rs", 10, 20));
    state.insert("main.zo".to_string(), entry("src/main.rs", 5, 6));
    state.insert("main.zo".to_string(), entry("src/main.rs", 7, 8));
    let text = cache_state_content(&state);
    let back = parse_cache_state(&text);
    assert_eq!(back.entries().len(), 2);
    let main = back.get("main.zo").unwrap();
    assert_eq!(main.generated_path(), "src/main.rs");
    assert!(main.matches(&SourceFingerprint::from_metadata(7, 8)));
    assert!(!main.matches(&SourceFingerprint::from_metadata(5, 6)));
    assert_eq!(back.get("dir/with\ttab.zo").unwrap().fingerprint.size(), 10);
}

#[test]
fn cache_with_wrong_version_or_bad_line_is_empty() {
    assert_eq!(parse_cache_state("v1\na\tb\t1\t2\n").entries().len(), 0);
    assert_eq!(parse_cache_state("v2\na\tb\t1\n").entries().len(), 0);
    assert_eq!(parse_cache_state("v2\na\tb\tx\t2\n").entries().len(), 0);
    assert_eq!(load_cache_state(None).entries().len(), 0);
    assert_eq!(load_cache_state(Some("v2\n\na\tb\t1\t2\n")).entries().len(), 1);
}

#[test]
fn build_cache_round_trip() {
    let mut state = BuildCacheState::new();
    state.insert("build|debug|bin|/p/main.rs".to_string(), BuildCacheEntry::new("/p/app".to_string(), 99));
    let text = build_cache_state_content(&state);
    assert_eq!(text, "build-v2\nbuild|debug|bin|/p/main.rs\t/p/app\t99\n");
    let back = load_build_cache_state(Some(text.as_str()));
    let e = back.get("build|debug|bin|/p/main.rs").unwrap();
    assert!(e.matches("/p/app", 99));
    assert!(!e.matches("/p/other", 99));
    assert!(!e.matches("/p/app", 98));
}

#[test]
fn add_dependency_to_empty_manifest_creates_section() {
    let r = add_dependencies("", &vec!["serde@1.0".to_string()]).unwrap();
    assert_eq!(r, "[dependencies]\nserde = \"1.0\"\n");
}

#[test]
fn add_dependencies_sorts_into_section_and_replaces_existing() {
    let content = "[package]\nname = \"app\"\n\n[dependencies]\nrand = \"0.8\"\n";
    let r = add_dependencies(content, &vec!["zeta=2".to_string(), "alpha".to_string(), "rand@0.9".to_string()]).unwrap();
    assert_eq!(
        r,
        "[package]\nname = \"app\"\n\n[dependencies]\nalpha = \"*\"\nrand = \"0.9\"\nzeta = \"2\"\n"
    );
}

#[test]
fn add_dependencies_stays_in_the_dependencies_section() {
    let content = "[dependencies]\nserde = \"1\"\n\n[dev-dependencies]\nzzz = \"1\"\n";
    let r = add_dependencies(content, &vec!["anyhow@1".to_string()]).unwrap();
    assert_eq!(r, "[dependencies]\nanyhow = \"1\"\nserde = \"1\"\n\n[dev-dependencies]\nzzz = \"1\"\n");
}

#[test]
fn remove_dependencies_leaves_other_sections_alone() {
    let content = "[package]\nname = \"app\"\nversion = \"0.1.0\"\n\n[dependencies]\nversion = \"3\"\nserde = \"1\"\n";
    assert_eq!(
        remove_dependencies(content, &vec!["version".to_string()]).unwrap(),
        "[package]\nname = \"app\"\nversion = \"0.1.0\"\n\n[dependencies]\nserde = \"1\"\n"
    );
}

#[test]
fn add_dependencies_needs_packages() {
    assert_eq!(add_dependencies("", &vec![]), Err("add requires at least one package".to_string()));
    assert_eq!(
        add_dependencies("", &vec!["  ".to_string()]),
        Err("dependency specification cannot be empty".to_string())
    );
    assert_eq!(
        add_dependencies("", &vec!["@1.0".to_string()]),
        Err("dependency name cannot be empty".to_string())
    );
}

#[test]
fn remove_dependencies_drops_named_lines() {
    let content = "[dependencies]\nrand = \"0.8\"\nserde = \"1\"\n";
    assert_eq!(
        remove_dependencies(content, &vec!["rand@0.8".to_string()]).unwrap(),
        "[dependencies]\nserde = \"1\"\n"
    );
    assert_eq!(
        remove_dependencies(content, &vec![]),
        Err("remove requires at least one package".to_string())
    );
}

#[test]
fn manifest_settings_are_read() {
    let m = parse_manifest(
        "[package]\nname = \"my-demo\" # the name\nedition = \"2021\"\n\n[dependencies]\nserde = \"1\"\n",
        "fallback".to_string(),
    )
    .unwrap();
    assert_eq!(m.package_name(), "my-demo");
    assert_eq!(m.crate_name(), "my_demo");
    assert_eq!(m.edition(), "2021");
    assert_eq!(m.dependency_section(), "serde = \"1\"");
}

#[test]
fn manifest_defaults_and_bad_edition() {
    let m = parse_manifest("", "fallback".to_string()).unwrap();
    assert_eq!(m.package_name(), "fallback");
    assert_eq!(m.edition(), "2024");
    assert_eq!(
        parse_manifest("[package]\nedition = \"2030\"\n", "x".to_string()).unwrap_err(),
        "unsupported Rust edition `2030` in zoxi.toml"
    );
}

#[test]
fn default_names_and_manifest_text() {
    assert_eq!(default_package_name(None), "zoxi-app");
    assert_eq!(default_package_name(Some("")), "zoxi-app");
    assert_eq!(default_package_name(Some("proj")), "proj");
    assert_eq!(
        default_manifest("proj"),
        "[package]\nname = \"proj\"\nversion = \"0.1.0\"\nedition = \"2024\"\n\n[dependencies]\n"
    );
}

#[test]
fn project_paths_are_joined_under_the_root() {
    let paths = ProjectPaths::new(Some("proj".to_string()), "/home/u".to_string(), Some("/home/u".to_string()));
    assert_eq!(paths.root(), "/home/u/proj");
    assert_eq!(paths.src_dir(), "/home/u/proj/src");
    assert_eq!(paths.generated_src_dir(), "/home/u/proj/.zoxi/src");
    assert_eq!(paths.transpile_cache_state_path(), "/home/u/proj/.zoxi/.cache/transpile-state");
    assert_eq!(paths.build_cache_state_path(), "/home/u/proj/.zoxi/.cache/build-state");
    assert_eq!(paths.profile_artifact_dir(true), "/home/u/proj/.zoxi/.cache/artifacts/release");
    assert_eq!(paths.profile_incremental_dir(false), "/home/u/proj/.zoxi/.cache/incremental/debug");
    assert_eq!(paths.global_cache_dir(), Ok("/home/u/.zoxi/cache".to_string()));
    assert_eq!(paths.registry_cache_dir(), Ok("/home/u/.zoxi/cache/registry".to_string()));
    assert_eq!(paths.version_cache_dir(), Ok("/home/u/.zoxi/cache/crates".to_string()));
    assert_eq!(paths.source_cache_dir(), Ok("/home/u/.zoxi/cache/sources".to_string()));
}

#[test]
fn absolute_root_and_missing_home() {
    let paths = ProjectPaths::new(Some("/abs".to_string()), "/cwd".to_string(), None);
    assert_eq!(paths.root(), "/abs");
    assert_eq!(paths.global_root_dir(), Err("HOME is not set".to_string()));
    let paths = ProjectPaths::new(None, "/cwd".to_string(), None);
    assert_eq!(paths.root(), "/cwd");
}

#[test]
fn cache_orders_paths_by_components() {
    let mut state = CacheState::new();
    state.insert("a.b".to_string(), entry("src/x.rs", 1, 2));
    state.insert("a/b".to_string(), entry("src/y.rs", 3, 4));
    let keys: Vec<&str> = state.entries().iter().map(|(k, _)| k.as_str()).collect();
    assert_eq!(keys, vec!["a/b", "a.b"]);
}

#[test]
fn cache_reads_back_in_the_same_order() {
    let mut state = CacheState::new();
    state.insert("a.b".to_string(), entry("src/x.rs", 1, 2));
    state.insert("a/b".to_string(), entry("src/y.rs", 3, 4));
    state.insert("main.zo".to_string(), entry("src/main.rs", 5, 6));
    let back = parse_cache_state(&cache_state_content(&state));
    let written: Vec<(String, String)> =
        state.entries().iter().map(|(k, e)| (k.clone(), e.generated_path().to_string())).collect();
    let read: Vec<(String, String)> =
        back.entries().iter().map(|(k, e)| (k.clone(), e.generated_path().to_string())).collect();
    assert_eq!(read, written);
}
