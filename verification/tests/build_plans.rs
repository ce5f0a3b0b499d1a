use zoxi::build::compiler::{
    compile_order, output_path, preferred_linker, CompiledTarget, rustc_target_args, target_definitions, target_key, BuildMode,
    DependencyArtifacts, TargetDefinition, TargetKind,
};
use zoxi::build::dependencies::{
    compile_registry_package, prepare_dependency_artifacts, registry_lib_path, registry_package,
    RegistryCrateType, RegistryManifest, RegistryPackage,
    package_id, parse_manifest_dependency, parse_stored_fingerprint, resolve_package_spec,
    DependencyValue, PackageSpecLine, dependency_table_text,
};
use zoxi::build::manifest_toml::parse_registry_manifest_text;
use zoxi::build::runner::{binary_target, profile_label, rustc_options_from_parts};
use zoxi::build::types::{EnvVar, RustcOptions};
use zoxi::cargo::options::{CargoOptions, CargoRunner, CargoSubcommand, AddOptions, RunOptions};
use zoxi::project::cache::{CacheEntry, CacheState, SourceFingerprint};
use zoxi::project::hash::stable_hash_str;
use zoxi::project::manifest::parse_manifest;
use zoxi::project::paths::ProjectPaths;
use zoxi::transpiler::engine::{generated_paths, with_extension_rs};
use zoxi::transpiler::error::{Span, TranspileError};
use zoxi::transpiler::source::keywords::rewrite_word;

#[test]
fn env_assignments_are_parsed() {
    let v = EnvVar::parse(" KEY = a=b").unwrap();
    assert_eq!(v.key(), "KEY");
    assert_eq!(v.value(), " a=b");
    assert_eq!(
        EnvVar::parse("novalue").unwrap_err(),
        "invalid env assignment `novalue`, expected KEY=VALUE"
    );
    assert_eq!(EnvVar::parse(" =x").unwrap_err(), "invalid env assignment ` =x`, key cannot be empty");
}

#[test]
fn rustc_options_stop_at_the_first_bad_assignment() {
    let r = rustc_options_from_parts(true, &vec!["A=1".to_string(), "bad".to_string()], vec![]);
    assert_eq!(r.unwrap_err(), "invalid env assignment `bad`, expected KEY=VALUE");
    let o = rustc_options_from_parts(false, &vec!["A=1".to_string()], vec!["-g".to_string()]).unwrap();
    assert_eq!(o.envs.len(), 1);
    assert_eq!(o.command_args(), &vec!["-g".to_string()]);
}

#[test]
fn cargo_options_put_release_first() {
    let o = CargoOptions { release: true, envs: vec![], args: vec!["-v".to_string()] };
    assert_eq!(o.command_args(), vec!["--release".to_string(), "-v".to_string()]);
}

#[test]
fn cargo_command_lines() {
    let runner = CargoRunner::new("/gen".to_string());
    let empty = CargoOptions { release: false, envs: vec![], args: vec![] };
    let add = CargoSubcommand::Add(AddOptions { cargo: empty.clone(), packages: vec![] });
    assert_eq!(runner.command(&add).err(), Some("cargo add requires at least one package".to_string()));
    let run = CargoSubcommand::Run(RunOptions { cargo: empty, app_args: vec!["x".to_string()] });
    let (name, command) = runner.command(&run).unwrap();
    assert_eq!(name, "run");
    assert_eq!(command.workdir, "/gen");
    assert_eq!(command.args, vec!["run".to_string(), "--".to_string(), "x".to_string()]);
}

fn paths() -> ProjectPaths {
    ProjectPaths::new(Some("/p".to_string()), "/".to_string(), Some("/h".to_string()))
}

#[test]
fn targets_keys_and_outputs() {
    let targets = target_definitions("/p/.zoxi/src", "app", true, true);
    assert_eq!(targets.len(), 2);
    assert_eq!(targets[0].kind, TargetKind::Library);
    assert_eq!(targets[1].source_path, "/p/.zoxi/src/main.rs");
    assert_eq!(target_key(&targets[0], false, BuildMode::Build), "build|debug|lib|/p/.zoxi/src/lib.rs");
    let manifest = parse_manifest("[package]\nname = \"app\"\n", "x".to_string()).unwrap();
    assert_eq!(
        output_path(&paths(), &targets[0], &manifest, false, BuildMode::Build),
        "/p/.zoxi/.cache/artifacts/debug/libapp.rlib"
    );
    assert_eq!(
        output_path(&paths(), &targets[1], &manifest, true, BuildMode::Test),
        "/p/.zoxi/.cache/artifacts/release/app-bin-tests"
    );
}

#[test]
fn linker_preference() {
    assert_eq!(preferred_linker(false, true, true), None);
    assert_eq!(preferred_linker(true, true, true), Some(("clang", "-fuse-ld=mold")));
    assert_eq!(preferred_linker(true, false, true), Some(("clang", "-fuse-ld=lld")));
    assert_eq!(preferred_linker(true, false, false), None);
}

#[test]
fn rustc_arguments_of_a_binary() {
    let target = TargetDefinition { kind: TargetKind::Binary, crate_name: "app".to_string(), source_path: "/s/main.rs".to_string() };
    let options = RustcOptions { release: false, envs: vec![], args: vec!["-g".to_string()] };
    let deps = DependencyArtifacts {
        externs: vec![("serde".to_string(), "/d/libserde.rlib".to_string())],
        search_dirs: vec!["/d".to_string()],
        fingerprint: 0,
    };
    let args = rustc_target_args(&target, "2024", "/inc", "/out/app", None, &options, BuildMode::Build, Some(("/out", "app=/out/libapp.rlib")), &deps);
    let expected: Vec<&str> = vec![
        "/s/main.rs", "--crate-name", "app", "--edition", "2024", "-C", "incremental=/inc", "-C",
        "codegen-units=16", "-o", "/out/app", "-C", "opt-level=0", "-C", "debuginfo=0", "-L",
        "dependency=/out", "--extern", "app=/out/libapp.rlib", "-L", "dependency=/d", "--extern",
        "serde=/d/libserde.rlib", "-g",
    ];
    assert_eq!(args, expected.iter().map(|s| s.to_string()).collect::<Vec<_>>());
}

#[test]
fn run_picks_the_first_binary() {
    let targets = vec![
        CompiledTarget { kind: TargetKind::Library, crate_name: "a".to_string(), output_path: "l".to_string() },
        CompiledTarget { kind: TargetKind::Binary, crate_name: "a".to_string(), output_path: "b".to_string() },
    ];
    assert_eq!(binary_target(&targets), Some(1));
    assert_eq!(binary_target(&vec![]), None);
    assert_eq!(profile_label(true), "release profile [optimized]");
}

#[test]
fn package_specs() {
    match resolve_package_spec(" serde@ 1.0 ").unwrap() {
        PackageSpecLine::Line(line) => assert_eq!(line, "serde = \"1.0\""),
        _ => panic!("expected a line"),
    }
    match resolve_package_spec("rand=\"0.8\"").unwrap() {
        PackageSpecLine::Line(line) => assert_eq!(line, "rand = \"0.8\""),
        _ => panic!("expected a line"),
    }
    match resolve_package_spec("anyhow").unwrap() {
        PackageSpecLine::NeedsLatest(name) => assert_eq!(name, "anyhow"),
        _ => panic!("expected a lookup"),
    }
    assert_eq!(
        resolve_package_spec("serde@").err(),
        Some("missing version in dependency specification `serde@`".to_string())
    );
    assert_eq!(package_id("serde", "1.0.0"), "serde@1.0.0");
}

#[test]
fn dependency_entries() {
    let d = parse_manifest_dependency("serde-json", &DependencyValue::Version("1.0".to_string())).unwrap().unwrap();
    assert_eq!(d.registry_name, "serde-json");
    assert_eq!(d.crate_name, "serde_json");
    assert!(parse_manifest_dependency("x", &DependencyValue::Version("not a version!".to_string())).is_err());
    let optional = DependencyValue::Table { optional: Some(true), has_path: false, has_git: false, has_workspace: false, package: None, version: None };
    assert!(parse_manifest_dependency("x", &optional).unwrap().is_none());
    let local = DependencyValue::Table { optional: None, has_path: true, has_git: false, has_workspace: false, package: None, version: None };
    assert_eq!(
        parse_manifest_dependency("x", &local).err(),
        Some("non-registry dependencies are not supported in rustc-only mode".to_string())
    );
    let renamed = DependencyValue::Table { optional: Some(false), has_path: false, has_git: false, has_workspace: false, package: Some("real".to_string()), version: None };
    let d = parse_manifest_dependency("alias", &renamed).unwrap().unwrap();
    assert_eq!(d.registry_name, "real");
    assert_eq!(d.version_req, "*");
    assert_eq!(parse_stored_fingerprint(" 42\n"), Some(42));
}

#[test]
fn generated_file_names() {
    assert_eq!(with_extension_rs("foo/bar.zo"), "foo/bar.rs");
    assert_eq!(with_extension_rs("main.zo"), "main.rs");
    assert_eq!(with_extension_rs(".hidden"), ".hidden.rs");
    assert_eq!(with_extension_rs("a.b/c"), "a.b/c.rs");
    let (output, relative) = generated_paths(&paths(), "foo/bar.zo");
    assert_eq!(output, "/p/.zoxi/src/foo/bar.rs");
    assert_eq!(relative, "src/foo/bar.rs");
}

#[test]
fn whole_word_rewriting() {
    assert_eq!(rewrite_word("let s: string = strings;", "string", "String"), "let s: String = strings;");
    assert_eq!(rewrite_word("string", "string", "String"), "String");
}

#[test]
fn errors_render_as_text() {
    let e = TranspileError::NoSources("/x".to_string());
    assert_eq!(e.render("main.zo", ""), "no .zo source files were found in /x");
    let d = TranspileError::diagnostic("boom".to_string(), Span { start: 0, end: 2 });
    let rendered = d.render("main.zo", "ab cd");
    assert!(rendered.contains("boom"));
    assert_ne!(rendered, "boom");
}

#[test]
fn registry_packages_compile_with_dependency_flags() {
    let package = RegistryPackage {
        registry_name: "serde".to_string(),
        crate_name: "serde".to_string(),
        version: "1.0.0".to_string(),
        edition: "2021".to_string(),
        root_dir: "/r".to_string(),
        lib_path: "src/lib.rs".to_string(),
        crate_type: RegistryCrateType::Rlib,
        dependencies: vec![],
    };
    let deps = vec![
        ("b".to_string(), "b@1".to_string(), "/d2/libb.rlib".to_string()),
        ("a".to_string(), "a@1".to_string(), "/d1/liba.rlib".to_string()),
    ];
    let plan = compile_registry_package(&paths(), &package, false, &deps, b"src", false, None, "so").unwrap();
    let dir = "/h/.zoxi/cache/registry/serde/1.0.0/debug";
    assert_eq!(plan.output_path, format!("{dir}/deps/libserde.rlib"));
    assert_eq!(plan.fingerprint_path, format!("{dir}/fingerprint"));
    assert!(!plan.fresh);
    assert_eq!(plan.search_dirs, vec!["/d1".to_string(), "/d2".to_string()]);
    let expected = vec![
        "src/lib.rs".to_string(),
        "--crate-name".to_string(),
        "serde".to_string(),
        "--edition".to_string(),
        "2021".to_string(),
        "-C".to_string(),
        format!("incremental={dir}/incremental"),
        "-C".to_string(),
        "codegen-units=16".to_string(),
        "-o".to_string(),
        format!("{dir}/deps/libserde.rlib"),
        "-C".to_string(),
        "opt-level=0".to_string(),
        "-C".to_string(),
        "debuginfo=0".to_string(),
        "--crate-type=rlib".to_string(),
        "-L".to_string(),
        "dependency=/d1".to_string(),
        "-L".to_string(),
        "dependency=/d2".to_string(),
        "--extern".to_string(),
        "b=/d2/libb.rlib".to_string(),
        "--extern".to_string(),
        "a=/d1/liba.rlib".to_string(),
    ];
    assert_eq!(plan.args, expected);
    let again = compile_registry_package(&paths(), &package, false, &deps, b"src", true, Some(plan.fingerprint), "so").unwrap();
    assert!(again.fresh);
    assert!(again.args.is_empty());
    let mut proc_macro = package;
    proc_macro.crate_type = RegistryCrateType::ProcMacro;
    let plan = compile_registry_package(&paths(), &proc_macro, true, &vec![], b"src", false, None, "so").unwrap();
    assert_eq!(plan.output_path, "/h/.zoxi/cache/registry/serde/1.0.0/release/deps/libserde.so");
    assert_eq!(&plan.args[11..], &["-C", "opt-level=3", "-C", "lto=thin", "--crate-type=proc-macro"]);
}

#[test]
fn dependency_artifacts_of_roots() {
    let roots = vec![("serde".to_string(), "serde@1".to_string())];
    let compiled = vec![
        ("a@1".to_string(), "/d1/liba.rlib".to_string()),
        ("serde@1".to_string(), "/d2/libserde.rlib".to_string()),
    ];
    let artifacts = prepare_dependency_artifacts(&roots, &compiled).unwrap();
    assert_eq!(artifacts.externs, vec![("serde".to_string(), "/d2/libserde.rlib".to_string())]);
    assert_eq!(artifacts.search_dirs, vec!["/d1".to_string(), "/d2".to_string()]);
    assert_eq!(artifacts.fingerprint, stable_hash_str("serde@1|/d2/libserde.rlib"));
    let missing = vec![("x".to_string(), "x@1".to_string())];
    assert_eq!(
        prepare_dependency_artifacts(&missing, &compiled).err(),
        Some("missing compiled artifact for resolved dependency `x@1`".to_string())
    );
    let none = prepare_dependency_artifacts(&vec![], &compiled).unwrap();
    assert_eq!(none.fingerprint, 0);
}

#[test]
fn stale_generated_files_are_rust_files_without_entries() {
    let mut state = CacheState::new();
    state.insert("main.zo".to_string(), CacheEntry::new("src/main.rs".to_string(), SourceFingerprint::from_metadata(1, 2)));
    let expected = zoxi::transpiler::engine::expected_generated_files("/p/.zoxi", &state);
    assert_eq!(expected, vec!["/p/.zoxi/src/main.rs".to_string()]);
    assert!(!zoxi::transpiler::engine::is_stale_generated_file("/p/.zoxi/src/main.rs", &expected));
    assert!(zoxi::transpiler::engine::is_stale_generated_file("/p/.zoxi/src/old.rs", &expected));
    assert!(!zoxi::transpiler::engine::is_stale_generated_file("/p/.zoxi/src/notes.txt", &expected));
    assert!(!zoxi::transpiler::engine::is_stale_generated_file("/p/.zoxi/src/.rs", &expected));
}

#[test]
fn registry_manifests_become_packages() {
    let manifest = RegistryManifest {
        has_package: true,
        edition: None,
        lib_path: None,
        lib_name: Some("my-lib".to_string()),
        proc_macro: Some(true),
        dependencies: vec![("serde-json".to_string(), DependencyValue::Version("1".to_string()))],
    };
    let dir = "/src/my-crate-1.0.0";
    assert_eq!(registry_lib_path(dir, &manifest), "/src/my-crate-1.0.0/src/lib.rs");
    let p = registry_package(&manifest, dir, "my-crate", "1.0.0", false, true).unwrap();
    assert_eq!(p.registry_name, "my-crate");
    assert_eq!(p.crate_name, "my_lib");
    assert_eq!(p.edition, "2021");
    assert_eq!(p.root_dir, dir);
    assert_eq!(p.lib_path, "/src/my-crate-1.0.0/src/lib.rs");
    assert!(matches!(p.crate_type, RegistryCrateType::ProcMacro));
    assert_eq!(p.dependencies.len(), 1);
    assert_eq!(p.dependencies[0].registry_name, "serde-json");
    assert_eq!(p.dependencies[0].crate_name, "serde_json");
    assert_eq!(p.dependencies[0].version_req, "1");
    assert_eq!(
        registry_package(&manifest, dir, "my-crate", "1.0.0", true, true).err(),
        Some("dependency `my-crate` uses build.rs, which is not supported by the rustc-only dependency pipeline yet".to_string())
    );
    assert_eq!(
        registry_package(&manifest, dir, "my-crate", "1.0.0", false, false).err(),
        Some("dependency `my-crate` has no library target at /src/my-crate-1.0.0/src/lib.rs".to_string())
    );
    let bare = RegistryManifest {
        has_package: false,
        edition: Some("2018".to_string()),
        lib_path: Some("lib.rs".to_string()),
        lib_name: None,
        proc_macro: None,
        dependencies: vec![],
    };
    assert_eq!(
        registry_package(&bare, dir, "my-crate", "1.0.0", false, true).err(),
        Some("missing [package] in /src/my-crate-1.0.0/Cargo.toml".to_string())
    );
    let with_package = RegistryManifest { has_package: true, ..bare };
    let q = registry_package(&with_package, dir, "my-crate", "1.0.0", false, true).unwrap();
    assert_eq!(q.crate_name, "my_crate");
    assert_eq!(q.edition, "2018");
    assert_eq!(q.lib_path, "/src/my-crate-1.0.0/lib.rs");
    assert!(matches!(q.crate_type, RegistryCrateType::Rlib));
}

#[test]
fn libraries_compile_first() {
    let targets = target_definitions("/p/.zoxi/src", "app", true, true);
    let order = compile_order(&targets);
    assert_eq!(order.len(), 2);
    assert!(matches!(targets[order[0]].kind, TargetKind::Library));
    assert!(matches!(targets[order[1]].kind, TargetKind::Binary));
    let only_binary = target_definitions("/p/.zoxi/src", "app", false, true);
    assert_eq!(compile_order(&only_binary), vec![0]);
}

#[test]
fn dependency_section_text_for_the_toml_reader() {
    assert_eq!(dependency_table_text("  \n\t"), None);
    assert_eq!(dependency_table_text("serde = \"1\""), Some("[dependencies]\nserde = \"1\"\n".to_string()));
}

#[test]
fn dependency_entries_are_read_from_toml() {
    let entries = zoxi::build::manifest_toml::dependency_entries("[dependencies]\nserde = \"1\"\nlocal = { path = \"../x\" }\nweird = 3\n").unwrap();
    let names: Vec<&str> = entries.iter().map(|(k, _)| k.as_str()).collect();
    assert_eq!(names, vec!["local", "serde", "weird"]);
    assert!(matches!(&entries[0].1, DependencyValue::Table { has_path: true, optional: None, .. }));
    assert!(matches!(&entries[1].1, DependencyValue::Version(v) if v == "1"));
    assert!(matches!(&entries[2].1, DependencyValue::Other));
    assert!(zoxi::build::manifest_toml::dependency_entries("[dependencies\n").is_err());
    assert!(zoxi::build::manifest_toml::dependency_entries("").unwrap().is_empty());
}

#[test]
fn registry_manifest_fields_are_read_from_toml() {
    let text = "[package]\nname = \"demo\"\nedition = \"2018\"\n\n[lib]\npath = \"src/demo.rs\"\nproc-macro = false\n\n[dependencies]\nitoa = { version = \"1\", optional = true }\n";
    let m = parse_registry_manifest_text(text).unwrap();
    assert!(m.has_package);
    assert_eq!(m.edition.as_deref(), Some("2018"));
    assert_eq!(m.lib_path.as_deref(), Some("src/demo.rs"));
    assert_eq!(m.lib_name, None);
    assert_eq!(m.proc_macro, Some(false));
    assert_eq!(m.dependencies.len(), 1);
    assert!(matches!(&m.dependencies[0].1, DependencyValue::Table { optional: Some(true), .. }));
    assert!(parse_registry_manifest_text("not = [toml").is_err());
    assert!(!parse_registry_manifest_text("x = 1").unwrap().has_package);
}
