use zoxi::build::dependencies::{DependencySpec, RegistryCrateType, RegistryPackage};
use zoxi::build::resolver::{
    compile_step, resolve_step, start_compile, start_resolution, CompileAction, CompileEvent, ResolveAction,
    ResolveEvent, ResolvedNode,
};

fn spec(name: &str, req: &str) -> DependencySpec {
    DependencySpec { registry_name: name.to_string(), crate_name: name.to_string(), version_req: req.to_string() }
}

fn package(name: &str, version: &str, dependencies: Vec<DependencySpec>) -> RegistryPackage {
    RegistryPackage {
        registry_name: name.to_string(),
        crate_name: name.to_string(),
        version: version.to_string(),
        edition: "2021".to_string(),
        root_dir: format!("/r/{name}"),
        lib_path: "src/lib.rs".to_string(),
        crate_type: RegistryCrateType::Rlib,
        dependencies,
    }
}

fn resolve_a_over_b() -> Vec<(String, ResolvedNode)> {
    let (state, action) = start_resolution(Vec::new(), &spec("a", "1"));
    assert!(matches!(&action, ResolveAction::FetchVersion { registry_name, version_req } if registry_name == "a" && version_req == "1"));
    let (state, action) = resolve_step(state, ResolveEvent::Version("1.0.0".to_string()));
    assert!(matches!(&action, ResolveAction::FetchPackage { registry_name, version } if registry_name == "a" && version == "1.0.0"));
    let (state, action) = resolve_step(state, ResolveEvent::Package(package("a", "1.0.0", vec![spec("b", "2")])));
    assert!(matches!(action, ResolveAction::Proceed));
    let (state, action) = resolve_step(state, ResolveEvent::Proceed);
    assert!(matches!(&action, ResolveAction::FetchVersion { registry_name, .. } if registry_name == "b"));
    let (state, action) = resolve_step(state, ResolveEvent::Version("2.0.0".to_string()));
    assert!(matches!(&action, ResolveAction::FetchPackage { registry_name, .. } if registry_name == "b"));
    let (state, action) = resolve_step(state, ResolveEvent::Package(package("b", "2.0.0", vec![])));
    assert!(matches!(action, ResolveAction::Proceed));
    let (state, action) = resolve_step(state, ResolveEvent::Proceed);
    assert!(matches!(action, ResolveAction::Proceed));
    let (state, action) = resolve_step(state, ResolveEvent::Proceed);
    assert!(matches!(&action, ResolveAction::Resolved(id) if id == "a@1.0.0"));
    state.nodes
}

#[test]
fn resolution_fetches_each_package_once_and_records_its_dependencies() {
    let nodes = resolve_a_over_b();
    let ids: Vec<&str> = nodes.iter().map(|(id, _)| id.as_str()).collect();
    assert_eq!(ids, vec!["b@2.0.0", "a@1.0.0"]);
    assert_eq!(nodes[1].1.dependencies, vec![("b".to_string(), "b@2.0.0".to_string())]);
    let (state, _) = start_resolution(nodes, &spec("b", "2"));
    let (state, action) = resolve_step(state, ResolveEvent::Version("2.0.0".to_string()));
    assert!(matches!(&action, ResolveAction::Resolved(id) if id == "b@2.0.0"));
    assert_eq!(state.nodes.len(), 2);
}

#[test]
fn resolution_refuses_an_event_out_of_step() {
    let (state, _) = start_resolution(Vec::new(), &spec("a", "1"));
    let (_, action) = resolve_step(state, ResolveEvent::Proceed);
    assert!(matches!(action, ResolveAction::Unexpected));
}

#[test]
fn compilation_builds_dependencies_first_and_each_once() {
    let nodes = resolve_a_over_b();
    let (run, action) = start_compile(&nodes, Vec::new(), &"a".to_string(), &"a@1.0.0".to_string());
    assert!(matches!(action, CompileAction::Proceed));
    let (run, action) = compile_step(&nodes, run, CompileEvent::Proceed);
    assert!(matches!(action, CompileAction::Proceed));
    let (run, action) = compile_step(&nodes, run, CompileEvent::Proceed);
    assert!(matches!(&action, CompileAction::Compile { id, artifacts } if id == "b@2.0.0" && artifacts.is_empty()));
    let (run, action) = compile_step(&nodes, run, CompileEvent::Compiled("/out/libb.rlib".to_string()));
    assert!(matches!(action, CompileAction::Proceed));
    let (run, action) = compile_step(&nodes, run, CompileEvent::Proceed);
    match &action {
        CompileAction::Compile { id, artifacts } => {
            assert_eq!(id, "a@1.0.0");
            assert_eq!(
                artifacts,
                &vec![("b".to_string(), "b@2.0.0".to_string(), "/out/libb.rlib".to_string())]
            );
        }
        _ => panic!("expected a compile action"),
    }
    let (run, action) = compile_step(&nodes, run, CompileEvent::Compiled("/out/liba.rlib".to_string()));
    assert!(matches!(&action, CompileAction::Done(path) if path == "/out/liba.rlib"));
    assert_eq!(run.compiled.len(), 2);
    let (_, action) = start_compile(&nodes, run.compiled, &"b".to_string(), &"b@2.0.0".to_string());
    assert!(matches!(&action, CompileAction::Done(path) if path == "/out/libb.rlib"));
}
