//! What the build commands decide between their compiler runs.
use crate::text::{push_str, string_of};
use crate::build::compiler::{CompiledTarget, TargetKind};
use crate::build::types::{EnvVar, RustcOptions, parsed_env};
use crate::project::paths::{ProjectPaths, join, join_path};
use vstd::prelude::*;

verus! {

/// Runs the compiler for a project.
pub struct RustcRunner {
    pub paths: ProjectPaths,
}

impl RustcRunner {
    pub fn new(paths: ProjectPaths) -> (runner: Self)
        ensures
            runner.paths == paths,
    {
        RustcRunner { paths }
    }
}

/// The profile named in the `Finished` line.
pub fn profile_label(release: bool) -> (label: &'static str)
    ensures
        label@ == (if release {
            "release profile [optimized]"@
        } else {
            "dev profile [unoptimized]"@
        }),
{
    if release {
        "release profile [optimized]"
    } else {
        "dev profile [unoptimized]"
    }
}

/// The first binary among the built targets: what `run` starts.
pub fn binary_target(targets: &Vec<CompiledTarget>) -> (index: Option<usize>)
    ensures
        index matches Some(i) ==> i < targets@.len() && targets@[i as int].kind == TargetKind::Binary
            && forall|j: int| 0 <= j < i ==> targets@[j].kind != TargetKind::Binary,
        index is None ==> forall|j: int| 0 <= j < targets@.len() ==> targets@[j].kind
            != TargetKind::Binary,
{
    let mut i: usize = 0;
    while i < targets.len()
        invariant
            i <= targets@.len(),
            forall|j: int| 0 <= j < i ==> targets@[j].kind != TargetKind::Binary,
        decreases targets@.len() - i,
    {
        if targets[i].kind == TargetKind::Binary {
            return Some(i);
        }
        i += 1;
    }
    None
}

/// The error of `run` when no binary was built.
pub fn missing_binary_message(package_name: &str, generated_src_dir: &str) -> (message: String)
    ensures
        message@ == "cannot run `"@ + package_name@ + "`, no binary entrypoint was found at "@
            + join_path(generated_src_dir@, "main.rs"@),
{
    let mut out: Vec<char> = Vec::new();
    push_str(&mut out, "cannot run `");
    push_str(&mut out, package_name);
    push_str(&mut out, "`, no binary entrypoint was found at ");
    push_str(&mut out, join(generated_src_dir, "main.rs").as_str());
    string_of(&out)
}

/// The parsed environment assignments, the first bad one being the error.
pub open spec fn parsed_envs(entries: Seq<Seq<char>>) -> Result<Seq<(Seq<char>, Seq<char>)>, Seq<char>>
    decreases entries.len(),
{
    if entries.len() == 0 {
        Ok(seq![])
    } else {
        match parsed_envs(entries.drop_last()) {
            Err(e) => Err(e),
            Ok(init) => match parsed_env(entries.last()) {
                Err(e) => Err(e),
                Ok(v) => Ok(init.push(v)),
            },
        }
    }
}

proof fn lemma_parsed_envs_prefix(entries: Seq<Seq<char>>, j: int)
    requires
        0 <= j <= entries.len(),
        parsed_envs(entries.take(j)) is Err,
    ensures
        parsed_envs(entries) == parsed_envs(entries.take(j)),
    decreases entries.len(),
{
    if j < entries.len() {
        assert(entries.drop_last().take(j) =~= entries.take(j));
        lemma_parsed_envs_prefix(entries.drop_last(), j);
    } else {
        assert(entries.take(j) =~= entries);
    }
}

/// Parses `KEY=VALUE` assignments, each of which must parse.
pub fn parse_env_assignments(env: &Vec<String>) -> (r: Result<Vec<EnvVar>, String>)
    ensures
        match r {
            Ok(envs) => parsed_envs(env@.map_values(|s: String| s@)) == Ok::<
                Seq<(Seq<char>, Seq<char>)>,
                Seq<char>,
            >(envs@.map_values(|e: EnvVar| (e.key@, e.value@))),
            Err(message) => parsed_envs(env@.map_values(|s: String| s@)) == Err::<
                Seq<(Seq<char>, Seq<char>)>,
                Seq<char>,
            >(message@),
        },
{
    let ghost ev = env@.map_values(|s: String| s@);
    let mut envs: Vec<EnvVar> = Vec::new();
    let mut i: usize = 0;
    assert(ev.take(0) =~= Seq::<Seq<char>>::empty());
    assert(envs@.map_values(|e: EnvVar| (e.key@, e.value@)) =~= Seq::<(Seq<char>, Seq<char>)>::empty());
    while i < env.len()
        invariant
            i <= env@.len(),
            ev == env@.map_values(|s: String| s@),
            parsed_envs(ev.take(i as int)) == Ok::<Seq<(Seq<char>, Seq<char>)>, Seq<char>>(
                envs@.map_values(|e: EnvVar| (e.key@, e.value@)),
            ),
        decreases env@.len() - i,
    {
        assert(ev.take(i + 1).drop_last() =~= ev.take(i as int));
        assert(ev.take(i + 1).last() == env@[i as int]@);
        match EnvVar::parse(env[i].as_str()) {
            Ok(var) => {
                let ghost before = envs@.map_values(|e: EnvVar| (e.key@, e.value@));
                let ghost v = (var.key@, var.value@);
                envs.push(var);
                assert(envs@.map_values(|e: EnvVar| (e.key@, e.value@)) =~= before.push(v));
            },
            Err(e) => {
                proof {
                    lemma_parsed_envs_prefix(ev, i + 1);
                }
                return Err(e);
            },
        }
        i += 1;
    }
    assert(ev.take(i as int) =~= ev);
    Ok(envs)
}

/// Compiler options from the command line: the profile, `KEY=VALUE` assignments (each must
/// parse) and the extra arguments.
pub fn rustc_options_from_parts(release: bool, env: &Vec<String>, rustc_args: Vec<String>) -> (r: Result<RustcOptions, String>)
    ensures
        match r {
            Ok(o) => o.release == release && o.args == rustc_args && parsed_envs(
                env@.map_values(|s: String| s@),
            ) == Ok::<Seq<(Seq<char>, Seq<char>)>, Seq<char>>(
                o.envs@.map_values(|e: EnvVar| (e.key@, e.value@)),
            ),
            Err(message) => parsed_envs(env@.map_values(|s: String| s@)) == Err::<
                Seq<(Seq<char>, Seq<char>)>,
                Seq<char>,
            >(message@),
        },
{
    match parse_env_assignments(env) {
        Ok(envs) => Ok(RustcOptions { release, envs, args: rustc_args }),
        Err(e) => Err(e),
    }
}

} // verus!
