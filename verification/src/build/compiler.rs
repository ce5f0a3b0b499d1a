//! What building the generated crate decides: which targets there are, where their outputs
//! go, when a cached output is still fresh, and the `rustc` command line of each target.
use crate::text::{chars_of, push_str, string_of};
use crate::project::cache::{BuildCacheEntry, BuildCacheState};
use crate::project::fields::{decimal, u64_decimal};
use crate::project::hash::{fnv_hash, stable_hash_bytes, stable_hash_str};
use crate::project::manifest::ProjectManifest;
use crate::project::paths::{ProjectPaths, join, join_path, profile_name, profile_name_spec};
use crate::transpiler::compiler::generator::spec::replace_all;

use crate::build::types::RustcOptions;
use vstd::prelude::*;

verus! {

/// The compiled dependencies of a project: `--extern` names with their artifacts, the
/// directories to search, and a fingerprint of the whole set.
pub struct DependencyArtifacts {
    pub externs: Vec<(String, String)>,
    pub search_dirs: Vec<String>,
    pub fingerprint: u64,
}

/// A built target.
pub struct CompiledTarget {
    pub kind: TargetKind,
    pub crate_name: String,
    pub output_path: String,
}

#[derive(Clone, Copy, Debug, PartialEq, Eq, Structural)]
pub enum BuildMode {
    Build,
    Test,
}

#[derive(Clone, Copy, Debug, PartialEq, Eq, Structural)]
pub enum TargetKind {
    Binary,
    Library,
}

/// A crate root of the generated sources.
pub struct TargetDefinition {
    pub kind: TargetKind,
    pub crate_name: String,
    pub source_path: String,
}

pub open spec fn mode_text(mode: BuildMode) -> Seq<char> {
    match mode {
        BuildMode::Build => "build"@,
        BuildMode::Test => "test"@,
    }
}

pub open spec fn kind_text(kind: TargetKind) -> Seq<char> {
    match kind {
        TargetKind::Binary => "bin"@,
        TargetKind::Library => "lib"@,
    }
}

fn mode_name(mode: BuildMode) -> (name: &'static str)
    ensures
        name@ == mode_text(mode),
{
    match mode {
        BuildMode::Build => "build",
        BuildMode::Test => "test",
    }
}

fn kind_name(kind: TargetKind) -> (name: &'static str)
    ensures
        name@ == kind_text(kind),
{
    match kind {
        TargetKind::Binary => "bin",
        TargetKind::Library => "lib",
    }
}

/// The targets of the generated sources: the library when `lib.rs` exists, then the binary
/// when `main.rs` exists, both named after the crate.
pub fn target_definitions(
    generated_src_dir: &str,
    crate_name: &str,
    lib_exists: bool,
    main_exists: bool,
) -> (targets: Vec<TargetDefinition>)
    ensures
        targets@.len() == (if lib_exists {
            1int
        } else {
            0
        }) + (if main_exists {
            1int
        } else {
            0
        }),
        lib_exists ==> targets@[0].kind == TargetKind::Library && targets@[0].source_path@
            == join_path(generated_src_dir@, "lib.rs"@) && targets@[0].crate_name@ == crate_name@,
        main_exists ==> ({
            let t = targets@[targets@.len() - 1];
            t.kind == TargetKind::Binary && t.source_path@ == join_path(
                generated_src_dir@,
                "main.rs"@,
            ) && t.crate_name@ == crate_name@
        }),
{
    let mut targets: Vec<TargetDefinition> = Vec::new();
    if lib_exists {
        targets.push(
            TargetDefinition {
                kind: TargetKind::Library,
                crate_name: string_of(&chars_of(crate_name)),
                source_path: join(generated_src_dir, "lib.rs"),
            },
        );
    }
    if main_exists {
        targets.push(
            TargetDefinition {
                kind: TargetKind::Binary,
                crate_name: string_of(&chars_of(crate_name)),
                source_path: join(generated_src_dir, "main.rs"),
            },
        );
    }
    targets
}

/// The build cache key of a target: mode, profile, kind and source path.
pub open spec fn target_key_spec(kind: TargetKind, source_path: Seq<char>, release: bool, mode: BuildMode) -> Seq<char> {
    mode_text(mode) + "|"@ + profile_name_spec(release) + "|"@ + kind_text(kind) + "|"@
        + source_path
}

pub fn target_key(target: &TargetDefinition, release: bool, mode: BuildMode) -> (key: String)
    ensures
        key@ == target_key_spec(target.kind, target.source_path@, release, mode),
{
    let mut out: Vec<char> = Vec::new();
    push_str(&mut out, mode_name(mode));
    push_str(&mut out, "|");
    push_str(&mut out, profile_name(release));
    push_str(&mut out, "|");
    push_str(&mut out, kind_name(target.kind));
    push_str(&mut out, "|");
    push_str(&mut out, target.source_path.as_str());
    string_of(&out)
}

/// Where a target's output goes in the artifact directory of its profile.
pub open spec fn output_path_spec(
    artifact_dir: Seq<char>,
    kind: TargetKind,
    crate_name: Seq<char>,
    package_name: Seq<char>,
    mode: BuildMode,
) -> Seq<char> {
    join_path(
        artifact_dir,
        match (mode, kind) {
            (BuildMode::Build, TargetKind::Binary) => package_name,
            (BuildMode::Build, TargetKind::Library) => "lib"@ + crate_name + ".rlib"@,
            (BuildMode::Test, TargetKind::Binary) => package_name + "-bin-tests"@,
            (BuildMode::Test, TargetKind::Library) => "lib"@ + crate_name + "-tests"@,
        },
    )
}

pub fn output_path(
    paths: &ProjectPaths,
    target: &TargetDefinition,
    manifest: &ProjectManifest,
    release: bool,
    mode: BuildMode,
) -> (path: String)
    ensures
        path@ == output_path_spec(
            join_path(
                join_path(join_path(join_path(paths.root@, ".zoxi"@), ".cache"@), "artifacts"@),
                profile_name_spec(release),
            ),
            target.kind,
            target.crate_name@,
            manifest.package_name@,
            mode,
        ),
{
    let artifact_dir = paths.profile_artifact_dir(release);
    let mut name: Vec<char> = Vec::new();
    match (mode, target.kind) {
        (BuildMode::Build, TargetKind::Binary) => {
            push_str(&mut name, manifest.package_name());
        },
        (BuildMode::Build, TargetKind::Library) => {
            push_str(&mut name, "lib");
            push_str(&mut name, target.crate_name.as_str());
            push_str(&mut name, ".rlib");
        },
        (BuildMode::Test, TargetKind::Binary) => {
            push_str(&mut name, manifest.package_name());
            push_str(&mut name, "-bin-tests");
        },
        (BuildMode::Test, TargetKind::Library) => {
            push_str(&mut name, "lib");
            push_str(&mut name, target.crate_name.as_str());
            push_str(&mut name, "-tests");
        },
    }
    join(artifact_dir.as_str(), string_of(&name).as_str())
}

/// The optimisation flags of a profile.
pub fn profile_flags(release: bool) -> (flags: [&'static str; 2])
    ensures
        flags[0]@ == (if release {
            "opt-level=3"@
        } else {
            "opt-level=0"@
        }),
        flags[1]@ == (if release {
            "lto=thin"@
        } else {
            "debuginfo=0"@
        }),
{
    if release {
        ["opt-level=3", "lto=thin"]
    } else {
        ["opt-level=0", "debuginfo=0"]
    }
}

/// The linker to use, given which commands are on the `PATH`: clang with mold, else clang
/// with lld, else the default.
pub fn preferred_linker(clang: bool, mold: bool, lld: bool) -> (linker: Option<(&'static str, &'static str)>)
    ensures
        !clang ==> linker is None,
        clang && mold ==> (linker matches Some((l, a)) && l@ == "clang"@ && a@ == "-fuse-ld=mold"@),
        clang && !mold && lld ==> (linker matches Some((l, a)) && l@ == "clang"@ && a@
            == "-fuse-ld=lld"@),
        clang && !mold && !lld ==> linker is None,
{
    if !clang {
        return None;
    }
    if mold {
        return Some(("clang", "-fuse-ld=mold"));
    }
    if lld {
        return Some(("clang", "-fuse-ld=lld"));
    }
    None
}

/// The text a target's fingerprint is hashed from: the hash of its source, the edition, the
/// package name, the profile, the mode, the dependencies' fingerprint and the extra
/// arguments, separated by `|`.
pub open spec fn target_seed(
    source: Seq<u8>,
    edition: Seq<char>,
    package_name: Seq<char>,
    release: bool,
    mode: BuildMode,
    dependencies: u64,
    args: Seq<Seq<char>>,
) -> Seq<char>
    decreases args.len(),
{
    if args.len() == 0 {
        decimal(fnv_hash(source) as nat) + "|"@ + edition + "|"@ + package_name + "|"@
            + profile_name_spec(release) + "|"@ + mode_text(mode) + "|"@ + decimal(
            dependencies as nat,
        )
    } else {
        target_seed(source, edition, package_name, release, mode, dependencies, args.drop_last())
            + "|"@ + args.last()
    }
}

pub open spec fn strings_view(v: Seq<String>) -> Seq<Seq<char>> {
    v.map_values(|s: String| s@)
}

/// The fingerprint of a target: what its output depends on, hashed.
pub fn target_fingerprint(
    source: &[u8],
    manifest: &ProjectManifest,
    options: &RustcOptions,
    mode: BuildMode,
    dependencies: &DependencyArtifacts,
) -> (fingerprint: u64)
    ensures
        fingerprint == fnv_hash(
            vstd::utf8::encode_utf8(
                target_seed(
                    source@,
                    manifest.edition@,
                    manifest.package_name@,
                    options.release,
                    mode,
                    dependencies.fingerprint,
                    strings_view(options.args@),
                ),
            ),
        ),
{
    let mut seed: Vec<char> = Vec::new();
    push_str(&mut seed, u64_decimal(stable_hash_bytes(source)).as_str());
    push_str(&mut seed, "|");
    push_str(&mut seed, manifest.edition());
    push_str(&mut seed, "|");
    push_str(&mut seed, manifest.package_name());
    push_str(&mut seed, "|");
    push_str(&mut seed, profile_name(options.release));
    push_str(&mut seed, "|");
    push_str(&mut seed, mode_name(mode));
    push_str(&mut seed, "|");
    push_str(&mut seed, u64_decimal(dependencies.fingerprint).as_str());
    let ghost args = strings_view(options.args@);
    let mut i: usize = 0;
    assert(args.take(0) =~= Seq::<Seq<char>>::empty());
    while i < options.args.len()
        invariant
            i <= options.args@.len(),
            args == strings_view(options.args@),
            seed@ == target_seed(
                source@,
                manifest.edition@,
                manifest.package_name@,
                options.release,
                mode,
                dependencies.fingerprint,
                args.take(i as int),
            ),
        decreases options.args@.len() - i,
    {
        assert(args.take(i + 1).drop_last() =~= args.take(i as int));
        assert(args.take(i + 1).last() == options.args@[i as int]@);
        push_str(&mut seed, "|");
        push_str(&mut seed, options.args[i].as_str());
        i += 1;
    }
    assert(args.take(i as int) =~= args);
    let text = string_of(&seed);
    stable_hash_str(text.as_str())
}

/// The directory part of a path, as `Path::parent` gives it for a path that does not end
/// with `/`: everything before the last `/` (`/` itself for a file at the root, nothing
/// for a bare name); none for the empty path and for `/`.
pub open spec fn parent_spec(path: Seq<char>) -> Option<Seq<char>> {
    match last_slash(path, path.len() as int) {
        Some(j) => if j == 0 {
            if path.len() == 1 {
                None
            } else {
                Some("/"@)
            }
        } else {
            Some(path.subrange(0, j))
        },
        None => if path.len() == 0 {
            None
        } else {
            Some(seq![])
        },
    }
}

/// The last `/` before `end`.
pub open spec fn last_slash(path: Seq<char>, end: int) -> Option<int>
    decreases end,
{
    if end <= 0 || end > path.len() {
        None
    } else if path[end - 1] == '/' {
        Some(end - 1)
    } else {
        last_slash(path, end - 1)
    }
}

proof fn lemma_last_slash(path: Seq<char>, end: int)
    ensures
        last_slash(path, end) matches Some(j) ==> 0 <= j < end && j < path.len(),
    decreases end,
{
    if 0 < end <= path.len() && path[end - 1] != '/' {
        lemma_last_slash(path, end - 1);
    }
}

pub fn parent(path: &str) -> (dir: Option<String>)
    ensures
        dir matches Some(d) ==> parent_spec(path@) == Some(d@),
        dir is None ==> parent_spec(path@) is None,
{
    let p = chars_of(path);
    let mut end = p.len();
    proof {
        lemma_last_slash(p@, p@.len() as int);
    }
    while end > 0 && p[end - 1] != '/'
        invariant
            end <= p@.len(),
            last_slash(p@, p@.len() as int) == last_slash(p@, end as int),
        decreases end,
    {
        end -= 1;
    }
    if end == 0 {
        if p.len() == 0 {
            return None;
        }
        return Some(String::new());
    }
    let j = end - 1;
    if j == 0 {
        if p.len() == 1 {
            return None;
        }
        return Some(String::from_str("/"));
    }
    Some(crate::text::string_of_range(&p, 0, j))
}

/// `-L`/`--extern` pairs: each item after its flag.
pub open spec fn flagged(flag: Seq<char>, items: Seq<Seq<char>>) -> Seq<Seq<char>>
    decreases items.len(),
{
    if items.len() == 0 {
        seq![]
    } else {
        flagged(flag, items.drop_last()) + seq![flag, items.last()]
    }
}

/// What building a target comes to: its cache key, output, fingerprint, whether the cached
/// output can be reused, and otherwise the `rustc` arguments.
pub struct TargetPlan {
    pub key: String,
    pub output_path: String,
    pub fingerprint: u64,
    pub fresh: bool,
    pub args: Vec<String>,
}

/// Appends `flag` and `value` to an argument list.
fn push_flagged(args: &mut Vec<String>, flag: &str, value: String)
    ensures
        strings_view(final(args)@) == strings_view(old(args)@) + seq![flag@, value@],
{
    args.push(string_of(&chars_of(flag)));
    args.push(value);
    assert(strings_view(args@) =~= strings_view(old(args)@) + seq![flag@, value@]);
}

fn glued(a: &str, b: &str) -> (s: String)
    ensures
        s@ == a@ + b@,
{
    let mut out: Vec<char> = Vec::new();
    push_str(&mut out, a);
    push_str(&mut out, b);
    string_of(&out)
}

/// The `rustc` arguments of a target (see `target_args`), with `-L`/`--extern` written
/// flag by flag.
/// The `rustc` arguments of a target: source, crate name, edition, incremental directory,
/// codegen units and output; the linker; the profile's flags; the crate type or `--test`;
/// the project's own library; the dependencies' search directories and externs; the user's
/// arguments.
pub open spec fn target_args_spec(
    target: TargetDefinition,
    edition: Seq<char>,
    incremental_dir: Seq<char>,
    output_path: Seq<char>,
    linker: Option<(Seq<char>, Seq<char>)>,
    options: RustcOptions,
    mode: BuildMode,
    local_library: Option<(Seq<char>, Seq<char>)>,
    dependencies: DependencyArtifacts,
) -> Seq<Seq<char>> {
    seq![
            target.source_path@,
            "--crate-name"@,
            target.crate_name@,
            "--edition"@,
            edition,
            "-C"@,
            "incremental="@ + incremental_dir,
            "-C"@,
            "codegen-units=16"@,
            "-o"@,
            output_path,
        ] + match linker {
            Some((l, a)) => seq!["-C"@, "linker="@ + l, "-C"@, "link-arg="@ + a],
            None => seq![],
        } + (if options.release {
            seq!["-C"@, "opt-level=3"@, "-C"@, "lto=thin"@]
        } else {
            seq!["-C"@, "opt-level=0"@, "-C"@, "debuginfo=0"@]
        }) + match mode {
            BuildMode::Build => if target.kind == TargetKind::Library {
                seq!["--crate-type=rlib"@]
            } else {
                seq![]
            },
            BuildMode::Test => seq!["--test"@],
        } + match local_library {
            Some((dir, ext)) => seq!["-L"@, "dependency="@ + dir, "--extern"@, ext],
            None => seq![],
        } + flagged(
            "-L"@,
            strings_view(dependencies.search_dirs@).map_values(|d: Seq<char>| "dependency="@ + d),
        ) + flagged(
            "--extern"@,
            dependencies.externs@.map_values(|e: (String, String)| e.0@ + "="@ + e.1@),
        ) + strings_view(options.args@)
}

/// A pair of texts as the contracts see it.
pub open spec fn pair_view(p: Option<(&str, &str)>) -> Option<(Seq<char>, Seq<char>)> {
    match p {
        Some((a, b)) => Some((a@, b@)),
        None => None,
    }
}

pub fn rustc_target_args(
    target: &TargetDefinition,
    edition: &str,
    incremental_dir: &str,
    output_path: &str,
    linker: Option<(&str, &str)>,
    options: &RustcOptions,
    mode: BuildMode,
    local_library: Option<(&str, &str)>,
    dependencies: &DependencyArtifacts,
) -> (args: Vec<String>)
    ensures
        strings_view(args@) == target_args_spec(
            *target,
            edition@,
            incremental_dir@,
            output_path@,
            pair_view(linker),
            *options,
            mode,
            pair_view(local_library),
            *dependencies,
        ),
{
    let mut args: Vec<String> = Vec::new();
    args.push(string_of(&chars_of(target.source_path.as_str())));
    push_flagged(&mut args, "--crate-name", string_of(&chars_of(target.crate_name.as_str())));
    push_flagged(&mut args, "--edition", string_of(&chars_of(edition)));
    push_flagged(&mut args, "-C", glued("incremental=", incremental_dir));
    push_flagged(&mut args, "-C", string_of(&chars_of("codegen-units=16")));
    push_flagged(&mut args, "-o", string_of(&chars_of(output_path)));
    let ghost part1 = seq![
        target.source_path@,
        "--crate-name"@,
        target.crate_name@,
        "--edition"@,
        edition@,
        "-C"@,
        "incremental="@ + incremental_dir@,
        "-C"@,
        "codegen-units=16"@,
        "-o"@,
        output_path@,
    ];
    assert(strings_view(args@) =~= part1);
    let ghost part2: Seq<Seq<char>> = match linker {
        Some((l, a)) => seq!["-C"@, "linker="@ + l@, "-C"@, "link-arg="@ + a@],
        None => seq![],
    };
    match linker {
        Some((l, a)) => {
            push_flagged(&mut args, "-C", glued("linker=", l));
            push_flagged(&mut args, "-C", glued("link-arg=", a));
        },
        None => {},
    }
    assert(strings_view(args@) =~= part1 + part2);
    let ghost part3: Seq<Seq<char>> = if options.release {
        seq!["-C"@, "opt-level=3"@, "-C"@, "lto=thin"@]
    } else {
        seq!["-C"@, "opt-level=0"@, "-C"@, "debuginfo=0"@]
    };
    let flags = profile_flags(options.release);
    push_flagged(&mut args, "-C", string_of(&chars_of(flags[0])));
    push_flagged(&mut args, "-C", string_of(&chars_of(flags[1])));
    assert(strings_view(args@) =~= part1 + part2 + part3);
    let ghost part4: Seq<Seq<char>> = match mode {
        BuildMode::Build => if target.kind == TargetKind::Library {
            seq!["--crate-type=rlib"@]
        } else {
            seq![]
        },
        BuildMode::Test => seq!["--test"@],
    };
    match mode {
        BuildMode::Build => {
            if target.kind == TargetKind::Library {
                args.push(string_of(&chars_of("--crate-type=rlib")));
            }
        },
        BuildMode::Test => {
            args.push(string_of(&chars_of("--test")));
        },
    }
    assert(strings_view(args@) =~= part1 + part2 + part3 + part4);
    let ghost part5: Seq<Seq<char>> = match local_library {
        Some((dir, ext)) => seq!["-L"@, "dependency="@ + dir@, "--extern"@, ext@],
        None => seq![],
    };
    match local_library {
        Some((dir, ext)) => {
            push_flagged(&mut args, "-L", glued("dependency=", dir));
            push_flagged(&mut args, "--extern", string_of(&chars_of(ext)));
        },
        None => {},
    }
    assert(strings_view(args@) =~= part1 + part2 + part3 + part4 + part5);
    let ghost before_dirs = strings_view(args@);
    let ghost dirs = strings_view(dependencies.search_dirs@).map_values(
        |d: Seq<char>| "dependency="@ + d,
    );
    let mut i: usize = 0;
    assert(dirs.take(0) =~= Seq::<Seq<char>>::empty());
    while i < dependencies.search_dirs.len()
        invariant
            i <= dependencies.search_dirs@.len(),
            dirs == strings_view(dependencies.search_dirs@).map_values(
                |d: Seq<char>| "dependency="@ + d,
            ),
            strings_view(args@) == before_dirs + flagged("-L"@, dirs.take(i as int)),
        decreases dependencies.search_dirs@.len() - i,
    {
        assert(dirs.take(i + 1).drop_last() =~= dirs.take(i as int));
        assert(dirs.take(i + 1).last() == "dependency="@ + dependencies.search_dirs@[i as int]@);
        let ghost prev = strings_view(args@);
        push_flagged(&mut args, "-L", glued("dependency=", dependencies.search_dirs[i].as_str()));
        assert(strings_view(args@) =~= before_dirs + flagged("-L"@, dirs.take(i + 1)));
        i += 1;
    }
    assert(dirs.take(i as int) =~= dirs);
    let ghost before_externs = strings_view(args@);
    let ghost exts = dependencies.externs@.map_values(|e: (String, String)| e.0@ + "="@ + e.1@);
    let mut k: usize = 0;
    assert(exts.take(0) =~= Seq::<Seq<char>>::empty());
    while k < dependencies.externs.len()
        invariant
            k <= dependencies.externs@.len(),
            exts == dependencies.externs@.map_values(|e: (String, String)| e.0@ + "="@ + e.1@),
            strings_view(args@) == before_externs + flagged("--extern"@, exts.take(k as int)),
        decreases dependencies.externs@.len() - k,
    {
        assert(exts.take(k + 1).drop_last() =~= exts.take(k as int));
        let (name, path) = &dependencies.externs[k];
        let mut text: Vec<char> = Vec::new();
        push_str(&mut text, name.as_str());
        push_str(&mut text, "=");
        push_str(&mut text, path.as_str());
        assert(exts.take(k + 1).last() == text@);
        push_flagged(&mut args, "--extern", string_of(&text));
        assert(strings_view(args@) =~= before_externs + flagged("--extern"@, exts.take(k + 1)));
        k += 1;
    }
    assert(exts.take(k as int) =~= exts);
    let ghost before_user = strings_view(args@);
    let mut j: usize = 0;
    let ghost user = strings_view(options.args@);
    assert(user.take(0) =~= Seq::<Seq<char>>::empty());
    while j < options.args.len()
        invariant
            j <= options.args@.len(),
            user == strings_view(options.args@),
            strings_view(args@) == before_user + user.take(j as int),
        decreases options.args@.len() - j,
    {
        let ghost prev = strings_view(args@);
        args.push(string_of(&chars_of(options.args[j].as_str())));
        assert(user[j as int] == options.args@[j as int]@);
        assert(user.take(j + 1) =~= user.take(j as int).push(user[j as int]));
        assert(strings_view(args@) =~= prev.push(user[j as int]));
        assert(strings_view(args@) =~= before_user + user.take(j + 1));
        j += 1;
    }
    assert(user.take(j as int) =~= user);
    assert(strings_view(args@) =~= seq![
        target.source_path@,
        "--crate-name"@,
        target.crate_name@,
        "--edition"@,
        edition@,
        "-C"@,
        "incremental="@ + incremental_dir@,
        "-C"@,
        "codegen-units=16"@,
        "-o"@,
        output_path@,
    ] + match linker {
        Some((l, a)) => seq!["-C"@, "linker="@ + l@, "-C"@, "link-arg="@ + a@],
        None => seq![],
    } + (if options.release {
        seq!["-C"@, "opt-level=3"@, "-C"@, "lto=thin"@]
    } else {
        seq!["-C"@, "opt-level=0"@, "-C"@, "debuginfo=0"@]
    }) + match mode {
        BuildMode::Build => if target.kind == TargetKind::Library {
            seq!["--crate-type=rlib"@]
        } else {
            seq![]
        },
        BuildMode::Test => seq!["--test"@],
    } + match local_library {
        Some((dir, ext)) => seq!["-L"@, "dependency="@ + dir@, "--extern"@, ext@],
        None => seq![],
    } + flagged("-L"@, dirs) + flagged("--extern"@, exts) + user);
    args
}

/// Decides how to build a target: reuse the cached output when the previous build cache
/// has an entry for its key with the same output and fingerprint and the output still
/// exists; otherwise compile it with the returned arguments. `local_library` is the
/// project's own library, already built, for a binary; `linker` is what `preferred_linker`
/// chose.
pub fn compile_target(
    paths: &ProjectPaths,
    target: &TargetDefinition,
    manifest: &ProjectManifest,
    options: &RustcOptions,
    mode: BuildMode,
    local_library_path: Option<&str>,
    dependencies: &DependencyArtifacts,
    previous_state: &BuildCacheState,
    source: &[u8],
    output_exists: bool,
    linker: Option<(&str, &str)>,
) -> (plan: TargetPlan)
    requires
        previous_state.wf(),
    ensures
        plan.key@ == target_key_spec(target.kind, target.source_path@, options.release, mode),
        plan.output_path@ == output_path_spec(
            join_path(
                join_path(join_path(join_path(paths.root@, ".zoxi"@), ".cache"@), "artifacts"@),
                profile_name_spec(options.release),
            ),
            target.kind,
            target.crate_name@,
            manifest.package_name@,
            mode,
        ),
        plan.fingerprint == fnv_hash(
            vstd::utf8::encode_utf8(
                target_seed(
                    source@,
                    manifest.edition@,
                    manifest.package_name@,
                    options.release,
                    mode,
                    dependencies.fingerprint,
                    strings_view(options.args@),
                ),
            ),
        ),
        plan.fresh == (output_exists && previous_state.view().dom().contains(plan.key@)
            && previous_state.view()[plan.key@] == (plan.output_path@, plan.fingerprint)),
        !plan.fresh ==> strings_view(plan.args@) == target_args_spec(
            *target,
            manifest.edition@,
            join_path(
                join_path(join_path(join_path(paths.root@, ".zoxi"@), ".cache"@), "incremental"@),
                profile_name_spec(options.release),
            ),
            plan.output_path@,
            pair_view(linker),
            *options,
            mode,
            match local_library_path {
                Some(path) => Some(
                    (
                        match parent_spec(path@) {
                            Some(d) => d,
                            None => paths.root@,
                        },
                        replace_all(manifest.package_name@, "-"@, "_"@) + "="@ + path@,
                    ),
                ),
                None => None,
            },
            *dependencies,
        ),
{
    let output = output_path(paths, target, manifest, options.release, mode);
    let fingerprint = target_fingerprint(source, manifest, options, mode, dependencies);
    let key = target_key(target, options.release, mode);
    let cached = match previous_state.get(key.as_str()) {
        Some(entry) => entry.matches(output.as_str(), fingerprint),
        None => false,
    };
    if cached && output_exists {
        return TargetPlan { key, output_path: output, fingerprint, fresh: true, args: Vec::new() };
    }
    let incremental = paths.profile_incremental_dir(options.release);
    let crate_name = manifest.crate_name();
    let local: Option<(String, String)> = match local_library_path {
        Some(path) => {
            let dir = match parent(path) {
                Some(d) => d,
                None => string_of(&chars_of(paths.root())),
            };
            let mut ext: Vec<char> = Vec::new();
            push_str(&mut ext, crate_name.as_str());
            push_str(&mut ext, "=");
            push_str(&mut ext, path);
            Some((dir, string_of(&ext)))
        },
        None => None,
    };
    let args = match &local {
        Some((dir, ext)) => rustc_target_args(
            target,
            manifest.edition(),
            incremental.as_str(),
            output.as_str(),
            linker,
            options,
            mode,
            Some((dir.as_str(), ext.as_str())),
            dependencies,
        ),
        None => rustc_target_args(
            target,
            manifest.edition(),
            incremental.as_str(),
            output.as_str(),
            linker,
            options,
            mode,
            None,
            dependencies,
        ),
    };
    assert(strings_view(args@).len() == args@.len());
    TargetPlan { key, output_path: output, fingerprint, fresh: false, args }
}

/// Records a built (or reused) target in the next build cache.
pub fn record_target(next_state: &mut BuildCacheState, plan: &TargetPlan)
    requires
        old(next_state).wf(),
    ensures
        final(next_state).wf(),
        final(next_state).view() == old(next_state).view().insert(
            plan.key@,
            (plan.output_path@, plan.fingerprint),
        ),
{
    let key = string_of(&chars_of(plan.key.as_str()));
    let output = string_of(&chars_of(plan.output_path.as_str()));
    next_state.insert(key, BuildCacheEntry::new(output, plan.fingerprint));
}

/// The first library among the kinds, if any.
pub open spec fn first_library(kinds: Seq<TargetKind>, from: int) -> Option<int>
    decreases kinds.len() - from,
{
    if from < 0 || from >= kinds.len() {
        None
    } else if kinds[from] == TargetKind::Library {
        Some(from)
    } else {
        first_library(kinds, from + 1)
    }
}

/// The positions of the targets that are not libraries, from `from` on, in order.
pub open spec fn non_library_positions(kinds: Seq<TargetKind>, from: int) -> Seq<int>
    decreases kinds.len() - from,
{
    if from < 0 || from >= kinds.len() {
        seq![]
    } else if kinds[from] == TargetKind::Library {
        non_library_positions(kinds, from + 1)
    } else {
        seq![from] + non_library_positions(kinds, from + 1)
    }
}

/// The order in which targets are compiled: the first library (so that the others can link
/// against it), then every target that is not a library, in order.
pub open spec fn compile_order_spec(kinds: Seq<TargetKind>) -> Seq<int> {
    match first_library(kinds, 0) {
        Some(i) => seq![i] + non_library_positions(kinds, 0),
        None => non_library_positions(kinds, 0),
    }
}

proof fn lemma_first_library(kinds: Seq<TargetKind>, from: int)
    requires
        0 <= from,
    ensures
        first_library(kinds, from) matches Some(i) ==> from <= i < kinds.len() && kinds[i]
            == TargetKind::Library && forall|j: int| from <= j < i ==> kinds[j] != TargetKind::Library,
        first_library(kinds, from) is None ==> forall|j: int|
            from <= j < kinds.len() ==> kinds[j] != TargetKind::Library,
    decreases kinds.len() - from,
{
    if from < kinds.len() && kinds[from] != TargetKind::Library {
        lemma_first_library(kinds, from + 1);
    }
}

proof fn lemma_non_library_positions(kinds: Seq<TargetKind>, from: int)
    requires
        0 <= from,
    ensures
        forall|p: int| 0 <= p < non_library_positions(kinds, from).len() ==> from <= #[trigger] non_library_positions(kinds, from)[p] < kinds.len()
            && kinds[non_library_positions(kinds, from)[p]] != TargetKind::Library,
        forall|p: int, q: int| 0 <= p < q < non_library_positions(kinds, from).len() ==> #[trigger] non_library_positions(kinds, from)[p]
            < #[trigger] non_library_positions(kinds, from)[q],
        forall|t: int| from <= t < kinds.len() && kinds[t] != TargetKind::Library ==> exists|p: int|
            0 <= p < non_library_positions(kinds, from).len() && #[trigger] non_library_positions(kinds, from)[p] == t,
    decreases kinds.len() - from,
{
    if from < kinds.len() {
        lemma_non_library_positions(kinds, from + 1);
        let rest = non_library_positions(kinds, from + 1);
        if kinds[from] != TargetKind::Library {
            let all = non_library_positions(kinds, from);
            assert(all == seq![from] + rest);
            assert forall|p: int| 0 <= p < all.len() implies from <= #[trigger] all[p] < kinds.len()
                && kinds[all[p]] != TargetKind::Library by {
                if p > 0 {
                    assert(all[p] == rest[p - 1]);
                }
            }
            assert forall|p: int, q: int| 0 <= p < q < all.len() implies #[trigger] all[p] < #[trigger] all[q] by {
                assert(all[q] == rest[q - 1]);
                if p > 0 {
                    assert(all[p] == rest[p - 1]);
                }
            }
            assert forall|t: int| from <= t < kinds.len() && kinds[t] != TargetKind::Library implies exists|p: int|
                0 <= p < all.len() && #[trigger] all[p] == t by {
                if t == from {
                    assert(all[0] == t);
                } else {
                    let p = choose|p: int| 0 <= p < rest.len() && #[trigger] rest[p] == t;
                    assert(all[p + 1] == t);
                }
            }
        }
    }
}

/// The compile order lists each target at most once and only valid positions; it holds
/// every target that is not a library; where the targets hold a library, the first library
/// comes first (so that the others can link against it) and is the only library compiled.
/// Where the targets hold at most one library, the order is a permutation of all positions.
pub proof fn lemma_compile_order_targets(kinds: Seq<TargetKind>)
    ensures
        ({
            let order = compile_order_spec(kinds);
            &&& forall|p: int| 0 <= p < order.len() ==> 0 <= #[trigger] order[p] < kinds.len()
            &&& forall|p: int, q: int| 0 <= p < q < order.len() ==> #[trigger] order[p] != #[trigger] order[q]
            &&& forall|t: int| 0 <= t < kinds.len() && kinds[t] != TargetKind::Library ==> #[trigger] order.contains(t)
            &&& (exists|t: int| 0 <= t < kinds.len() && kinds[t] == TargetKind::Library) ==> {
                &&& order.len() > 0
                &&& kinds[order[0]] == TargetKind::Library
                &&& forall|j: int| 0 <= j < order[0] ==> kinds[j] != TargetKind::Library
                &&& forall|p: int| 0 < p < order.len() ==> kinds[#[trigger] order[p]] != TargetKind::Library
            }
            &&& (forall|s: int, t: int| 0 <= s < kinds.len() && 0 <= t < kinds.len()
                && kinds[s] == TargetKind::Library && kinds[t] == TargetKind::Library ==> s == t)
                ==> forall|t: int| 0 <= t < kinds.len() ==> #[trigger] order.contains(t)
        }),
{
    lemma_first_library(kinds, 0);
    lemma_non_library_positions(kinds, 0);
    let order = compile_order_spec(kinds);
    let rest = non_library_positions(kinds, 0);
    match first_library(kinds, 0) {
        Some(i) => {
            assert(order == seq![i] + rest);
            assert forall|p: int| 0 < p < order.len() implies order[p] == rest[p - 1] && kinds[#[trigger] order[p]] != TargetKind::Library by {
                assert(order[p] == rest[p - 1]);
            }
            assert forall|p: int| 0 <= p < order.len() implies 0 <= #[trigger] order[p] < kinds.len() by {
                if p > 0 {
                    assert(order[p] == rest[p - 1]);
                }
            }
            assert forall|p: int, q: int| 0 <= p < q < order.len() implies #[trigger] order[p] != #[trigger] order[q] by {
                assert(order[q] == rest[q - 1]);
                if p > 0 {
                    assert(order[p] == rest[p - 1]);
                }
            }
            assert forall|t: int| 0 <= t < kinds.len() && (kinds[t] != TargetKind::Library || t == i) implies #[trigger] order.contains(t) by {
                if t == i {
                    assert(order[0] == t);
                } else {
                    let p = choose|p: int| 0 <= p < rest.len() && #[trigger] rest[p] == t;
                    assert(order[p + 1] == t);
                }
            }
        },
        None => {
            assert(order == rest);
            assert forall|t: int| 0 <= t < kinds.len() && kinds[t] != TargetKind::Library implies #[trigger] order.contains(t) by {
                let p = choose|p: int| 0 <= p < rest.len() && #[trigger] rest[p] == t;
                assert(order[p] == t);
            }
        },
    }
}

/// The positions of the targets in the order in which they are compiled: see
/// `compile_order_spec`.
pub fn compile_order(definitions: &Vec<TargetDefinition>) -> (order: Vec<usize>)
    ensures
        order@.map_values(|i: usize| i as int) == compile_order_spec(
            definitions@.map_values(|d: TargetDefinition| d.kind),
        ),
{
    let ghost kinds = definitions@.map_values(|d: TargetDefinition| d.kind);
    let mut library: Option<usize> = None;
    let mut i: usize = 0;
    while i < definitions.len()
        invariant
            i <= definitions@.len(),
            kinds == definitions@.map_values(|d: TargetDefinition| d.kind),
            library is None ==> first_library(kinds, 0) == first_library(kinds, i as int),
            library matches Some(j) ==> first_library(kinds, 0) == Some(j as int),
        decreases definitions@.len() - i,
    {
        if library.is_none() && definitions[i].kind == TargetKind::Library {
            library = Some(i);
        }
        i += 1;
    }
    let mut rest: Vec<usize> = Vec::new();
    let mut j: usize = definitions.len();
    assert(rest@.map_values(|x: usize| x as int) =~= non_library_positions(kinds, j as int));
    while j > 0
        invariant
            j <= definitions@.len(),
            kinds == definitions@.map_values(|d: TargetDefinition| d.kind),
            rest@.map_values(|x: usize| x as int) == non_library_positions(kinds, j as int),
        decreases j,
    {
        j -= 1;
        if definitions[j].kind != TargetKind::Library {
            let ghost before = rest@.map_values(|x: usize| x as int);
            rest.insert(0, j);
            assert(rest@.map_values(|x: usize| x as int) =~= seq![j as int] + before);
        }
    }
    let mut order: Vec<usize> = Vec::new();
    match library {
        Some(l) => {
            order.push(l);
        },
        None => {},
    }
    let ghost head = order@.map_values(|x: usize| x as int);
    let mut k: usize = 0;
    while k < rest.len()
        invariant
            k <= rest@.len(),
            order@.map_values(|x: usize| x as int) == head + rest@.map_values(|x: usize| x as int).take(k as int),
        decreases rest@.len() - k,
    {
        let ghost before = order@.map_values(|x: usize| x as int);
        order.push(rest[k]);
        assert(order@.map_values(|x: usize| x as int) =~= before.push(rest@[k as int] as int));
        assert(rest@.map_values(|x: usize| x as int).take(k + 1) =~= rest@.map_values(|x: usize| x as int).take(k as int).push(rest@[k as int] as int));
        assert(order@.map_values(|x: usize| x as int) =~= head + rest@.map_values(|x: usize| x as int).take(k + 1));
        k += 1;
    }
    assert(rest@.map_values(|x: usize| x as int).take(k as int) =~= rest@.map_values(|x: usize| x as int));
    assert(head =~= match library {
        Some(l) => seq![l as int],
        None => Seq::<int>::empty(),
    });
    proof {
        match library {
            Some(_) => {},
            None => {
                assert(first_library(kinds, definitions@.len() as int) is None);
                assert(head + non_library_positions(kinds, 0) =~= non_library_positions(kinds, 0));
            },
        }
    }
    order
}

} // verus!
