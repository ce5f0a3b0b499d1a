//! Registry dependencies: what `zoxi add` writes, what a dependency table asks for, and how
//! each downloaded package is compiled and fingerprinted.
use crate::text::{chars_of, push_all, push_str, string_of};
use crate::build::compiler::{DependencyArtifacts, flagged, parent, parent_spec, strings_view};
use crate::project::fields::{decimal, find_char, parse_u64, parse_u64_spec, u64_decimal};
use crate::project::hash::{fnv_hash, stable_hash_bytes, stable_hash_str};
use crate::project::manifest::{
    added, add_dependencies, removed, remove_dependencies, split_once_spec, strings_seq, trim_chars,
    trim_spec,
};
use crate::project::paths::{ProjectPaths, join, join_path, profile_name, profile_name_spec};
use crate::project::table::{key_lt, path_lt, table_insert, table_view, table_wf, table_get};
use crate::transpiler::compiler::generator::spec::replace_all;
use crate::transpiler::compiler::generator::text::replace_chars;
use vstd::prelude::*;

verus! {

/// Adds packages (already resolved to `name = "version"` lines) to the text of a manifest.
pub fn add_packages(content: &str, resolved: &Vec<String>) -> (r: Result<String, String>)
    ensures
        resolved@.len() == 0 ==> (r matches Err(m) && m@ == "add requires at least one package"@),
        resolved@.len() > 0 ==> match r {
            Ok(text) => added(content@, strings_seq(resolved@)) == Ok::<Seq<char>, Seq<char>>(
                text@,
            ),
            Err(message) => added(content@, strings_seq(resolved@)) == Err::<
                Seq<char>,
                Seq<char>,
            >(message@),
        },
{
    if resolved.len() == 0 {
        return Err(String::from_str("add requires at least one package"));
    }
    add_dependencies(content, resolved)
}

/// Removes packages from the text of a manifest.
pub fn remove_packages(content: &str, packages: &Vec<String>) -> (r: Result<String, String>)
    ensures
        packages@.len() == 0 ==> (r matches Err(m) && m@ == "remove requires at least one package"@),
        packages@.len() > 0 ==> match r {
            Ok(text) => removed(content@, strings_seq(packages@)) == Ok::<Seq<char>, Seq<char>>(
                text@,
            ),
            Err(message) => removed(content@, strings_seq(packages@)) == Err::<
                Seq<char>,
                Seq<char>,
            >(message@),
        },
{
    if packages.len() == 0 {
        return Err(String::from_str("remove requires at least one package"));
    }
    remove_dependencies(content, packages)
}

/// What `zoxi add` makes of an argument before any network access: a finished manifest
/// line, or the name of a crate whose latest version must be looked up.
pub enum PackageSpecLine {
    Line(String),
    NeedsLatest(String),
}

pub open spec fn contains_char(s: Seq<char>, c: char) -> bool {
    exists|i: int| 0 <= i < s.len() && s[i] == c
}

/// `name = "version"`.
pub open spec fn spec_line(name: Seq<char>, version: Seq<char>) -> Seq<char> {
    name + " = \""@ + version + "\""@
}

pub open spec fn missing_version(input: Seq<char>) -> Seq<char> {
    "missing version in dependency specification `"@ + input + "`"@
}

/// What `resolve_package_spec` decides: `name@version` and `name=version` become lines
/// (the version must not be empty), a bare name needs its latest version.
pub open spec fn package_spec_line(input: Seq<char>) -> Result<(bool, Seq<char>), Seq<char>> {
    let t = trim_spec(input, false);
    if t.len() == 0 {
        Err("dependency specification cannot be empty"@)
    } else if contains_char(t, '@') {
        let (name, version) = split_once_spec(t, '@')->Some_0;
        let v = trim_spec(version, false);
        if v.len() == 0 {
            Err(missing_version(t))
        } else {
            Ok((true, spec_line(trim_spec(name, false), v)))
        }
    } else if contains_char(t, '=') {
        let (name, version) = split_once_spec(t, '=')->Some_0;
        let v = trim_spec(trim_spec(version, false), true);
        if v.len() == 0 {
            Err(missing_version(t))
        } else {
            Ok((true, spec_line(trim_spec(name, false), v)))
        }
    } else {
        Ok((false, t))
    }
}

fn line_of(name: &[char], version: &[char]) -> (line: String)
    ensures
        line@ == spec_line(name@, version@),
{
    let mut out: Vec<char> = Vec::new();
    push_all(&mut out, name);
    push_str(&mut out, " = \"");
    push_all(&mut out, version);
    push_str(&mut out, "\"");
    string_of(&out)
}

fn missing_version_error(input: &[char]) -> (message: String)
    ensures
        message@ == missing_version(input@),
{
    let mut out: Vec<char> = Vec::new();
    push_str(&mut out, "missing version in dependency specification `");
    push_all(&mut out, input);
    push_str(&mut out, "`");
    string_of(&out)
}

/// Turns an `add` argument into a manifest line, or asks for the latest version.
pub fn resolve_package_spec(input: &str) -> (r: Result<PackageSpecLine, String>)
    ensures
        match r {
            Ok(PackageSpecLine::Line(line)) => package_spec_line(input@) == Ok::<
                (bool, Seq<char>),
                Seq<char>,
            >((true, line@)),
            Ok(PackageSpecLine::NeedsLatest(name)) => package_spec_line(input@) == Ok::<
                (bool, Seq<char>),
                Seq<char>,
            >((false, name@)),
            Err(message) => package_spec_line(input@) == Err::<(bool, Seq<char>), Seq<char>>(
                message@,
            ),
        },
{
    let s = chars_of(input);
    let t = trim_chars(&s, false);
    if t.len() == 0 {
        return Err(String::from_str("dependency specification cannot be empty"));
    }
    match crate::project::manifest::split_once(&t, '@') {
        Some((name, version)) => {
            proof {
                crate::project::fields::lemma_find_char_bounds(t@, '@', 0);
                let j = find_char(t@, '@', 0)->Some_0;
                assert(t@[j] == '@');
                assert(contains_char(t@, '@'));
            }
            let v = trim_chars(&version, false);
            if v.len() == 0 {
                return Err(missing_version_error(&t));
            }
            let n = trim_chars(&name, false);
            Ok(PackageSpecLine::Line(line_of(&n, &v)))
        },
        None => {
            assert(!contains_char(t@, '@')) by {
                crate::project::fields::lemma_find_char_bounds(t@, '@', 0);
            }
            match crate::project::manifest::split_once(&t, '=') {
                Some((name, version)) => {
                    proof {
                        crate::project::fields::lemma_find_char_bounds(t@, '=', 0);
                        let j = find_char(t@, '=', 0)->Some_0;
                        assert(t@[j] == '=');
                        assert(contains_char(t@, '='));
                    }
                    let v1 = trim_chars(&version, false);
                    let v = trim_chars(&v1, true);
                    if v.len() == 0 {
                        return Err(missing_version_error(&t));
                    }
                    let n = trim_chars(&name, false);
                    Ok(PackageSpecLine::Line(line_of(&n, &v)))
                },
                None => {
                    assert(!contains_char(t@, '=')) by {
                        crate::project::fields::lemma_find_char_bounds(t@, '=', 0);
                    }
                    Ok(PackageSpecLine::NeedsLatest(string_of(&t)))
                },
            }
        },
    }
}

/// The manifest line of a crate at its latest version.
pub fn latest_line(name: &str, latest: &str) -> (line: String)
    ensures
        line@ == spec_line(name@, latest@),
{
    line_of(&chars_of(name), &chars_of(latest))
}

// ---------------------------------------------------------------------------------------
// Dependency tables.
/// The message `semver` gives for a version requirement it rejects, `None` when it accepts
/// the requirement.
pub uninterp spec fn semver_req_error(req: Seq<char>) -> Option<Seq<char>>;

/// Calls `semver::VersionReq::parse` and keeps only the error text. The contract claims no
/// more than that the outcome is a function of the text.
#[verifier::external_body]
fn version_req_error(req: &str) -> (error: Option<String>)
    ensures
        error is Some <==> semver_req_error(req@) is Some,
        error matches Some(e) ==> semver_req_error(req@) == Some(e@),
{
    match semver::VersionReq::parse(req) {
        Ok(_) => None,
        Err(e) => Some(e.to_string()),
    }
}

/// A dependency the resolver has to fetch: its registry name, the name the code uses for it
/// and its version requirement.
#[derive(Clone, Debug)]
pub struct DependencySpec {
    pub registry_name: String,
    pub crate_name: String,
    pub version_req: String,
}

/// What a dependency table entry holds that the resolver reads: a version string; a table
/// with its `optional` flag (where it is a boolean), whether it has a `path`, `git` or
/// `workspace` key, and its `package` and `version` strings (where they are strings); or
/// anything else.
pub enum DependencyValue {
    Version(String),
    Table {
        optional: Option<bool>,
        has_path: bool,
        has_git: bool,
        has_workspace: bool,
        package: Option<String>,
        version: Option<String>,
    },
    Other,
}

pub open spec fn dash_to_underscore(name: Seq<char>) -> Seq<char> {
    replace_all(name, "-"@, "_"@)
}

/// The dependency an entry asks for: `None` for an optional one or anything but a string
/// or table; an error for a path, git or workspace source and for a bad requirement.
pub open spec fn manifest_dependency(name: Seq<char>, value: DependencyValue) -> Result<
    Option<(Seq<char>, Seq<char>, Seq<char>)>,
    Seq<char>,
> {
    match value {
        DependencyValue::Version(version) => match semver_req_error(version@) {
            Some(e) => Err(e),
            None => Ok(Some((name, dash_to_underscore(name), version@))),
        },
        DependencyValue::Table { optional, has_path, has_git, has_workspace, package, version } => if optional == Some(true) {
            Ok(None)
        } else if has_path || has_git || has_workspace {
            Err("non-registry dependencies are not supported in rustc-only mode"@)
        } else {
            let registry = match package {
                Some(p) => p@,
                None => name,
            };
            let req = match version {
                Some(v) => v@,
                None => "*"@,
            };
            match semver_req_error(req) {
                Some(e) => Err(e),
                None => Ok(Some((registry, dash_to_underscore(name), req))),
            }
        },
        DependencyValue::Other => Ok(None),
    }
}

pub open spec fn spec_view(d: DependencySpec) -> (Seq<char>, Seq<char>, Seq<char>) {
    (d.registry_name@, d.crate_name@, d.version_req@)
}

fn crate_name_of(name: &str) -> (r: String)
    ensures
        r@ == dash_to_underscore(name@),
{
    let s = chars_of(name);
    let from = chars_of("-");
    let to = chars_of("_");
    proof {
        reveal_strlit("-");
    }
    string_of(&replace_chars(&s, &from, &to))
}

/// Reads one entry of a dependency table.
pub fn parse_manifest_dependency(name: &str, value: &DependencyValue) -> (r: Result<Option<DependencySpec>, String>)
    ensures
        match r {
            Ok(Some(d)) => manifest_dependency(name@, *value) == Ok::<
                Option<(Seq<char>, Seq<char>, Seq<char>)>,
                Seq<char>,
            >(Some(spec_view(d))),
            Ok(None) => manifest_dependency(name@, *value) == Ok::<
                Option<(Seq<char>, Seq<char>, Seq<char>)>,
                Seq<char>,
            >(None),
            Err(message) => manifest_dependency(name@, *value) == Err::<
                Option<(Seq<char>, Seq<char>, Seq<char>)>,
                Seq<char>,
            >(message@),
        },
{
    match value {
        DependencyValue::Version(version) => match version_req_error(version.as_str()) {
            Some(e) => Err(e),
            None => Ok(
                Some(
                    DependencySpec {
                        registry_name: string_of(&chars_of(name)),
                        crate_name: crate_name_of(name),
                        version_req: string_of(&chars_of(version.as_str())),
                    },
                ),
            ),
        },
        DependencyValue::Table { optional, has_path, has_git, has_workspace, package, version } => {
            if let Some(true) = optional {
                return Ok(None);
            }
            if *has_path || *has_git || *has_workspace {
                return Err(
                    String::from_str("non-registry dependencies are not supported in rustc-only mode"),
                );
            }
            let registry = match package {
                Some(p) => string_of(&chars_of(p.as_str())),
                None => string_of(&chars_of(name)),
            };
            let req = match version {
                Some(v) => string_of(&chars_of(v.as_str())),
                None => String::from_str("*"),
            };
            match version_req_error(req.as_str()) {
                Some(e) => Err(e),
                None => Ok(
                    Some(
                        DependencySpec {
                            registry_name: registry,
                            crate_name: crate_name_of(name),
                            version_req: req,
                        },
                    ),
                ),
            }
        },
        DependencyValue::Other => Ok(None),
    }
}

/// The dependencies of a table, in its order; the first bad entry is the error.
pub open spec fn manifest_dependencies(entries: Seq<(Seq<char>, DependencyValue)>) -> Result<
    Seq<(Seq<char>, Seq<char>, Seq<char>)>,
    Seq<char>,
>
    decreases entries.len(),
{
    if entries.len() == 0 {
        Ok(seq![])
    } else {
        match manifest_dependencies(entries.drop_last()) {
            Err(e) => Err(e),
            Ok(init) => match manifest_dependency(entries.last().0, entries.last().1) {
                Err(e) => Err(e),
                Ok(Some(d)) => Ok(init.push(d)),
                Ok(None) => Ok(init),
            },
        }
    }
}

proof fn lemma_manifest_dependencies_prefix(entries: Seq<(Seq<char>, DependencyValue)>, j: int)
    requires
        0 <= j <= entries.len(),
        manifest_dependencies(entries.take(j)) is Err,
    ensures
        manifest_dependencies(entries) == manifest_dependencies(entries.take(j)),
    decreases entries.len(),
{
    if j < entries.len() {
        assert(entries.drop_last().take(j) =~= entries.take(j));
        lemma_manifest_dependencies_prefix(entries.drop_last(), j);
    } else {
        assert(entries.take(j) =~= entries);
    }
}

pub open spec fn entries_view(v: Seq<(String, DependencyValue)>) -> Seq<(Seq<char>, DependencyValue)> {
    v.map_values(|e: (String, DependencyValue)| (e.0@, e.1))
}

/// Reads the entries of a dependency table.
pub fn collect_manifest_dependencies(entries: &Vec<(String, DependencyValue)>) -> (r: Result<Vec<DependencySpec>, String>)
    ensures
        match r {
            Ok(v) => manifest_dependencies(entries_view(entries@)) == Ok::<
                Seq<(Seq<char>, Seq<char>, Seq<char>)>,
                Seq<char>,
            >(v@.map_values(|d: DependencySpec| spec_view(d))),
            Err(message) => manifest_dependencies(entries_view(entries@)) == Err::<
                Seq<(Seq<char>, Seq<char>, Seq<char>)>,
                Seq<char>,
            >(message@),
        },
{
    let ghost ev = entries_view(entries@);
    let mut out: Vec<DependencySpec> = Vec::new();
    let mut i: usize = 0;
    assert(ev.take(0) =~= Seq::<(Seq<char>, DependencyValue)>::empty());
    assert(out@.map_values(|d: DependencySpec| spec_view(d)) =~= Seq::<
        (Seq<char>, Seq<char>, Seq<char>),
    >::empty());
    while i < entries.len()
        invariant
            i <= entries@.len(),
            ev == entries_view(entries@),
            manifest_dependencies(ev.take(i as int)) == Ok::<
                Seq<(Seq<char>, Seq<char>, Seq<char>)>,
                Seq<char>,
            >(out@.map_values(|d: DependencySpec| spec_view(d))),
        decreases entries@.len() - i,
    {
        assert(ev.take(i + 1).drop_last() =~= ev.take(i as int));
        assert(ev.take(i + 1).last() == (entries@[i as int].0@, entries@[i as int].1));
        let (name, value) = &entries[i];
        match parse_manifest_dependency(name.as_str(), value) {
            Ok(Some(d)) => {
                let ghost before = out@.map_values(|d: DependencySpec| spec_view(d));
                out.push(d);
                assert(out@.map_values(|d: DependencySpec| spec_view(d)) =~= before.push(
                    spec_view(d),
                ));
            },
            Ok(None) => {},
            Err(e) => {
                proof {
                    lemma_manifest_dependencies_prefix(ev, i + 1);
                }
                return Err(e);
            },
        }
        i += 1;
    }
    assert(ev.take(i as int) =~= ev);
    Ok(out)
}

// ---------------------------------------------------------------------------------------
// Compiling one registry package.
#[derive(Clone, Copy, Debug, PartialEq, Eq, Structural)]
pub enum RegistryCrateType {
    Rlib,
    ProcMacro,
}

/// A downloaded package: its names, version, edition, where its sources are, the kind of
/// library it builds and what it depends on.
pub struct RegistryPackage {
    pub registry_name: String,
    pub crate_name: String,
    pub version: String,
    pub edition: String,
    pub root_dir: String,
    pub lib_path: String,
    pub crate_type: RegistryCrateType,
    pub dependencies: Vec<DependencySpec>,
}

/// The text that the `toml` reader is given for a project's dependency section: nothing
/// when the section holds only whitespace (there is no dependency to read), else the
/// section under a `[dependencies]` header, ended by a line break.
pub fn dependency_table_text(section: &str) -> (r: Option<String>)
    ensures
        r is None <==> trim_spec(section@, false).len() == 0,
        r matches Some(t) ==> t@ == "[dependencies]\n"@ + section@ + "\n"@,
{
    let s = chars_of(section);
    let trimmed = trim_chars(&s, false);
    if trimmed.len() == 0 {
        return None;
    }
    let mut out: Vec<char> = Vec::new();
    push_str(&mut out, "[dependencies]\n");
    push_all(&mut out, &s);
    push_str(&mut out, "\n");
    Some(string_of(&out))
}

/// What the logic reads of a downloaded package's `Cargo.toml`: whether it has a
/// `[package]` table, its `package.edition`, its `lib.path`, `lib.name` and `lib.proc-macro`
/// where they are given with the right type, and its `[dependencies]` entries.
pub struct RegistryManifest {
    pub has_package: bool,
    pub edition: Option<String>,
    pub lib_path: Option<String>,
    pub lib_name: Option<String>,
    pub proc_macro: Option<bool>,
    pub dependencies: Vec<(String, DependencyValue)>,
}

/// The text of an optional string, or a default.
pub open spec fn or_default(value: Option<String>, default: Seq<char>) -> Seq<char> {
    match value {
        Some(v) => v@,
        None => default,
    }
}

/// Where the library root of a package is: its `lib.path` (or `src/lib.rs`) under its
/// source directory.
pub open spec fn registry_lib_path_spec(source_dir: Seq<char>, manifest: RegistryManifest) -> Seq<char> {
    join_path(source_dir, or_default(manifest.lib_path, "src/lib.rs"@))
}

fn text_or(value: &Option<String>, default: &str) -> (r: String)
    ensures
        r@ == or_default(*value, default@),
{
    match value {
        Some(v) => owned(v.as_str()),
        None => owned(default),
    }
}

/// Where the library root of a package is: see `registry_lib_path_spec`.
pub fn registry_lib_path(source_dir: &str, manifest: &RegistryManifest) -> (path: String)
    ensures
        path@ == registry_lib_path_spec(source_dir@, *manifest),
{
    let rel = text_or(&manifest.lib_path, "src/lib.rs");
    join(source_dir, rel.as_str())
}

/// The package that a downloaded crate's manifest describes. It is refused when the crate
/// has a build script, when the manifest has no `[package]`, when the library root does not
/// exist (`lib_exists` tells whether `registry_lib_path` names a file) and when a dependency
/// entry is refused. The edition defaults to 2021, the library's crate name is its
/// `lib.name` (or the package name) with dashes made underscores, and the library is a
/// proc-macro when `lib.proc-macro` is `true`.
pub fn registry_package(
    manifest: &RegistryManifest,
    source_dir: &str,
    crate_name: &str,
    version: &str,
    has_build_script: bool,
    lib_exists: bool,
) -> (r: Result<RegistryPackage, String>)
    ensures
        has_build_script ==> (r matches Err(m) && m@ == "dependency `"@ + crate_name@
            + "` uses build.rs, which is not supported by the rustc-only dependency pipeline yet"@),
        !has_build_script && !manifest.has_package ==> (r matches Err(m) && m@
            == "missing [package] in "@ + join_path(source_dir@, "Cargo.toml"@)),
        !has_build_script && manifest.has_package && !lib_exists ==> (r matches Err(m) && m@
            == "dependency `"@ + crate_name@ + "` has no library target at "@
            + registry_lib_path_spec(source_dir@, *manifest)),
        !has_build_script && manifest.has_package && lib_exists ==> match r {
            Ok(p) => manifest_dependencies(entries_view(manifest.dependencies@)) == Ok::<
                Seq<(Seq<char>, Seq<char>, Seq<char>)>,
                Seq<char>,
            >(p.dependencies@.map_values(|d: DependencySpec| spec_view(d))) && p.registry_name@
                == crate_name@ && p.crate_name@ == dash_to_underscore(
                or_default(manifest.lib_name, crate_name@),
            ) && p.version@ == version@ && p.edition@ == or_default(manifest.edition, "2021"@)
                && p.root_dir@ == source_dir@ && p.lib_path@ == registry_lib_path_spec(
                source_dir@,
                *manifest,
            ) && p.crate_type == (if manifest.proc_macro == Some(true) {
                RegistryCrateType::ProcMacro
            } else {
                RegistryCrateType::Rlib
            }),
            Err(m) => manifest_dependencies(entries_view(manifest.dependencies@)) == Err::<
                Seq<(Seq<char>, Seq<char>, Seq<char>)>,
                Seq<char>,
            >(m@),
        },
{
    if has_build_script {
        let mut m: Vec<char> = Vec::new();
        push_str(&mut m, "dependency `");
        push_str(&mut m, crate_name);
        push_str(&mut m, "` uses build.rs, which is not supported by the rustc-only dependency pipeline yet");
        return Err(string_of(&m));
    }
    if !manifest.has_package {
        let mut m: Vec<char> = Vec::new();
        push_str(&mut m, "missing [package] in ");
        push_str(&mut m, join(source_dir, "Cargo.toml").as_str());
        return Err(string_of(&m));
    }
    let lib_path = registry_lib_path(source_dir, manifest);
    if !lib_exists {
        let mut m: Vec<char> = Vec::new();
        push_str(&mut m, "dependency `");
        push_str(&mut m, crate_name);
        push_str(&mut m, "` has no library target at ");
        push_str(&mut m, lib_path.as_str());
        return Err(string_of(&m));
    }
    let name = text_or(&manifest.lib_name, crate_name);
    let dependencies = match collect_manifest_dependencies(&manifest.dependencies) {
        Ok(d) => d,
        Err(e) => {
            return Err(e);
        },
    };
    let crate_type = match manifest.proc_macro {
        Some(true) => RegistryCrateType::ProcMacro,
        _ => RegistryCrateType::Rlib,
    };
    Ok(
        RegistryPackage {
            registry_name: owned(crate_name),
            crate_name: crate_name_of(name.as_str()),
            version: owned(version),
            edition: text_or(&manifest.edition, "2021"),
            root_dir: owned(source_dir),
            lib_path,
            crate_type,
            dependencies,
        },
    )
}

/// `name@version`.
pub fn package_id(crate_name: &str, version: &str) -> (id: String)
    ensures
        id@ == crate_name@ + "@"@ + version@,
{
    let mut out: Vec<char> = Vec::new();
    push_str(&mut out, crate_name);
    push_str(&mut out, "@");
    push_str(&mut out, version);
    string_of(&out)
}

/// The text a package's fingerprint is hashed from: the hash of its library source, its
/// version, the profile, the edition, then each compiled dependency's extern name, id and
/// artifact.
pub open spec fn package_seed(
    source: Seq<u8>,
    version: Seq<char>,
    release: bool,
    edition: Seq<char>,
    deps: Seq<(Seq<char>, Seq<char>, Seq<char>)>,
) -> Seq<char>
    decreases deps.len(),
{
    if deps.len() == 0 {
        decimal(fnv_hash(source) as nat) + "|"@ + version + "|"@ + profile_name_spec(release) + "|"@
            + edition
    } else {
        package_seed(source, version, release, edition, deps.drop_last()) + "|"@ + deps.last().0
            + "|"@ + deps.last().1 + "|"@ + deps.last().2
    }
}

pub open spec fn compiled_view(v: Seq<(String, String, String)>) -> Seq<(Seq<char>, Seq<char>, Seq<char>)> {
    v.map_values(|d: (String, String, String)| (d.0@, d.1@, d.2@))
}

pub fn package_fingerprint(
    source: &[u8],
    package: &RegistryPackage,
    release: bool,
    compiled_dependencies: &Vec<(String, String, String)>,
) -> (fingerprint: u64)
    ensures
        fingerprint == fnv_hash(
            vstd::utf8::encode_utf8(
                package_seed(
                    source@,
                    package.version@,
                    release,
                    package.edition@,
                    compiled_view(compiled_dependencies@),
                ),
            ),
        ),
{
    let mut seed: Vec<char> = Vec::new();
    push_str(&mut seed, u64_decimal(stable_hash_bytes(source)).as_str());
    push_str(&mut seed, "|");
    push_str(&mut seed, package.version.as_str());
    push_str(&mut seed, "|");
    push_str(&mut seed, profile_name(release));
    push_str(&mut seed, "|");
    push_str(&mut seed, package.edition.as_str());
    let ghost deps = compiled_view(compiled_dependencies@);
    let mut i: usize = 0;
    assert(deps.take(0) =~= Seq::<(Seq<char>, Seq<char>, Seq<char>)>::empty());
    while i < compiled_dependencies.len()
        invariant
            i <= compiled_dependencies@.len(),
            deps == compiled_view(compiled_dependencies@),
            seed@ == package_seed(
                source@,
                package.version@,
                release,
                package.edition@,
                deps.take(i as int),
            ),
        decreases compiled_dependencies@.len() - i,
    {
        assert(deps.take(i + 1).drop_last() =~= deps.take(i as int));
        let (name, id, path) = &compiled_dependencies[i];
        assert(deps.take(i + 1).last() == (name@, id@, path@));
        push_str(&mut seed, "|");
        push_str(&mut seed, name.as_str());
        push_str(&mut seed, "|");
        push_str(&mut seed, id.as_str());
        push_str(&mut seed, "|");
        push_str(&mut seed, path.as_str());
        i += 1;
    }
    assert(deps.take(i as int) =~= deps);
    let text = string_of(&seed);
    stable_hash_str(text.as_str())
}

/// A stored fingerprint: the trimmed text of its file read as a number.
pub fn parse_stored_fingerprint(content: &str) -> (value: Option<u64>)
    ensures
        value == parse_u64_spec(trim_spec(content@, false)),
{
    let c = chars_of(content);
    let t = trim_chars(&c, false);
    parse_u64(string_of(&t).as_str())
}

/// The distinct directories of the compiled dependencies' artifacts, in order.
pub open spec fn artifact_dirs(deps: Seq<Seq<char>>) -> Set<Seq<char>> {
    Set::new(|d: Seq<char>| exists|i: int| 0 <= i < deps.len() && parent_spec(#[trigger] deps[i]) == Some(d))
}

/// Collects the parent directories of artifacts, sorted as paths, each once.
pub fn search_directories(artifacts: &Vec<String>) -> (dirs: Vec<String>)
    ensures
        dirs@.map_values(|d: String| d@).to_set() == artifact_dirs(strings_view(artifacts@)),
        forall|i: int, j: int| 0 <= i < j < dirs@.len() ==> dirs@[i]@ != dirs@[j]@,
        forall|i: int| 0 <= i < dirs@.len() - 1 ==> path_lt((#[trigger] dirs@[i])@, dirs@[i + 1]@),
{
    let mut table: Vec<(String, ())> = Vec::new();
    let ghost av = strings_view(artifacts@);
    let mut i: usize = 0;
    assert(table_view(table@) =~= Map::<Seq<char>, ()>::empty());
    while i < artifacts.len()
        invariant
            i <= artifacts@.len(),
            av == strings_view(artifacts@),
            table_wf(table@, true),
            table_view(table@).dom() == artifact_dirs(av.take(i as int)),
        decreases artifacts@.len() - i,
    {
        let ghost before = table_view(table@);
        match parent(artifacts[i].as_str()) {
            Some(dir) => {
                let ghost d = dir@;
                table_insert(&mut table, dir, (), true);
                assert(table_view(table@).dom() =~= artifact_dirs(av.take(i + 1))) by {
                    assert forall|x: Seq<char>| artifact_dirs(av.take(i + 1)).contains(x) implies #[trigger] table_view(table@).dom().contains(x) by {
                        let k = choose|k: int| 0 <= k < av.take(i + 1).len() && parent_spec(#[trigger] av.take(i + 1)[k]) == Some(x);
                        if k < i {
                            assert(av.take(i as int)[k] == av.take(i + 1)[k]);
                            assert(artifact_dirs(av.take(i as int)).contains(x));
                        }
                    }
                    assert forall|x: Seq<char>| #[trigger] table_view(table@).dom().contains(x) implies artifact_dirs(av.take(i + 1)).contains(x) by {
                        if x == d {
                            assert(av.take(i + 1)[i as int] == av[i as int]);
                        } else {
                            assert(artifact_dirs(av.take(i as int)).contains(x));
                            let k = choose|k: int| 0 <= k < av.take(i as int).len() && parent_spec(#[trigger] av.take(i as int)[k]) == Some(x);
                            assert(av.take(i + 1)[k] == av.take(i as int)[k]);
                        }
                    }
                }
            },
            None => {
                assert(table_view(table@).dom() =~= artifact_dirs(av.take(i + 1))) by {
                    assert forall|x: Seq<char>| artifact_dirs(av.take(i + 1)).contains(x) implies #[trigger] table_view(table@).dom().contains(x) by {
                        let k = choose|k: int| 0 <= k < av.take(i + 1).len() && parent_spec(#[trigger] av.take(i + 1)[k]) == Some(x);
                        if k < i {
                            assert(av.take(i as int)[k] == av.take(i + 1)[k]);
                            assert(artifact_dirs(av.take(i as int)).contains(x));
                        } else {
                            assert(av.take(i + 1)[k] == av[i as int]);
                        }
                    }
                    assert forall|x: Seq<char>| #[trigger] table_view(table@).dom().contains(x) implies artifact_dirs(av.take(i + 1)).contains(x) by {
                        assert(artifact_dirs(av.take(i as int)).contains(x));
                        let k = choose|k: int| 0 <= k < av.take(i as int).len() && parent_spec(#[trigger] av.take(i as int)[k]) == Some(x);
                        assert(av.take(i + 1)[k] == av.take(i as int)[k]);
                    }
                }
            },
        }
        i += 1;
    }
    assert(av.take(i as int) =~= av);
    let mut dirs: Vec<String> = Vec::new();
    let mut k: usize = 0;
    while k < table.len()
        invariant
            k <= table@.len(),
            table_wf(table@, true),
            dirs@.len() == k,
            forall|j: int| 0 <= j < k ==> (#[trigger] dirs@[j])@ == table@[j].0@,
        decreases table@.len() - k,
    {
        dirs.push(string_of(&chars_of(table[k].0.as_str())));
        k += 1;
    }
    proof {
        let dv = dirs@.map_values(|d: String| d@);
        assert forall|x: Seq<char>| #[trigger] dv.to_set().contains(x) <==> table_view(table@).dom().contains(x) by {
            if dv.to_set().contains(x) {
                let j = choose|j: int| 0 <= j < dv.len() && #[trigger] dv[j] == x;
                assert(table@[j].0@ == x);
            }
            if table_view(table@).dom().contains(x) {
                let j = choose|j: int| 0 <= j < table@.len() && (#[trigger] table@[j]).0@ == x;
                assert(dv[j] == x);
                assert(dv.contains(x));
            }
        }
        assert(dv.to_set() =~= table_view(table@).dom());
        assert forall|i: int, j: int| 0 <= i < j < dirs@.len() implies dirs@[i]@ != dirs@[j]@ by {
            assert(table@[i].0@ != table@[j].0@);
        }
        assert forall|i: int| 0 <= i < dirs@.len() - 1 implies path_lt((#[trigger] dirs@[i])@, dirs@[i + 1]@) by {
            assert(key_lt(table@[i].0@, table@[i + 1].0@, true));
        }
    }
    dirs
}

/// What compiling a package comes to: its output, fingerprint, whether the output can be
/// reused, and otherwise the `rustc` arguments.
pub struct RegistryPlan {
    pub output_path: String,
    pub fingerprint_path: String,
    pub fingerprint: u64,
    pub fresh: bool,
    pub args: Vec<String>,
    pub search_dirs: Vec<String>,
}

/// Where a package's output goes.
pub open spec fn registry_output_spec(
    deps_dir: Seq<char>,
    crate_name: Seq<char>,
    crate_type: RegistryCrateType,
    dylib_extension: Seq<char>,
) -> Seq<char> {
    join_path(
        deps_dir,
        match crate_type {
            RegistryCrateType::Rlib => "lib"@ + crate_name + ".rlib"@,
            RegistryCrateType::ProcMacro => "lib"@ + crate_name + "."@ + dylib_extension,
        },
    )
}

/// The `rustc` arguments of a package.
pub open spec fn registry_args_spec(
    lib_path: Seq<char>,
    crate_name: Seq<char>,
    edition: Seq<char>,
    incremental_dir: Seq<char>,
    output_path: Seq<char>,
    release: bool,
    crate_type: RegistryCrateType,
    search_dirs: Seq<Seq<char>>,
    externs: Seq<Seq<char>>,
) -> Seq<Seq<char>> {
    seq![
        lib_path,
        "--crate-name"@,
        crate_name,
        "--edition"@,
        edition,
        "-C"@,
        "incremental="@ + incremental_dir,
        "-C"@,
        "codegen-units=16"@,
        "-o"@,
        output_path,
    ] + (if release {
        seq!["-C"@, "opt-level=3"@, "-C"@, "lto=thin"@]
    } else {
        seq!["-C"@, "opt-level=0"@, "-C"@, "debuginfo=0"@]
    }) + seq![
        match crate_type {
            RegistryCrateType::Rlib => "--crate-type=rlib"@,
            RegistryCrateType::ProcMacro => "--crate-type=proc-macro"@,
        },
    ] + flagged("-L"@, search_dirs.map_values(|d: Seq<char>| "dependency="@ + d)) + flagged(
        "--extern"@,
        externs,
    )
}

fn push_pair(args: &mut Vec<String>, flag: &str, value: String)
    ensures
        strings_view(final(args)@) == strings_view(old(args)@) + seq![flag@, value@],
{
    args.push(string_of(&chars_of(flag)));
    args.push(value);
    assert(strings_view(args@) =~= strings_view(old(args)@) + seq![flag@, value@]);
}

fn owned(s: &str) -> (r: String)
    ensures
        r@ == s@,
{
    string_of(&chars_of(s))
}

/// The `--extern` values of compiled dependencies: `name=path`.
pub open spec fn extern_args(deps: Seq<(Seq<char>, Seq<char>, Seq<char>)>) -> Seq<Seq<char>> {
    deps.map_values(|d: (Seq<char>, Seq<char>, Seq<char>)| d.0 + "="@ + d.2)
}

/// The artifact paths of compiled dependencies.
pub open spec fn artifact_paths(deps: Seq<(Seq<char>, Seq<char>, Seq<char>)>) -> Seq<Seq<char>> {
    deps.map_values(|d: (Seq<char>, Seq<char>, Seq<char>)| d.2)
}

/// The sorted, distinct directories of the artifacts.
pub open spec fn sorted_dirs(dirs: Seq<Seq<char>>, artifacts: Seq<Seq<char>>) -> bool {
    &&& dirs.to_set() == artifact_dirs(artifacts)
    &&& forall|i: int, j: int| 0 <= i < j < dirs.len() ==> dirs[i] != dirs[j]
    &&& forall|i: int| 0 <= i < dirs.len() - 1 ==> path_lt(#[trigger] dirs[i], dirs[i + 1])
}

/// The arguments after the output: profile flags, crate type, `-L dependency=dir` for each
/// artifact directory (sorted, each once) and `--extern name=path` for each dependency; with
/// the directories.
fn registry_tail_args(
    release: bool,
    crate_type: RegistryCrateType,
    compiled_dependencies: &Vec<(String, String, String)>,
) -> (r: (Vec<String>, Vec<String>))
    ensures
        sorted_dirs(strings_view(r.1@), artifact_paths(compiled_view(compiled_dependencies@))),
        strings_view(r.0@) == (if release {
            seq!["-C"@, "opt-level=3"@, "-C"@, "lto=thin"@]
        } else {
            seq!["-C"@, "opt-level=0"@, "-C"@, "debuginfo=0"@]
        }) + seq![
            match crate_type {
                RegistryCrateType::Rlib => "--crate-type=rlib"@,
                RegistryCrateType::ProcMacro => "--crate-type=proc-macro"@,
            },
        ] + flagged("-L"@, strings_view(r.1@).map_values(|d: Seq<char>| "dependency="@ + d))
            + flagged("--extern"@, extern_args(compiled_view(compiled_dependencies@))),
{
    let ghost cv = compiled_view(compiled_dependencies@);
    let mut args: Vec<String> = Vec::new();
    if release {
        push_pair(&mut args, "-C", owned("opt-level=3"));
        push_pair(&mut args, "-C", owned("lto=thin"));
    } else {
        push_pair(&mut args, "-C", owned("opt-level=0"));
        push_pair(&mut args, "-C", owned("debuginfo=0"));
    }
    let ghost before_type = strings_view(args@);
    match crate_type {
        RegistryCrateType::Rlib => {
            args.push(owned("--crate-type=rlib"));
        },
        RegistryCrateType::ProcMacro => {
            args.push(owned("--crate-type=proc-macro"));
        },
    }
    assert(strings_view(args@) =~= before_type + seq![
        match crate_type {
            RegistryCrateType::Rlib => "--crate-type=rlib"@,
            RegistryCrateType::ProcMacro => "--crate-type=proc-macro"@,
        },
    ]);
    let mut artifacts: Vec<String> = Vec::new();
    let mut i: usize = 0;
    while i < compiled_dependencies.len()
        invariant
            i <= compiled_dependencies@.len(),
            cv == compiled_view(compiled_dependencies@),
            strings_view(artifacts@) == artifact_paths(cv).take(i as int),
        decreases compiled_dependencies@.len() - i,
    {
        let ghost before = strings_view(artifacts@);
        artifacts.push(owned(compiled_dependencies[i].2.as_str()));
        assert(strings_view(artifacts@) =~= before.push(cv[i as int].2));
        assert(artifact_paths(cv).take(i + 1) =~= artifact_paths(cv).take(i as int).push(cv[i as int].2));
        i += 1;
    }
    assert(artifact_paths(cv).take(i as int) =~= artifact_paths(cv));
    let dirs = search_directories(&artifacts);
    let ghost dv = strings_view(dirs@);
    assert(dirs@.map_values(|d: String| d@) =~= dv);
    let ghost ld = dv.map_values(|d: Seq<char>| "dependency="@ + d);
    let ghost head = strings_view(args@);
    let mut k: usize = 0;
    assert(ld.take(0) =~= Seq::<Seq<char>>::empty());
    assert(head + flagged("-L"@, ld.take(0)) =~= head);
    while k < dirs.len()
        invariant
            k <= dirs@.len(),
            dv == strings_view(dirs@),
            ld == dv.map_values(|d: Seq<char>| "dependency="@ + d),
            strings_view(args@) == head + flagged("-L"@, ld.take(k as int)),
        decreases dirs@.len() - k,
    {
        let mut text: Vec<char> = Vec::new();
        push_str(&mut text, "dependency=");
        push_str(&mut text, dirs[k].as_str());
        assert(text@ == ld[k as int]);
        push_pair(&mut args, "-L", string_of(&text));
        assert(ld.take(k + 1).drop_last() =~= ld.take(k as int));
        assert(strings_view(args@) =~= head + flagged("-L"@, ld.take(k + 1)));
        k += 1;
    }
    assert(ld.take(k as int) =~= ld);
    let ghost ex = extern_args(cv);
    let ghost mid = strings_view(args@);
    let mut j: usize = 0;
    assert(ex.take(0) =~= Seq::<Seq<char>>::empty());
    assert(mid + flagged("--extern"@, ex.take(0)) =~= mid);
    while j < compiled_dependencies.len()
        invariant
            j <= compiled_dependencies@.len(),
            cv == compiled_view(compiled_dependencies@),
            ex == extern_args(cv),
            strings_view(args@) == mid + flagged("--extern"@, ex.take(j as int)),
        decreases compiled_dependencies@.len() - j,
    {
        let (name, _, path) = &compiled_dependencies[j];
        let mut text: Vec<char> = Vec::new();
        push_str(&mut text, name.as_str());
        push_str(&mut text, "=");
        push_str(&mut text, path.as_str());
        assert(text@ == ex[j as int]);
        push_pair(&mut args, "--extern", string_of(&text));
        assert(ex.take(j + 1).drop_last() =~= ex.take(j as int));
        assert(strings_view(args@) =~= mid + flagged("--extern"@, ex.take(j + 1)));
        j += 1;
    }
    assert(ex.take(j as int) =~= ex);
    (args, dirs)
}

/// Decides how to compile a package: reuse its output when it exists and the stored
/// fingerprint is the current one; otherwise compile with the returned arguments. `source`
/// is the text of its library root, `stored` the fingerprint found next to the output, and
/// `dylib_extension` the extension of proc-macro libraries on this system.
pub fn compile_registry_package(
    paths: &ProjectPaths,
    package: &RegistryPackage,
    release: bool,
    compiled_dependencies: &Vec<(String, String, String)>,
    source: &[u8],
    output_exists: bool,
    stored: Option<u64>,
    dylib_extension: &str,
) -> (r: Result<RegistryPlan, String>)
    ensures
        paths.home is None <==> r is Err,
        r matches Err(m) ==> m@ == "HOME is not set"@,
        r matches Ok(plan) ==> {
            let package_dir = join_path(
                join_path(
                    join_path(
                        join_path(join_path(join_path(paths.home->Some_0@, ".zoxi"@), "cache"@), "registry"@),
                        package.registry_name@,
                    ),
                    package.version@,
                ),
                profile_name_spec(release),
            );
            &&& plan.output_path@ == registry_output_spec(
                join_path(package_dir, "deps"@),
                package.crate_name@,
                package.crate_type,
                dylib_extension@,
            )
            &&& plan.fingerprint_path@ == join_path(package_dir, "fingerprint"@)
            &&& plan.fingerprint == fnv_hash(
                vstd::utf8::encode_utf8(
                    package_seed(
                        source@,
                        package.version@,
                        release,
                        package.edition@,
                        compiled_view(compiled_dependencies@),
                    ),
                ),
            )
            &&& plan.fresh == (output_exists && stored == Some(plan.fingerprint))
            &&& plan.fresh ==> plan.args@.len() == 0 && plan.search_dirs@.len() == 0
            &&& !plan.fresh ==> sorted_dirs(
                strings_view(plan.search_dirs@),
                artifact_paths(compiled_view(compiled_dependencies@)),
            ) && strings_view(plan.args@) == registry_args_spec(
                package.lib_path@,
                package.crate_name@,
                package.edition@,
                join_path(package_dir, "incremental"@),
                plan.output_path@,
                release,
                package.crate_type,
                strings_view(plan.search_dirs@),
                extern_args(compiled_view(compiled_dependencies@)),
            )
        },
{
    let registry = match paths.registry_cache_dir() {
        Ok(dir) => dir,
        Err(e) => {
            return Err(e);
        },
    };
    let a = join(registry.as_str(), package.registry_name.as_str());
    let b = join(a.as_str(), package.version.as_str());
    let package_dir = join(b.as_str(), profile_name(release));
    let deps_dir = join(package_dir.as_str(), "deps");
    let incremental_dir = join(package_dir.as_str(), "incremental");
    let mut file: Vec<char> = Vec::new();
    push_str(&mut file, "lib");
    push_str(&mut file, package.crate_name.as_str());
    match package.crate_type {
        RegistryCrateType::Rlib => {
            push_str(&mut file, ".rlib");
        },
        RegistryCrateType::ProcMacro => {
            push_str(&mut file, ".");
            push_str(&mut file, dylib_extension);
        },
    }
    let output_path = join(deps_dir.as_str(), string_of(&file).as_str());
    let fingerprint_path = join(package_dir.as_str(), "fingerprint");
    let fingerprint = package_fingerprint(source, package, release, compiled_dependencies);
    let fresh = output_exists && match stored {
        Some(v) => v == fingerprint,
        None => false,
    };
    if fresh {
        return Ok(
            RegistryPlan {
                output_path,
                fingerprint_path,
                fingerprint,
                fresh,
                args: Vec::new(),
                search_dirs: Vec::new(),
            },
        );
    }
    let mut args: Vec<String> = Vec::new();
    args.push(owned(package.lib_path.as_str()));
    push_pair(&mut args, "--crate-name", owned(package.crate_name.as_str()));
    push_pair(&mut args, "--edition", owned(package.edition.as_str()));
    let mut inc: Vec<char> = Vec::new();
    push_str(&mut inc, "incremental=");
    push_str(&mut inc, incremental_dir.as_str());
    push_pair(&mut args, "-C", string_of(&inc));
    push_pair(&mut args, "-C", owned("codegen-units=16"));
    push_pair(&mut args, "-o", owned(output_path.as_str()));
    let ghost head = strings_view(args@);
    let (mut tail, search_dirs) = registry_tail_args(release, package.crate_type, compiled_dependencies);
    let ghost tail_view = strings_view(tail@);
    args.append(&mut tail);
    assert(strings_view(args@) =~= head + tail_view);
    Ok(RegistryPlan { output_path, fingerprint_path, fingerprint, fresh: false, args, search_dirs })
}

/// The text that a project's dependency fingerprint is taken of: for each root, its package
/// id, `|` and its artifact, the roots separated by `|`.
pub open spec fn roots_seed(roots: Seq<(Seq<char>, Seq<char>)>, artifacts: Map<Seq<char>, Seq<char>>) -> Seq<
    char,
>
    decreases roots.len(),
{
    if roots.len() == 0 {
        seq![]
    } else {
        let before = roots_seed(roots.drop_last(), artifacts);
        let id = roots.last().1;
        let piece = id + "|"@ + artifacts[id];
        if before.len() > 0 {
            before + "|"@ + piece
        } else {
            piece
        }
    }
}

/// The artifacts of a table of compiled packages, as text.
pub open spec fn artifact_map(compiled: Seq<(String, String)>) -> Map<Seq<char>, Seq<char>> {
    table_view(compiled).map_values(|a: String| a@)
}

/// The roots as text.
pub open spec fn roots_view(roots: Seq<(String, String)>) -> Seq<(Seq<char>, Seq<char>)> {
    roots.map_values(|r: (String, String)| (r.0@, r.1@))
}

/// The artifact paths of a table of compiled packages, in its order.
pub open spec fn table_artifacts(compiled: Seq<(String, String)>) -> Seq<Seq<char>> {
    compiled.map_values(|e: (String, String)| e.1@)
}

/// The artifacts of a project's dependencies: each root dependency's extern name with its
/// compiled artifact, the distinct directories of all compiled artifacts (sorted), and the
/// hash of `roots_seed`; all empty (fingerprint 0) without dependencies.
pub fn prepare_dependency_artifacts(
    root_ids: &Vec<(String, String)>,
    compiled: &Vec<(String, String)>,
) -> (r: Result<DependencyArtifacts, String>)
    requires
        table_wf(compiled@, false),
    ensures
        root_ids@.len() == 0 ==> (r matches Ok(a) && a.externs@.len() == 0 && a.search_dirs@.len()
            == 0 && a.fingerprint == 0),
        r is Err <==> exists|i: int|
            0 <= i < root_ids@.len() && !table_view(compiled@).dom().contains(
                #[trigger] root_ids@[i].1@,
            ),
        r matches Ok(a) ==> (root_ids@.len() > 0 ==> a.externs@.len() == root_ids@.len() && (forall|
            i: int,
        |
            0 <= i < root_ids@.len() ==> (#[trigger] a.externs@[i]).0@ == root_ids@[i].0@
                && a.externs@[i].1@ == table_view(compiled@)[root_ids@[i].1@]@)
            && sorted_dirs(strings_view(a.search_dirs@), table_artifacts(compiled@))
            && a.fingerprint == fnv_hash(
            vstd::utf8::encode_utf8(roots_seed(roots_view(root_ids@), artifact_map(compiled@))),
        )),
{
    if root_ids.len() == 0 {
        return Ok(DependencyArtifacts { externs: Vec::new(), search_dirs: Vec::new(), fingerprint: 0 });
    }
    let ghost rv = roots_view(root_ids@);
    let ghost am = artifact_map(compiled@);
    let mut seed: Vec<char> = Vec::new();
    let mut externs: Vec<(String, String)> = Vec::new();
    let mut i: usize = 0;
    while i < root_ids.len()
        invariant
            i <= root_ids@.len(),
            table_wf(compiled@, false),
            rv == roots_view(root_ids@),
            am == artifact_map(compiled@),
            externs@.len() == i,
            seed@ == roots_seed(rv.take(i as int), am),
            forall|k: int| 0 <= k < i ==> table_view(compiled@).dom().contains(#[trigger] root_ids@[k].1@),
            forall|k: int|
                0 <= k < i ==> (#[trigger] externs@[k]).0@ == root_ids@[k].0@ && externs@[k].1@
                    == table_view(compiled@)[root_ids@[k].1@]@,
        decreases root_ids@.len() - i,
    {
        let (name, id) = &root_ids[i];
        let artifact = match table_get(compiled, id.as_str()) {
            Some(path) => path,
            None => {
                let mut m: Vec<char> = Vec::new();
                push_str(&mut m, "missing compiled artifact for resolved dependency `");
                push_str(&mut m, id.as_str());
                push_str(&mut m, "`");
                return Err(string_of(&m));
            },
        };
        let ghost before = seed@;
        assert(rv.take(i + 1).drop_last() =~= rv.take(i as int));
        assert(rv.take(i + 1).last() == (name@, id@));
        assert(am[id@] == artifact@);
        if seed.len() > 0 {
            push_str(&mut seed, "|");
        }
        push_str(&mut seed, id.as_str());
        push_str(&mut seed, "|");
        push_str(&mut seed, artifact.as_str());
        assert(seed@ =~= roots_seed(rv.take(i + 1), am));
        externs.push((owned(name.as_str()), owned(artifact.as_str())));
        i += 1;
    }
    assert(rv.take(i as int) =~= rv);
    let mut artifacts: Vec<String> = Vec::new();
    let mut k: usize = 0;
    while k < compiled.len()
        invariant
            k <= compiled@.len(),
            strings_view(artifacts@) == table_artifacts(compiled@).take(k as int),
        decreases compiled@.len() - k,
    {
        let ghost before = strings_view(artifacts@);
        artifacts.push(owned(compiled[k].1.as_str()));
        assert(strings_view(artifacts@) =~= before.push(compiled@[k as int].1@));
        assert(table_artifacts(compiled@).take(k + 1) =~= table_artifacts(compiled@).take(k as int).push(compiled@[k as int].1@));
        k += 1;
    }
    assert(table_artifacts(compiled@).take(k as int) =~= table_artifacts(compiled@));
    let search_dirs = search_directories(&artifacts);
    assert(search_dirs@.map_values(|d: String| d@) =~= strings_view(search_dirs@));
    let fingerprint = stable_hash_str(string_of(&seed).as_str());
    Ok(DependencyArtifacts { externs, search_dirs, fingerprint })
}

} // verus!
