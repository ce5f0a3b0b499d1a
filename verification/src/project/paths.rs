//! Where a project keeps its sources, generated files and caches, and where the shared
//! caches live.
use crate::text::{chars_of, push_str, string_of};
use vstd::prelude::*;

verus! {

/// `base` joined with a relative path, as `Path::join` does on Unix: a `/` between them
/// unless `base` is empty or already ends with one.
pub open spec fn join_path(base: Seq<char>, rel: Seq<char>) -> Seq<char> {
    if base.len() > 0 && base.last() != '/' {
        base + seq!['/'] + rel
    } else {
        base + rel
    }
}

/// Joins a relative path to a base path.
pub fn join(base: &str, rel: &str) -> (path: String)
    ensures
        path@ == join_path(base@, rel@),
{
    let b = chars_of(base);
    let mut out: Vec<char> = Vec::new();
    crate::text::push_all(&mut out, &b);
    if b.len() > 0 && b[b.len() - 1] != '/' {
        out.push('/');
    }
    push_str(&mut out, rel);
    string_of(&out)
}

/// The directory of a build profile.
pub open spec fn profile_name_spec(release: bool) -> Seq<char> {
    if release {
        "release"@
    } else {
        "debug"@
    }
}

pub fn profile_name(release: bool) -> (name: &'static str)
    ensures
        name@ == profile_name_spec(release),
{
    if release {
        "release"
    } else {
        "debug"
    }
}

/// The root of a project, and the home directory of the user when it is known.
pub struct ProjectPaths {
    pub root: String,
    pub home: Option<String>,
}

/// The project root: an absolute path as given, a relative one under the working
/// directory, the working directory when none is given.
pub open spec fn project_root(root: Option<Seq<char>>, cwd: Seq<char>) -> Seq<char> {
    match root {
        Some(path) => if path.len() > 0 && path[0] == '/' {
            path
        } else {
            join_path(cwd, path)
        },
        None => cwd,
    }
}

impl ProjectPaths {
    /// The paths of the project at `root` (relative to `cwd`), for a user whose home
    /// directory is `home`.
    pub fn new(root: Option<String>, cwd: String, home: Option<String>) -> (paths: Self)
        ensures
            paths.root@ == project_root(
                match root {
                    Some(r) => Some(r@),
                    None => None,
                },
                cwd@,
            ),
            paths.home == home,
    {
        let root = match root {
            Some(path) => {
                let p = chars_of(path.as_str());
                if p.len() > 0 && p[0] == '/' {
                    path
                } else {
                    join(cwd.as_str(), path.as_str())
                }
            },
            None => cwd,
        };
        ProjectPaths { root, home }
    }

    pub fn root(&self) -> (root: &str)
        ensures
            root@ == self.root@,
    {
        self.root.as_str()
    }

    pub fn src_dir(&self) -> (dir: String)
        ensures
            dir@ == join_path(self.root@, "src"@),
    {
        join(self.root.as_str(), "src")
    }

    pub fn generated_dir(&self) -> (dir: String)
        ensures
            dir@ == join_path(self.root@, ".zoxi"@),
    {
        join(self.root.as_str(), ".zoxi")
    }

    pub fn generated_src_dir(&self) -> (dir: String)
        ensures
            dir@ == join_path(join_path(self.root@, ".zoxi"@), "src"@),
    {
        join(self.generated_dir().as_str(), "src")
    }

    pub fn project_cache_dir(&self) -> (dir: String)
        ensures
            dir@ == join_path(join_path(self.root@, ".zoxi"@), ".cache"@),
    {
        join(self.generated_dir().as_str(), ".cache")
    }

    pub fn transpile_cache_state_path(&self) -> (path: String)
        ensures
            path@ == join_path(
                join_path(join_path(self.root@, ".zoxi"@), ".cache"@),
                "transpile-state"@,
            ),
    {
        join(self.project_cache_dir().as_str(), "transpile-state")
    }

    pub fn build_cache_state_path(&self) -> (path: String)
        ensures
            path@ == join_path(
                join_path(join_path(self.root@, ".zoxi"@), ".cache"@),
                "build-state"@,
            ),
    {
        join(self.project_cache_dir().as_str(), "build-state")
    }

    pub fn profile_artifact_dir(&self, release: bool) -> (dir: String)
        ensures
            dir@ == join_path(
                join_path(join_path(join_path(self.root@, ".zoxi"@), ".cache"@), "artifacts"@),
                profile_name_spec(release),
            ),
    {
        let artifacts = join(self.project_cache_dir().as_str(), "artifacts");
        join(artifacts.as_str(), profile_name(release))
    }

    pub fn profile_incremental_dir(&self, release: bool) -> (dir: String)
        ensures
            dir@ == join_path(
                join_path(join_path(join_path(self.root@, ".zoxi"@), ".cache"@), "incremental"@),
                profile_name_spec(release),
            ),
    {
        let incremental = join(self.project_cache_dir().as_str(), "incremental");
        join(incremental.as_str(), profile_name(release))
    }

    /// `~/.zoxi`; an error when the home directory is not known.
    pub fn global_root_dir(&self) -> (dir: Result<String, String>)
        ensures
            self.home is None <==> dir is Err,
            dir matches Err(message) ==> message@ == "HOME is not set"@,
            dir matches Ok(d) ==> d@ == join_path(self.home->Some_0@, ".zoxi"@),
    {
        match &self.home {
            Some(home) => Ok(join(home.as_str(), ".zoxi")),
            None => Err(String::from_str("HOME is not set")),
        }
    }

    pub fn global_cache_dir(&self) -> (dir: Result<String, String>)
        ensures
            self.home is None <==> dir is Err,
            dir matches Err(message) ==> message@ == "HOME is not set"@,
            dir matches Ok(d) ==> d@ == join_path(join_path(self.home->Some_0@, ".zoxi"@), "cache"@),
    {
        match self.global_root_dir() {
            Ok(root) => Ok(join(root.as_str(), "cache")),
            Err(e) => Err(e),
        }
    }

    pub fn version_cache_dir(&self) -> (dir: Result<String, String>)
        ensures
            self.home is None <==> dir is Err,
            dir matches Err(message) ==> message@ == "HOME is not set"@,
            dir matches Ok(d) ==> d@ == join_path(
                join_path(join_path(self.home->Some_0@, ".zoxi"@), "cache"@),
                "crates"@,
            ),
    {
        match self.global_cache_dir() {
            Ok(cache) => Ok(join(cache.as_str(), "crates")),
            Err(e) => Err(e),
        }
    }

    pub fn source_cache_dir(&self) -> (dir: Result<String, String>)
        ensures
            self.home is None <==> dir is Err,
            dir matches Err(message) ==> message@ == "HOME is not set"@,
            dir matches Ok(d) ==> d@ == join_path(
                join_path(join_path(self.home->Some_0@, ".zoxi"@), "cache"@),
                "sources"@,
            ),
    {
        match self.global_cache_dir() {
            Ok(cache) => Ok(join(cache.as_str(), "sources")),
            Err(e) => Err(e),
        }
    }

    pub fn registry_cache_dir(&self) -> (dir: Result<String, String>)
        ensures
            self.home is None <==> dir is Err,
            dir matches Err(message) ==> message@ == "HOME is not set"@,
            dir matches Ok(d) ==> d@ == join_path(
                join_path(join_path(self.home->Some_0@, ".zoxi"@), "cache"@),
                "registry"@,
            ),
    {
        match self.global_cache_dir() {
            Ok(cache) => Ok(join(cache.as_str(), "registry")),
            Err(e) => Err(e),
        }
    }
}

} // verus!
