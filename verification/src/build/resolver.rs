//! The decisions of resolving and compiling a project's registry dependencies, as steps of
//! two state machines. Fetching versions and packages and running `rustc` is the caller's
//! work: each step says what to do next, and the caller hands back what came of it.
use crate::build::dependencies::{DependencySpec, RegistryPackage, package_id};
use crate::project::table::{has_key, table_find, table_get, table_insert, table_view, table_wf};
use crate::text::{chars_of, push_str, string_of};
use vstd::prelude::*;

verus! {

/// A resolved package with the package id each of its dependencies resolved to, as
/// `(crate name, id)` in the order of its dependency list.
pub struct ResolvedNode {
    pub package: RegistryPackage,
    pub dependencies: Vec<(String, String)>,
}

/// `resolved` names, in order, a prefix of the dependencies `deps`.
pub open spec fn names_prefix(deps: Seq<DependencySpec>, resolved: Seq<(String, String)>) -> bool {
    &&& resolved.len() <= deps.len()
    &&& forall|j: int| 0 <= j < resolved.len() ==> (#[trigger] resolved[j]).0@ == deps[j].crate_name@
}

/// Every id in `resolved` is the id of a resolved package.
pub open spec fn ids_known(nodes: Seq<(String, ResolvedNode)>, resolved: Seq<(String, String)>) -> bool {
    forall|j: int| 0 <= j < resolved.len() ==> has_key(nodes, (#[trigger] resolved[j]).1@)
}

/// A resolved package has one resolved id for each dependency, and each id is resolved too.
pub open spec fn node_ok(nodes: Seq<(String, ResolvedNode)>, n: ResolvedNode) -> bool {
    &&& names_prefix(n.package.dependencies@, n.dependencies@)
    &&& n.dependencies@.len() == n.package.dependencies@.len()
    &&& ids_known(nodes, n.dependencies@)
}

/// The resolved packages: each id once, and the graph closed under dependencies.
pub open spec fn nodes_wf(nodes: Seq<(String, ResolvedNode)>) -> bool {
    &&& forall|i: int, j: int| 0 <= i < j < nodes.len() ==> (#[trigger] nodes[i]).0@ != (#[trigger] nodes[j]).0@
    &&& forall|i: int| 0 <= i < nodes.len() ==> node_ok(nodes, (#[trigger] nodes[i]).1)
}

/// A package whose dependencies are being resolved: the name its dependent uses for it,
/// its id, the package, and what its first dependencies resolved to.
pub struct ResolveFrame {
    pub crate_name: String,
    pub id: String,
    pub package: RegistryPackage,
    pub resolved: Vec<(String, String)>,
}

pub open spec fn frame_ok(nodes: Seq<(String, ResolvedNode)>, f: ResolveFrame) -> bool {
    &&& names_prefix(f.package.dependencies@, f.resolved@)
    &&& ids_known(nodes, f.resolved@)
}

/// What the resolution waits for.
pub enum Awaiting {
    /// The version that the requirement of this dependency selects.
    Version(DependencySpec),
    /// The package of this id, which the dependent calls `crate_name`.
    Package { crate_name: String, id: String },
    /// Nothing from outside: the next step goes on.
    Proceed,
    /// Nothing: the root resolved to this id.
    Finished(String),
}

/// The state of resolving one root dependency against the packages resolved so far.
pub struct Resolution {
    pub nodes: Vec<(String, ResolvedNode)>,
    pub frames: Vec<ResolveFrame>,
    pub awaiting: Awaiting,
}

/// The frame waits for a dependency called `crate_name`: its next one.
pub open spec fn waits_for(f: ResolveFrame, crate_name: Seq<char>) -> bool {
    &&& f.resolved@.len() < f.package.dependencies@.len()
    &&& f.package.dependencies@[f.resolved@.len() as int].crate_name@ == crate_name
}

/// The resolved packages are well formed, each frame's resolved prefix is sound, each frame
/// waits for the one above it, and the top frame waits for what the state waits for.
pub open spec fn resolution_wf(r: Resolution) -> bool {
    &&& nodes_wf(r.nodes@)
    &&& forall|i: int| 0 <= i < r.frames@.len() ==> frame_ok(r.nodes@, #[trigger] r.frames@[i])
    &&& forall|i: int|
        0 <= i < r.frames@.len() - 1 ==> waits_for(#[trigger] r.frames@[i], r.frames@[i + 1].crate_name@)
    &&& r.frames@.len() > 0 ==> match r.awaiting {
        Awaiting::Version(d) => waits_for(r.frames@.last(), d.crate_name@),
        Awaiting::Package { crate_name, .. } => waits_for(r.frames@.last(), crate_name@),
        _ => true,
    }
}

/// What the caller hands back.
pub enum ResolveEvent {
    /// The version selected for the awaited dependency.
    Version(String),
    /// The awaited package, downloaded and read.
    Package(RegistryPackage),
    /// Nothing: the step asked to go on.
    Proceed,
}

/// What the caller does next.
pub enum ResolveAction {
    /// Select a version of `registry_name` that meets `version_req`.
    FetchVersion { registry_name: String, version_req: String },
    /// Download and read the package `registry_name` at `version`.
    FetchPackage { registry_name: String, version: String },
    /// Call the next step with `Proceed`.
    Proceed,
    /// The root dependency resolved to this package id.
    Resolved(String),
    /// The event does not answer what the state waits for.
    Unexpected,
}

fn copy(s: &String) -> (r: String)
    ensures
        r@ == s@,
{
    string_of(&chars_of(s.as_str()))
}

fn copy_spec(d: &DependencySpec) -> (r: DependencySpec)
    ensures
        r.registry_name@ == d.registry_name@,
        r.crate_name@ == d.crate_name@,
        r.version_req@ == d.version_req@,
{
    DependencySpec {
        registry_name: copy(&d.registry_name),
        crate_name: copy(&d.crate_name),
        version_req: copy(&d.version_req),
    }
}

/// Starts resolving `root` against the packages resolved so far: its version is fetched
/// first.
pub fn start_resolution(nodes: Vec<(String, ResolvedNode)>, root: &DependencySpec) -> (r: (
    Resolution,
    ResolveAction,
))
    requires
        nodes_wf(nodes@),
    ensures
        resolution_wf(r.0),
        r.0.nodes@ == nodes@,
        r.0.frames@.len() == 0,
        r.1 matches ResolveAction::FetchVersion { registry_name, version_req } && registry_name@
            == root.registry_name@ && version_req@ == root.version_req@,
{
    let action = ResolveAction::FetchVersion {
        registry_name: copy(&root.registry_name),
        version_req: copy(&root.version_req),
    };
    (Resolution { nodes, frames: Vec::new(), awaiting: Awaiting::Version(copy_spec(root)) }, action)
}

/// A dependency named `crate_name` resolved to `id`: it is recorded in the package that
/// waits for it, or it is the root.
#[verifier::rlimit(60)]
#[verifier::spinoff_prover]
fn attach(mut state: Resolution, crate_name: String, id: String) -> (r: (Resolution, ResolveAction))
    requires
        nodes_wf(state.nodes@),
        forall|i: int| 0 <= i < state.frames@.len() ==> frame_ok(state.nodes@, #[trigger] state.frames@[i]),
        forall|i: int|
            0 <= i < state.frames@.len() - 1 ==> waits_for(
                #[trigger] state.frames@[i],
                state.frames@[i + 1].crate_name@,
            ),
        has_key(state.nodes@, id@),
        state.frames@.len() > 0 ==> waits_for(state.frames@.last(), crate_name@),
    ensures
        resolution_wf(r.0),
        r.0.nodes@ == state.nodes@,
        r.1 matches ResolveAction::Resolved(rid) ==> has_key(r.0.nodes@, rid@),
        r.1 is Resolved || r.1 is Proceed,
{
    let ghost orig = state.frames@;
    let ghost nodes = state.nodes@;
    match state.frames.pop() {
        None => {
            state.awaiting = Awaiting::Finished(copy(&id));
            (state, ResolveAction::Resolved(id))
        },
        Some(mut top) => {
            assert(orig.last() == top);
            let ghost rest = state.frames@;
            assert(rest =~= orig.drop_last());
            let ghost before = top.resolved@;
            top.resolved.push((crate_name, id));
            proof {
                lemma_frame_extended(nodes, orig.last(), top);
            }
            state.frames.push(top);
            proof {
                lemma_frames_replaced(nodes, orig, state.frames@);
            }
            state.awaiting = Awaiting::Proceed;
            (state, ResolveAction::Proceed)
        },
    }
}

/// A frame that records its next dependency, resolved to a known id, is still sound.
proof fn lemma_frame_extended(nodes: Seq<(String, ResolvedNode)>, old_f: ResolveFrame, new_f: ResolveFrame)
    requires
        frame_ok(nodes, old_f),
        new_f.package == old_f.package,
        new_f.resolved@.len() == old_f.resolved@.len() + 1,
        forall|j: int| 0 <= j < old_f.resolved@.len() ==> new_f.resolved@[j] == old_f.resolved@[j],
        waits_for(old_f, new_f.resolved@.last().0@),
        has_key(nodes, new_f.resolved@.last().1@),
    ensures
        frame_ok(nodes, new_f),
{
    assert forall|j: int| 0 <= j < new_f.resolved@.len() implies has_key(
        nodes,
        (#[trigger] new_f.resolved@[j]).1@,
    ) by {
        if j < old_f.resolved@.len() {
            assert(new_f.resolved@[j] == old_f.resolved@[j]);
        }
    }
    assert forall|j: int| 0 <= j < new_f.resolved@.len() implies (
    #[trigger] new_f.resolved@[j]).0@ == new_f.package.dependencies@[j].crate_name@ by {
        if j < old_f.resolved@.len() {
            assert(new_f.resolved@[j] == old_f.resolved@[j]);
        }
    }
}

/// Replacing the top frame by a sound one with the same name keeps the frames sound and
/// chained.
proof fn lemma_frames_replaced(nodes: Seq<(String, ResolvedNode)>, old_fs: Seq<ResolveFrame>, new_fs: Seq<ResolveFrame>)
    requires
        old_fs.len() > 0,
        new_fs.len() == old_fs.len(),
        forall|i: int| 0 <= i < old_fs.len() - 1 ==> new_fs[i] == old_fs[i],
        new_fs.last().crate_name == old_fs.last().crate_name,
        frame_ok(nodes, new_fs.last()),
        forall|i: int| 0 <= i < old_fs.len() ==> frame_ok(nodes, #[trigger] old_fs[i]),
        forall|i: int| 0 <= i < old_fs.len() - 1 ==> waits_for(#[trigger] old_fs[i], old_fs[i + 1].crate_name@),
    ensures
        forall|i: int| 0 <= i < new_fs.len() ==> frame_ok(nodes, #[trigger] new_fs[i]),
        forall|i: int| 0 <= i < new_fs.len() - 1 ==> waits_for(#[trigger] new_fs[i], new_fs[i + 1].crate_name@),
{
    assert forall|i: int| 0 <= i < new_fs.len() implies frame_ok(nodes, #[trigger] new_fs[i]) by {
        if i < old_fs.len() - 1 {
            assert(new_fs[i] == old_fs[i]);
        }
    }
    assert forall|i: int| 0 <= i < new_fs.len() - 1 implies waits_for(#[trigger] new_fs[i], new_fs[i + 1].crate_name@) by {
        assert(new_fs[i] == old_fs[i]);
        if i + 1 < old_fs.len() - 1 {
            assert(new_fs[i + 1] == old_fs[i + 1]);
        }
    }
}

/// Adding a package that is not resolved yet and whose dependencies are resolved keeps the
/// resolved packages well formed, and every id known before stays known.
proof fn lemma_nodes_push(
    nodes: Seq<(String, ResolvedNode)>,
    entry: (String, ResolvedNode),
    frames: Seq<ResolveFrame>,
)
    requires
        nodes_wf(nodes),
        !has_key(nodes, entry.0@),
        node_ok(nodes, entry.1),
        forall|i: int| 0 <= i < frames.len() ==> frame_ok(nodes, #[trigger] frames[i]),
    ensures
        nodes_wf(nodes.push(entry)),
        forall|k: Seq<char>| has_key(nodes, k) ==> has_key(nodes.push(entry), k),
        forall|i: int| 0 <= i < frames.len() ==> frame_ok(nodes.push(entry), #[trigger] frames[i]),
{
    let grown = nodes.push(entry);
    assert forall|k: Seq<char>| has_key(nodes, k) implies has_key(grown, k) by {
        let i = choose|i: int| 0 <= i < nodes.len() && (#[trigger] nodes[i]).0@ == k;
        assert(grown[i] == nodes[i]);
    }
    assert forall|r: Seq<(String, String)>| ids_known(nodes, r) implies ids_known(grown, r) by {
        assert forall|j: int| 0 <= j < r.len() implies has_key(grown, (#[trigger] r[j]).1@) by {
            assert(has_key(nodes, r[j].1@));
        }
    }
    assert forall|i: int, j: int| 0 <= i < j < grown.len() implies (#[trigger] grown[i]).0@ != (
    #[trigger] grown[j]).0@ by {
        if j == nodes.len() {
            assert(grown[i] == nodes[i]);
        } else {
            assert(grown[i] == nodes[i] && grown[j] == nodes[j]);
        }
    }
    assert forall|i: int| 0 <= i < grown.len() implies node_ok(grown, (#[trigger] grown[i]).1) by {
        if i < nodes.len() {
            assert(grown[i] == nodes[i]);
            assert(node_ok(nodes, nodes[i].1));
        }
    }
    assert forall|i: int| 0 <= i < frames.len() implies frame_ok(grown, #[trigger] frames[i]) by {
        assert(frame_ok(nodes, frames[i]));
    }
}

/// With nothing to wait for: the top package either asks for its next dependency's version
/// or, with all of them resolved, is recorded and handed to the package that waits for it.
#[verifier::rlimit(60)]
#[verifier::spinoff_prover]
fn descend(mut state: Resolution) -> (r: (Resolution, ResolveAction))
    requires
        nodes_wf(state.nodes@),
        forall|i: int| 0 <= i < state.frames@.len() ==> frame_ok(state.nodes@, #[trigger] state.frames@[i]),
        forall|i: int|
            0 <= i < state.frames@.len() - 1 ==> waits_for(
                #[trigger] state.frames@[i],
                state.frames@[i + 1].crate_name@,
            ),
    ensures
        step_ok(state.nodes@, r.0, r.1),
{
    proof {
        reveal(step_ok);
    }
    let ghost orig = state.frames@;
    let top = match state.frames.pop() {
        None => {
            return (state, ResolveAction::Unexpected);
        },
        Some(top) => top,
    };
    assert(orig.last() == top);
    assert(state.frames@ =~= orig.drop_last());
    let k = top.resolved.len();
    if k < top.package.dependencies.len() {
        let child = copy_spec(&top.package.dependencies[k]);
        let action = ResolveAction::FetchVersion {
            registry_name: copy(&child.registry_name),
            version_req: copy(&child.version_req),
        };
        state.frames.push(top);
        assert(state.frames@ =~= orig);
        state.awaiting = Awaiting::Version(child);
        return (state, action);
    }
    let ResolveFrame { crate_name, id, package, resolved } = top;
    let ghost nodes_before = state.nodes@;
    match table_find(&state.nodes, id.as_str()) {
        Some(_) => {},
        None => {
            let entry = (copy(&id), ResolvedNode { package, dependencies: resolved });
            proof {
                lemma_nodes_push(nodes_before, entry, state.frames@);
            }
            state.nodes.push(entry);
        },
    }
    proof {
        if state.frames@.len() > 0 {
            assert(state.frames@.last() == orig[orig.len() - 2]);
        }
        assert forall|k: Seq<char>| has_key(nodes_before, k) implies has_key(state.nodes@, k) by {
            if state.nodes@.len() > nodes_before.len() {
                let i = choose|i: int| 0 <= i < nodes_before.len() && (#[trigger] nodes_before[i]).0@ == k;
                assert(state.nodes@[i] == nodes_before[i]);
            }
        }
        if state.nodes@ == nodes_before {
            assert(has_key(state.nodes@, id@));
        } else {
            assert(state.nodes@.last().0@ == id@);
            assert(has_key(state.nodes@, id@));
        }
    }
    attach(state, crate_name, id)
}

/// What every step keeps and promises: the state stays well formed, resolved packages stay
/// resolved, a package is fetched only when its id is not resolved yet (and is then awaited),
/// a version is fetched for the dependency then awaited, and a resolved root is a resolved
/// package.
#[verifier::opaque]
pub open spec fn step_ok(old_nodes: Seq<(String, ResolvedNode)>, next: Resolution, action: ResolveAction) -> bool {
    &&& resolution_wf(next)
    &&& forall|k: Seq<char>| has_key(old_nodes, k) ==> has_key(next.nodes@, k)
    &&& action matches ResolveAction::FetchPackage { registry_name, version } ==> !has_key(
        next.nodes@,
        registry_name@ + "@"@ + version@,
    ) && (next.awaiting matches Awaiting::Package { id, .. } && id@ == registry_name@ + "@"@
        + version@)
    &&& action matches ResolveAction::FetchVersion { registry_name, version_req } ==> (next.awaiting matches Awaiting::Version(d)
        && d.registry_name@ == registry_name@ && d.version_req@ == version_req@)
    &&& action matches ResolveAction::Resolved(rid) ==> has_key(next.nodes@, rid@)
}

/// One step of resolving: what came of the awaited work (or `Proceed`) moves the state on
/// and says what to do next.
/// - A selected version gives the package id `name@version`: a package resolved before is
///   taken as it is, otherwise the package is fetched (never one that is already resolved).
/// - A fetched package is put on top, and its dependencies are resolved one by one, in
///   order; when all are, it is recorded with what they resolved to, and it counts as
///   resolved for the package below it, or as the root's result.
#[verifier::rlimit(100)]
#[verifier::spinoff_prover]
pub fn resolve_step(state: Resolution, event: ResolveEvent) -> (r: (Resolution, ResolveAction))
    requires
        resolution_wf(state),
    ensures
        step_ok(state.nodes@, r.0, r.1),
{
    let Resolution { nodes, frames, awaiting } = state;
    let rest = Resolution { nodes, frames, awaiting: Awaiting::Proceed };
    assert(rest.nodes@ == state.nodes@ && rest.frames@ == state.frames@);
    match awaiting {
        Awaiting::Version(d) => match event {
            ResolveEvent::Version(version) => {
                assert(frames_wait_for(rest, d.crate_name@));
                on_version(rest, d, version)
            },
            _ => unexpected(rest, Awaiting::Version(d)),
        },
        Awaiting::Package { crate_name, id } => match event {
            ResolveEvent::Package(package) => {
                assert(frames_wait_for(rest, crate_name@));
                let r = on_package(rest, crate_name, id, package);
                proof {
                    lemma_step_ok_proceed(state.nodes@, r.0);
                }
                r
            },
            _ => unexpected(rest, Awaiting::Package { crate_name, id }),
        },
        Awaiting::Proceed => match event {
            ResolveEvent::Proceed => descend(rest),
            _ => unexpected(rest, Awaiting::Proceed),
        },
        Awaiting::Finished(id) => unexpected(rest, Awaiting::Finished(id)),
    }
}

/// An event that does not answer what the state waits for leaves the state as it was.
fn unexpected(mut state: Resolution, awaiting: Awaiting) -> (r: (Resolution, ResolveAction))
    requires
        resolution_wf(Resolution { nodes: state.nodes, frames: state.frames, awaiting }),
    ensures
        step_ok(state.nodes@, r.0, r.1),
{
    proof {
        reveal(step_ok);
    }
    state.awaiting = awaiting;
    (state, ResolveAction::Unexpected)
}

/// The frames of a state are sound and chained, and the top one waits for `crate_name`.
pub open spec fn frames_wait_for(state: Resolution, crate_name: Seq<char>) -> bool {
    &&& nodes_wf(state.nodes@)
    &&& forall|i: int| 0 <= i < state.frames@.len() ==> frame_ok(state.nodes@, #[trigger] state.frames@[i])
    &&& forall|i: int|
        0 <= i < state.frames@.len() - 1 ==> waits_for(
            #[trigger] state.frames@[i],
            state.frames@[i + 1].crate_name@,
        )
    &&& state.frames@.len() > 0 ==> waits_for(state.frames@.last(), crate_name)
}

/// The version selected for dependency `d`.
#[verifier::rlimit(60)]
#[verifier::spinoff_prover]
fn on_version(mut state: Resolution, d: DependencySpec, version: String) -> (r: (Resolution, ResolveAction))
    requires
        frames_wait_for(state, d.crate_name@),
    ensures
        step_ok(state.nodes@, r.0, r.1),
{
    proof {
        reveal(step_ok);
    }
    let id = package_id(d.registry_name.as_str(), version.as_str());
    match table_find(&state.nodes, id.as_str()) {
        Some(_) => {
            assert(has_key(state.nodes@, id@));
            attach(state, copy(&d.crate_name), id)
        },
        None => {
            let action = ResolveAction::FetchPackage {
                registry_name: copy(&d.registry_name),
                version: copy(&version),
            };
            state.awaiting = Awaiting::Package { crate_name: copy(&d.crate_name), id };
            (state, action)
        },
    }
}

/// The fetched package of id `id`, which its dependent calls `crate_name`.
#[verifier::rlimit(60)]
#[verifier::spinoff_prover]
fn on_package(mut state: Resolution, crate_name: String, id: String, package: RegistryPackage) -> (r: (
    Resolution,
    ResolveAction,
))
    requires
        frames_wait_for(state, crate_name@),
    ensures
        resolution_wf(r.0),
        r.0.nodes@ == state.nodes@,
        r.1 is Proceed,
{
    let ghost orig = state.frames@;
    state.awaiting = Awaiting::Proceed;
    state.frames.push(ResolveFrame { crate_name, id, package, resolved: Vec::new() });
    proof {
        assert forall|i: int| 0 <= i < state.frames@.len() implies frame_ok(
            state.nodes@,
            #[trigger] state.frames@[i],
        ) by {
            if i < orig.len() {
                assert(state.frames@[i] == orig[i]);
            }
        }
        assert forall|i: int| 0 <= i < state.frames@.len() - 1 implies waits_for(
            #[trigger] state.frames@[i],
            state.frames@[i + 1].crate_name@,
        ) by {
            assert(state.frames@[i] == orig[i]);
            if i + 1 < orig.len() {
                assert(state.frames@[i + 1] == orig[i + 1]);
            }
        }
    }
    (state, ResolveAction::Proceed)
}


/// A step that only goes on, leaving the resolved packages as they were, keeps its promises.
proof fn lemma_step_ok_proceed(old_nodes: Seq<(String, ResolvedNode)>, next: Resolution)
    requires
        resolution_wf(next),
        next.nodes@ == old_nodes,
    ensures
        step_ok(old_nodes, next, ResolveAction::Proceed),
{
    reveal(step_ok);
}

// ---------------------------------------------------------------------------------------
// Compiling the resolved packages.
/// A package being compiled: the name its dependent uses for it, its id, and the compiled
/// artifacts of its first dependencies as `(crate name, id, output path)`.
pub struct CompileFrame {
    pub extern_name: String,
    pub id: String,
    pub artifacts: Vec<(String, String, String)>,
}

/// The state of compiling one root package: the outputs of the packages compiled so far,
/// by id, and the packages under way, each waiting for the one above it.
pub struct CompileRun {
    pub compiled: Vec<(String, String)>,
    pub frames: Vec<CompileFrame>,
}

/// What the caller hands back.
pub enum CompileEvent {
    /// Nothing: the step asked to go on.
    Proceed,
    /// The package asked for was compiled to this output.
    Compiled(String),
}

/// What the caller does next.
pub enum CompileAction {
    /// Call the next step with `Proceed`.
    Proceed,
    /// Compile the package `id` against these dependency artifacts, as `(crate name, id,
    /// output path)`.
    Compile { id: String, artifacts: Vec<(String, String, String)> },
    /// The root package is compiled to this output.
    Done(String),
    /// No resolved package has this id.
    Missing(String),
    /// The event does not answer what the state waits for.
    Unexpected,
}

/// The dependencies of the resolved package `id`.
pub open spec fn deps_of(nodes: Seq<(String, ResolvedNode)>, id: Seq<char>) -> Seq<(String, String)> {
    table_view(nodes)[id].dependencies@
}

/// The output of the compiled package `id`.
pub open spec fn output_of(compiled: Seq<(String, String)>, id: Seq<char>) -> Seq<char> {
    table_view(compiled)[id]@
}

/// `artifacts` are, in order, the first dependencies of the resolved package `id`, each
/// compiled, with its output.
pub open spec fn artifacts_ok(
    nodes: Seq<(String, ResolvedNode)>,
    compiled: Seq<(String, String)>,
    id: Seq<char>,
    artifacts: Seq<(String, String, String)>,
) -> bool {
    &&& has_key(nodes, id)
    &&& artifacts.len() <= deps_of(nodes, id).len()
    &&& forall|j: int|
        0 <= j < artifacts.len() ==> {
            let d = #[trigger] deps_of(nodes, id)[j];
            &&& artifacts[j].0@ == d.0@
            &&& artifacts[j].1@ == d.1@
            &&& table_view(compiled).dom().contains(d.1@)
            &&& artifacts[j].2@ == output_of(compiled, d.1@)
        }
}

/// The frame is the next dependency of the one below it.
pub open spec fn compile_waits_for(nodes: Seq<(String, ResolvedNode)>, below: CompileFrame, above: CompileFrame) -> bool {
    let k = below.artifacts@.len() as int;
    &&& k < deps_of(nodes, below.id@).len()
    &&& deps_of(nodes, below.id@)[k].0@ == above.extern_name@
    &&& deps_of(nodes, below.id@)[k].1@ == above.id@
}

pub open spec fn compile_wf(nodes: Seq<(String, ResolvedNode)>, run: CompileRun) -> bool {
    &&& nodes_wf(nodes)
    &&& table_wf(run.compiled@, false)
    &&& forall|i: int|
        0 <= i < run.frames@.len() ==> artifacts_ok(
            nodes,
            run.compiled@,
            (#[trigger] run.frames@[i]).id@,
            run.frames@[i].artifacts@,
        )
    &&& forall|i: int|
        0 <= i < run.frames@.len() - 1 ==> compile_waits_for(
            nodes,
            #[trigger] run.frames@[i],
            run.frames@[i + 1],
        )
}

/// What every compile step keeps and promises: the state stays well formed, what was
/// compiled stays compiled with the same output, and a package is compiled only when it is
/// not compiled yet and all its dependencies are, against exactly their outputs.
#[verifier::opaque]
pub open spec fn compile_ok(
    nodes: Seq<(String, ResolvedNode)>,
    old_compiled: Seq<(String, String)>,
    next: CompileRun,
    action: CompileAction,
) -> bool {
    &&& compile_wf(nodes, next)
    &&& forall|k: Seq<char>|
        #[trigger] table_view(old_compiled).dom().contains(k) ==> table_view(next.compiled@).dom().contains(k)
            && output_of(next.compiled@, k) == output_of(old_compiled, k)
    &&& action matches CompileAction::Compile { id, artifacts } ==> {
        &&& !table_view(next.compiled@).dom().contains(id@)
        &&& artifacts_ok(nodes, next.compiled@, id@, artifacts@)
        &&& artifacts@.len() == deps_of(nodes, id@).len()
    }
}

fn copy_artifacts(a: &Vec<(String, String, String)>) -> (r: Vec<(String, String, String)>)
    ensures
        r@.len() == a@.len(),
        forall|j: int|
            0 <= j < a@.len() ==> (#[trigger] r@[j]).0@ == a@[j].0@ && r@[j].1@ == a@[j].1@
                && r@[j].2@ == a@[j].2@,
{
    let mut r: Vec<(String, String, String)> = Vec::new();
    let mut i: usize = 0;
    while i < a.len()
        invariant
            i <= a@.len(),
            r@.len() == i,
            forall|j: int|
                0 <= j < i ==> (#[trigger] r@[j]).0@ == a@[j].0@ && r@[j].1@ == a@[j].1@
                    && r@[j].2@ == a@[j].2@,
        decreases a@.len() - i,
    {
        r.push((copy(&a[i].0), copy(&a[i].1), copy(&a[i].2)));
        i += 1;
    }
    r
}

/// Starts compiling the resolved package `id`, which its dependent calls `extern_name`:
/// done at once when it is compiled already.
pub fn start_compile(
    nodes: &Vec<(String, ResolvedNode)>,
    compiled: Vec<(String, String)>,
    extern_name: &String,
    id: &String,
) -> (r: (CompileRun, CompileAction))
    requires
        nodes_wf(nodes@),
        table_wf(compiled@, false),
    ensures
        compile_ok(nodes@, compiled@, r.0, r.1),
        r.0.compiled@ == compiled@,
        r.1 matches CompileAction::Done(path) ==> table_view(compiled@).dom().contains(id@)
            && path@ == output_of(compiled@, id@),
{
    proof {
        reveal(compile_ok);
    }
    match table_get(&compiled, id.as_str()) {
        Some(path) => {
            let out = copy(path);
            (CompileRun { compiled, frames: Vec::new() }, CompileAction::Done(out))
        },
        None => match table_find(nodes, id.as_str()) {
            None => (CompileRun { compiled, frames: Vec::new() }, CompileAction::Missing(copy(id))),
            Some(_) => {
                let mut frames: Vec<CompileFrame> = Vec::new();
                frames.push(CompileFrame { extern_name: copy(extern_name), id: copy(id), artifacts: Vec::new() });
                (CompileRun { compiled, frames }, CompileAction::Proceed)
            },
        },
    }
}

/// What is compiled stays compiled with the same output: artifacts stay sound.
proof fn lemma_artifacts_grow(
    nodes: Seq<(String, ResolvedNode)>,
    c1: Seq<(String, String)>,
    c2: Seq<(String, String)>,
    frames: Seq<CompileFrame>,
)
    requires
        forall|k: Seq<char>|
            #[trigger] table_view(c1).dom().contains(k) ==> table_view(c2).dom().contains(k)
                && output_of(c2, k) == output_of(c1, k),
        forall|i: int|
            0 <= i < frames.len() ==> artifacts_ok(nodes, c1, (#[trigger] frames[i]).id@, frames[i].artifacts@),
    ensures
        forall|i: int|
            0 <= i < frames.len() ==> artifacts_ok(nodes, c2, (#[trigger] frames[i]).id@, frames[i].artifacts@),
{
    assert forall|i: int| 0 <= i < frames.len() implies artifacts_ok(
        nodes,
        c2,
        (#[trigger] frames[i]).id@,
        frames[i].artifacts@,
    ) by {
        let f = frames[i];
        assert(artifacts_ok(nodes, c1, f.id@, f.artifacts@));
        assert forall|j: int| 0 <= j < f.artifacts@.len() implies {
            let d = #[trigger] deps_of(nodes, f.id@)[j];
            &&& f.artifacts@[j].0@ == d.0@
            &&& f.artifacts@[j].1@ == d.1@
            &&& table_view(c2).dom().contains(d.1@)
            &&& f.artifacts@[j].2@ == output_of(c2, d.1@)
        } by {
            let d = deps_of(nodes, f.id@)[j];
            assert(table_view(c1).dom().contains(d.1@));
        }
    }
}

/// The frame `done`, whose package is compiled to `path`, is handed to the package below
/// it, or is the root's result.
#[verifier::rlimit(60)]
#[verifier::spinoff_prover]
fn hand_up(nodes: &Vec<(String, ResolvedNode)>, mut run: CompileRun, done: CompileFrame, path: String) -> (r: (
    CompileRun,
    CompileAction,
))
    requires
        nodes_wf(nodes@),
        table_wf(run.compiled@, false),
        forall|i: int|
            0 <= i < run.frames@.len() ==> artifacts_ok(
                nodes@,
                run.compiled@,
                (#[trigger] run.frames@[i]).id@,
                run.frames@[i].artifacts@,
            ),
        forall|i: int|
            0 <= i < run.frames@.len() - 1 ==> compile_waits_for(
                nodes@,
                #[trigger] run.frames@[i],
                run.frames@[i + 1],
            ),
        run.frames@.len() > 0 ==> compile_waits_for(nodes@, run.frames@.last(), done),
        table_view(run.compiled@).dom().contains(done.id@),
        output_of(run.compiled@, done.id@) == path@,
    ensures
        compile_ok(nodes@, run.compiled@, r.0, r.1),
        r.0.compiled@ == run.compiled@,
        !(r.1 is Compile),
{
    proof {
        reveal(compile_ok);
    }
    let ghost orig = run.frames@;
    match run.frames.pop() {
        None => (run, CompileAction::Done(path)),
        Some(mut parent) => {
            assert(parent == orig.last());
            let ghost before = parent.artifacts@;
            parent.artifacts.push((done.extern_name, done.id, path));
            assert(artifacts_ok(nodes@, run.compiled@, parent.id@, parent.artifacts@)) by {
                assert forall|j: int| 0 <= j < parent.artifacts@.len() implies {
                    let d = #[trigger] deps_of(nodes@, parent.id@)[j];
                    &&& parent.artifacts@[j].0@ == d.0@
                    &&& parent.artifacts@[j].1@ == d.1@
                    &&& table_view(run.compiled@).dom().contains(d.1@)
                    &&& parent.artifacts@[j].2@ == output_of(run.compiled@, d.1@)
                } by {
                    if j < before.len() {
                        assert(parent.artifacts@[j] == before[j]);
                    }
                }
            }
            let ghost rest = run.frames@;
            run.frames.push(parent);
            assert forall|i: int| 0 <= i < run.frames@.len() implies artifacts_ok(
                nodes@,
                run.compiled@,
                (#[trigger] run.frames@[i]).id@,
                run.frames@[i].artifacts@,
            ) by {
                if i < rest.len() {
                    assert(run.frames@[i] == orig[i]);
                }
            }
            assert forall|i: int| 0 <= i < run.frames@.len() - 1 implies compile_waits_for(
                nodes@,
                #[trigger] run.frames@[i],
                run.frames@[i + 1],
            ) by {
                assert(run.frames@[i] == orig[i]);
                if i + 1 < rest.len() {
                    assert(run.frames@[i + 1] == orig[i + 1]);
                }
            }
            (run, CompileAction::Proceed)
        },
    }
}

/// With nothing to wait for: the top package takes the output of its next dependency that
/// is compiled, puts the next one that is not on top, or, with all of them compiled, asks to
/// be compiled (or, compiled meanwhile, is handed down).
#[verifier::rlimit(80)]
#[verifier::spinoff_prover]
fn proceed_compile(nodes: &Vec<(String, ResolvedNode)>, mut run: CompileRun) -> (r: (CompileRun, CompileAction))
    requires
        compile_wf(nodes@, run),
    ensures
        compile_ok(nodes@, run.compiled@, r.0, r.1),
        r.0.compiled@ == run.compiled@,
{
    proof {
        reveal(compile_ok);
    }
    let ghost orig = run.frames@;
    let mut top = match run.frames.pop() {
        None => {
            return (run, CompileAction::Unexpected);
        },
        Some(t) => t,
    };
    assert(top == orig.last());
    let ghost rest = run.frames@;
    assert(rest =~= orig.drop_last());
    let node = match table_get(nodes, top.id.as_str()) {
        None => {
            let id = copy(&top.id);
            run.frames.push(top);
            assert(run.frames@ =~= orig);
            return (run, CompileAction::Missing(id));
        },
        Some(n) => n,
    };
    assert(node.dependencies@ == deps_of(nodes@, top.id@));
    let k = top.artifacts.len();
    if k < node.dependencies.len() {
        let name = copy(&node.dependencies[k].0);
        let child = copy(&node.dependencies[k].1);
        proof {
            let i = choose|i: int| 0 <= i < nodes@.len() && (#[trigger] nodes@[i]).0@ == top.id@;
            crate::project::table::lemma_table_view_at(nodes@, i);
            assert(node_ok(nodes@, nodes@[i].1));
            assert(has_key(nodes@, node.dependencies@[k as int].1@));
        }
        match table_get(&run.compiled, child.as_str()) {
            Some(path) => {
                let out = copy(path);
                let ghost before = top.artifacts@;
                top.artifacts.push((name, child, out));
                assert(artifacts_ok(nodes@, run.compiled@, top.id@, top.artifacts@)) by {
                    assert forall|j: int| 0 <= j < top.artifacts@.len() implies {
                        let d = #[trigger] deps_of(nodes@, top.id@)[j];
                        &&& top.artifacts@[j].0@ == d.0@
                        &&& top.artifacts@[j].1@ == d.1@
                        &&& table_view(run.compiled@).dom().contains(d.1@)
                        &&& top.artifacts@[j].2@ == output_of(run.compiled@, d.1@)
                    } by {
                        if j < before.len() {
                            assert(top.artifacts@[j] == before[j]);
                        }
                    }
                }
                run.frames.push(top);
                proof {
                    lemma_top_replaced(nodes@, run.compiled@, orig, run.frames@);
                }
                (run, CompileAction::Proceed)
            },
            None => {
                run.frames.push(top);
                assert(run.frames@ =~= orig);
                let ghost middle = run.frames@;
                run.frames.push(CompileFrame { extern_name: name, id: child, artifacts: Vec::new() });
                proof {
                    assert forall|i: int| 0 <= i < run.frames@.len() implies artifacts_ok(
                        nodes@,
                        run.compiled@,
                        (#[trigger] run.frames@[i]).id@,
                        run.frames@[i].artifacts@,
                    ) by {
                        if i < middle.len() {
                            assert(run.frames@[i] == middle[i]);
                        }
                    }
                    assert forall|i: int| 0 <= i < run.frames@.len() - 1 implies compile_waits_for(
                        nodes@,
                        #[trigger] run.frames@[i],
                        run.frames@[i + 1],
                    ) by {
                        assert(run.frames@[i] == middle[i]);
                        if i + 1 < middle.len() {
                            assert(run.frames@[i + 1] == middle[i + 1]);
                        }
                    }
                }
                (run, CompileAction::Proceed)
            },
        }
    } else {
        match table_get(&run.compiled, top.id.as_str()) {
            Some(path) => {
                let out = copy(path);
                proof {
                    if rest.len() > 0 {
                        assert(rest.last() == orig[orig.len() - 2]);
                    }
                }
                hand_up(nodes, run, top, out)
            },
            None => {
                let artifacts = copy_artifacts(&top.artifacts);
                let id = copy(&top.id);
                run.frames.push(top);
                assert(run.frames@ =~= orig);
                (run, CompileAction::Compile { id, artifacts })
            },
        }
    }
}

/// Replacing the top frame by a sound one with the same id keeps the frames sound and
/// chained.
proof fn lemma_top_replaced(
    nodes: Seq<(String, ResolvedNode)>,
    compiled: Seq<(String, String)>,
    old_fs: Seq<CompileFrame>,
    new_fs: Seq<CompileFrame>,
)
    requires
        old_fs.len() > 0,
        new_fs.len() == old_fs.len(),
        forall|i: int| 0 <= i < old_fs.len() - 1 ==> new_fs[i] == old_fs[i],
        new_fs.last().id == old_fs.last().id,
        new_fs.last().extern_name == old_fs.last().extern_name,
        artifacts_ok(nodes, compiled, new_fs.last().id@, new_fs.last().artifacts@),
        forall|i: int|
            0 <= i < old_fs.len() ==> artifacts_ok(nodes, compiled, (#[trigger] old_fs[i]).id@, old_fs[i].artifacts@),
        forall|i: int| 0 <= i < old_fs.len() - 1 ==> compile_waits_for(nodes, #[trigger] old_fs[i], old_fs[i + 1]),
    ensures
        forall|i: int|
            0 <= i < new_fs.len() ==> artifacts_ok(nodes, compiled, (#[trigger] new_fs[i]).id@, new_fs[i].artifacts@),
        forall|i: int| 0 <= i < new_fs.len() - 1 ==> compile_waits_for(nodes, #[trigger] new_fs[i], new_fs[i + 1]),
{
    assert forall|i: int| 0 <= i < new_fs.len() implies artifacts_ok(
        nodes,
        compiled,
        (#[trigger] new_fs[i]).id@,
        new_fs[i].artifacts@,
    ) by {
        if i < old_fs.len() - 1 {
            assert(new_fs[i] == old_fs[i]);
        }
    }
    assert forall|i: int| 0 <= i < new_fs.len() - 1 implies compile_waits_for(nodes, #[trigger] new_fs[i], new_fs[i + 1]) by {
        assert(new_fs[i] == old_fs[i]);
        if i + 1 < old_fs.len() - 1 {
            assert(new_fs[i + 1] == old_fs[i + 1]);
        }
    }
}

/// The top package was compiled to `path`: it is recorded and handed down. Refused when the
/// top package still waits for a dependency or is compiled already.
#[verifier::rlimit(80)]
#[verifier::spinoff_prover]
fn on_compiled(nodes: &Vec<(String, ResolvedNode)>, mut run: CompileRun, path: String) -> (r: (CompileRun, CompileAction))
    requires
        compile_wf(nodes@, run),
    ensures
        compile_ok(nodes@, run.compiled@, r.0, r.1),
{
    proof {
        reveal(compile_ok);
    }
    let ghost orig = run.frames@;
    let ghost old_compiled = run.compiled@;
    let top = match run.frames.pop() {
        None => {
            return (run, CompileAction::Unexpected);
        },
        Some(t) => t,
    };
    assert(top == orig.last());
    assert(run.frames@ =~= orig.drop_last());
    let complete = match table_get(nodes, top.id.as_str()) {
        Some(node) => top.artifacts.len() == node.dependencies.len(),
        None => false,
    };
    let known = match table_find(&run.compiled, top.id.as_str()) {
        Some(_) => true,
        None => false,
    };
    if !complete || known {
        run.frames.push(top);
        assert(run.frames@ =~= orig);
        return (run, CompileAction::Unexpected);
    }
    assert(!table_view(old_compiled).dom().contains(top.id@));
    let out = copy(&path);
    table_insert(&mut run.compiled, copy(&top.id), path, false);
    proof {
        assert forall|k: Seq<char>| #[trigger] table_view(old_compiled).dom().contains(k) implies table_view(
            run.compiled@,
        ).dom().contains(k) && output_of(run.compiled@, k) == output_of(old_compiled, k) by {
            assert(k != top.id@);
        }
        lemma_artifacts_grow(nodes@, old_compiled, run.compiled@, run.frames@);
        if run.frames@.len() > 0 {
            assert(run.frames@.last() == orig[orig.len() - 2]);
        }
        assert(output_of(run.compiled@, top.id@) == out@);
    }
    let r = hand_up(nodes, run, top, out);
    proof {
        assert forall|k: Seq<char>| #[trigger] table_view(old_compiled).dom().contains(k) implies table_view(
            r.0.compiled@,
        ).dom().contains(k) && output_of(r.0.compiled@, k) == output_of(old_compiled, k) by {
            assert(k != top.id@);
        }
    }
    r
}

/// One step of compiling: what came of the awaited work (or `Proceed`) moves the state on
/// and says what to do next. A package is compiled only after every one of its
/// dependencies, against exactly their outputs, and each package is compiled once.
pub fn compile_step(nodes: &Vec<(String, ResolvedNode)>, run: CompileRun, event: CompileEvent) -> (r: (
    CompileRun,
    CompileAction,
))
    requires
        compile_wf(nodes@, run),
    ensures
        compile_ok(nodes@, run.compiled@, r.0, r.1),
{
    match event {
        CompileEvent::Proceed => proceed_compile(nodes, run),
        CompileEvent::Compiled(path) => on_compiled(nodes, run, path),
    }
}

} // verus!
