//! Which version of a crate to fetch: the newest one that crates.io lists, or the greatest
//! listed version that meets a requirement, under `semver`'s rules.
use crate::project::manifest::{trim_chars, trim_spec};
use crate::text::{chars_of, push_str, string_of};
use vstd::prelude::*;

verus! {

/// Whether `semver` accepts `text` as a version.
pub uninterp spec fn semver_version_parses(text: Seq<char>) -> bool;

/// Whether the version `version` meets the requirement `requirement`, both read by
/// `semver`.
pub uninterp spec fn semver_requirement_matches(requirement: Seq<char>, version: Seq<char>) -> bool;

/// Whether the version `a` comes before the version `b` in `semver`'s order of versions.
pub uninterp spec fn semver_precedes(a: Seq<char>, b: Seq<char>) -> bool;

/// How `semver` writes the requirement `requirement` back, `None` when it rejects it.
pub uninterp spec fn semver_requirement_text(requirement: Seq<char>) -> Option<Seq<char>>;

/// Whether `semver::Version::parse` accepts `text`. The contract claims only that the
/// outcome is a function of the text.
#[verifier::external_body]
fn version_parses(text: &str) -> (ok: bool)
    ensures
        ok == semver_version_parses(text@),
{
    semver::Version::parse(text).is_ok()
}

/// Reads `requirement` with `semver::VersionReq::parse` and `version` with
/// `semver::Version::parse` and asks `VersionReq::matches`; `false` when either is rejected.
/// The contract claims only that the outcome is a function of the two texts.
#[verifier::external_body]
fn requirement_matches(requirement: &str, version: &str) -> (ok: bool)
    ensures
        ok == semver_requirement_matches(requirement@, version@),
{
    match (semver::VersionReq::parse(requirement), semver::Version::parse(version)) {
        (Ok(r), Ok(v)) => r.matches(&v),
        _ => false,
    }
}

/// Reads both texts with `semver::Version::parse` and compares the versions with their
/// `Ord` (`<`); `false` when either is rejected. The contract claims only that the outcome
/// is a function of the two texts.
#[verifier::external_body]
fn precedes(a: &str, b: &str) -> (before: bool)
    ensures
        before == semver_precedes(a@, b@),
{
    match (semver::Version::parse(a), semver::Version::parse(b)) {
        (Ok(x), Ok(y)) => x < y,
        _ => false,
    }
}

/// Reads `requirement` with `semver::VersionReq::parse` and writes it back with its
/// `Display`; `None` when it is rejected. The contract claims only that the outcome is a
/// function of the text.
#[verifier::external_body]
fn requirement_text(requirement: &str) -> (text: Option<String>)
    ensures
        match text {
            Some(t) => semver_requirement_text(requirement@) == Some(t@),
            None => semver_requirement_text(requirement@) is None,
        },
{
    match semver::VersionReq::parse(requirement) {
        Ok(r) => Some(r.to_string()),
        Err(_) => None,
    }
}

/// The text of an optional string.
pub open spec fn opt_text(value: Option<String>) -> Option<Seq<char>> {
    match value {
        Some(v) => Some(v@),
        None => None,
    }
}

/// The version to add for a crate, from its crates.io metadata: its newest stable version
/// unless that is missing or blank, else its newest version.
pub open spec fn latest_version_spec(max_stable: Option<Seq<char>>, max_version: Option<Seq<char>>) -> Option<
    Seq<char>,
> {
    match max_stable {
        Some(v) => if trim_spec(v, false).len() > 0 {
            Some(v)
        } else {
            max_version
        },
        None => max_version,
    }
}

/// The version to add for a crate: see `latest_version_spec`; an error naming the crate
/// when crates.io gives none.
pub fn latest_version(crate_name: &str, max_stable: Option<String>, max_version: Option<String>) -> (r: Result<
    String,
    String,
>)
    ensures
        match latest_version_spec(opt_text(max_stable), opt_text(max_version)) {
            Some(v) => r matches Ok(t) && t@ == v,
            None => r matches Err(m) && m@ == "crates.io did not return a version for `"@
                + crate_name@ + "`"@,
        },
{
    let stable = match max_stable {
        Some(v) => {
            let t = trim_chars(&chars_of(v.as_str()), false);
            if t.len() > 0 {
                Some(v)
            } else {
                None
            }
        },
        None => None,
    };
    match stable {
        Some(v) => Ok(v),
        None => match max_version {
            Some(v) => Ok(v),
            None => {
                let mut m: Vec<char> = Vec::new();
                push_str(&mut m, "crates.io did not return a version for `");
                push_str(&mut m, crate_name);
                push_str(&mut m, "`");
                Err(string_of(&m))
            },
        },
    }
}

/// A cached version can be used when it is not blank.
pub fn usable_cached_version(version: &str) -> (ok: bool)
    ensures
        ok == (trim_spec(version@, false).len() > 0),
{
    trim_chars(&chars_of(version), false).len() > 0
}

/// A version as crates.io lists it.
pub struct ListedVersion {
    pub num: String,
    pub yanked: bool,
}

/// The versions that have not been yanked, in the order listed.
pub open spec fn unyanked(list: Seq<ListedVersion>) -> Seq<Seq<char>>
    decreases list.len(),
{
    if list.len() == 0 {
        seq![]
    } else {
        unyanked(list.drop_last()) + (if list.last().yanked {
            seq![]
        } else {
            seq![list.last().num@]
        })
    }
}

/// The versions that have not been yanked, in the order listed.
pub fn unyanked_versions(list: &Vec<ListedVersion>) -> (versions: Vec<String>)
    ensures
        versions@.map_values(|v: String| v@) == unyanked(list@),
{
    let mut versions: Vec<String> = Vec::new();
    let mut i: usize = 0;
    while i < list.len()
        invariant
            i <= list@.len(),
            versions@.map_values(|v: String| v@) == unyanked(list@.take(i as int)),
        decreases list@.len() - i,
    {
        assert(list@.take(i + 1).drop_last() =~= list@.take(i as int));
        let ghost before = versions@.map_values(|v: String| v@);
        if !list[i].yanked {
            versions.push(string_of(&chars_of(list[i].num.as_str())));
            assert(versions@.map_values(|v: String| v@) =~= before.push(list@[i as int].num@));
        } else {
            assert(versions@.map_values(|v: String| v@) =~= before + seq![]);
        }
        i += 1;
    }
    assert(list@.take(i as int) =~= list@);
    versions
}

/// The greatest version from the `k`-th on that parses and meets `requirement`, starting
/// from `best`: a later candidate replaces the best one when the best one precedes it.
pub open spec fn best_from(requirement: Seq<char>, versions: Seq<Seq<char>>, k: int, best: Option<Seq<char>>) -> Option<
    Seq<char>,
>
    decreases versions.len() - k,
{
    if k < 0 || k >= versions.len() {
        best
    } else {
        let v = versions[k];
        if semver_version_parses(v) && semver_requirement_matches(requirement, v) {
            best_from(
                requirement,
                versions,
                k + 1,
                match best {
                    Some(b) => if semver_precedes(b, v) {
                        Some(v)
                    } else {
                        Some(b)
                    },
                    None => Some(v),
                },
            )
        } else {
            best_from(requirement, versions, k + 1, best)
        }
    }
}

/// The greatest listed version that meets `requirement`.
pub open spec fn best_version(requirement: Seq<char>, versions: Seq<Seq<char>>) -> Option<Seq<char>> {
    best_from(requirement, versions, 0, None)
}

proof fn lemma_best_from_listed(requirement: Seq<char>, versions: Seq<Seq<char>>, k: int, best: Option<Seq<char>>)
    requires
        0 <= k <= versions.len(),
        best matches Some(b) ==> exists|j: int|
            0 <= j < k && versions[j] == b && semver_version_parses(b)
                && semver_requirement_matches(requirement, b),
        best is None ==> forall|j: int|
            0 <= j < k ==> !(semver_version_parses(#[trigger] versions[j])
                && semver_requirement_matches(requirement, versions[j])),
    ensures
        best_from(requirement, versions, k, best) matches Some(v) ==> exists|j: int|
            0 <= j < versions.len() && versions[j] == v && semver_version_parses(v)
                && semver_requirement_matches(requirement, v),
        best_from(requirement, versions, k, best) is None <==> forall|j: int|
            0 <= j < versions.len() ==> !(semver_version_parses(#[trigger] versions[j])
                && semver_requirement_matches(requirement, versions[j])),
    decreases versions.len() - k,
{
    if k < versions.len() {
        let v = versions[k];
        if semver_version_parses(v) && semver_requirement_matches(requirement, v) {
            let next = match best {
                Some(b) => if semver_precedes(b, v) {
                    Some(v)
                } else {
                    Some(b)
                },
                None => Some(v),
            };
            lemma_best_from_listed(requirement, versions, k + 1, next);
        } else {
            lemma_best_from_listed(requirement, versions, k + 1, best);
        }
    }
}

proof fn lemma_best_from_greatest(requirement: Seq<char>, versions: Seq<Seq<char>>, k: int, best: Option<Seq<char>>)
    requires
        0 <= k <= versions.len(),
        forall|a: Seq<char>| semver_version_parses(a) ==> !#[trigger] semver_precedes(a, a),
        forall|a: Seq<char>, b: Seq<char>, c: Seq<char>|
            #![trigger semver_precedes(a, b), semver_precedes(b, c)]
            semver_version_parses(a) && semver_version_parses(b) && semver_version_parses(c)
                && semver_precedes(a, b) && semver_precedes(b, c) ==> semver_precedes(a, c),
        best matches Some(b) ==> semver_version_parses(b) && forall|j: int|
            0 <= j < k && semver_version_parses(#[trigger] versions[j])
                && semver_requirement_matches(requirement, versions[j]) ==> !semver_precedes(b, versions[j]),
        best is None ==> forall|j: int|
            0 <= j < k ==> !(semver_version_parses(#[trigger] versions[j])
                && semver_requirement_matches(requirement, versions[j])),
    ensures
        best_from(requirement, versions, k, best) matches Some(v) ==> forall|j: int|
            0 <= j < versions.len() && semver_version_parses(#[trigger] versions[j])
                && semver_requirement_matches(requirement, versions[j]) ==> !semver_precedes(v, versions[j]),
    decreases versions.len() - k,
{
    if k < versions.len() {
        let v = versions[k];
        if semver_version_parses(v) && semver_requirement_matches(requirement, v) {
            let next = match best {
                Some(b) => if semver_precedes(b, v) {
                    Some(v)
                } else {
                    Some(b)
                },
                None => Some(v),
            };
            assert forall|j: int|
                0 <= j < k + 1 && semver_version_parses(#[trigger] versions[j])
                    && semver_requirement_matches(requirement, versions[j]) implies !semver_precedes(
                next.unwrap(),
                versions[j],
            ) by {
                match best {
                    Some(b) => {
                        if semver_precedes(b, v) && j < k && semver_precedes(v, versions[j]) {
                            assert(semver_precedes(b, versions[j]));
                        }
                    },
                    None => {},
                }
            }
            lemma_best_from_greatest(requirement, versions, k + 1, next);
        } else {
            lemma_best_from_greatest(requirement, versions, k + 1, best);
        }
    }
}

/// The version chosen for a requirement is one of the listed versions, parses and meets the
/// requirement; and one is chosen exactly when some listed version parses and meets it.
pub proof fn lemma_best_version_listed(requirement: Seq<char>, versions: Seq<Seq<char>>)
    ensures
        best_version(requirement, versions) matches Some(v) ==> exists|j: int|
            0 <= j < versions.len() && versions[j] == v && semver_version_parses(v)
                && semver_requirement_matches(requirement, v),
        best_version(requirement, versions) is Some <==> exists|j: int|
            0 <= j < versions.len() && semver_version_parses(#[trigger] versions[j])
                && semver_requirement_matches(requirement, versions[j]),
{
    lemma_best_from_listed(requirement, versions, 0, None);
}

/// Where `semver`'s order of versions is a strict order (no version precedes itself, and
/// it is transitive), no listed version that parses and meets the requirement comes after
/// the chosen one: the chosen version is the greatest match, wherever it stands in the list.
pub proof fn lemma_best_version_greatest(requirement: Seq<char>, versions: Seq<Seq<char>>)
    requires
        forall|a: Seq<char>| semver_version_parses(a) ==> !#[trigger] semver_precedes(a, a),
        forall|a: Seq<char>, b: Seq<char>, c: Seq<char>|
            #![trigger semver_precedes(a, b), semver_precedes(b, c)]
            semver_version_parses(a) && semver_version_parses(b) && semver_version_parses(c)
                && semver_precedes(a, b) && semver_precedes(b, c) ==> semver_precedes(a, c),
    ensures
        best_version(requirement, versions) matches Some(v) ==> forall|j: int|
            0 <= j < versions.len() && semver_version_parses(#[trigger] versions[j])
                && semver_requirement_matches(requirement, versions[j]) ==> !semver_precedes(v, versions[j]),
{
    lemma_best_from_greatest(requirement, versions, 0, None);
}

/// The message for a requirement that no listed version meets: the requirement as
/// `semver` writes it (or as given, where `semver` rejects it) and the crate.
pub open spec fn unmatched_message(requirement: Seq<char>, crate_name: Seq<char>) -> Seq<char> {
    "no crates.io version matched `"@ + match semver_requirement_text(requirement) {
        Some(t) => t,
        None => requirement,
    } + "` for dependency `"@ + crate_name + "`"@
}

/// The greatest listed version that meets `requirement` (see `best_version`), or an error
/// when none does.
pub fn select_required_version(versions: &Vec<String>, requirement: &str, crate_name: &str) -> (r: Result<
    String,
    String,
>)
    ensures
        match best_version(requirement@, versions@.map_values(|v: String| v@)) {
            Some(v) => r matches Ok(t) && t@ == v,
            None => r matches Err(m) && m@ == unmatched_message(requirement@, crate_name@),
        },
{
    let ghost vs = versions@.map_values(|v: String| v@);
    let mut best: Option<String> = None;
    let mut k: usize = 0;
    while k < versions.len()
        invariant
            k <= versions@.len(),
            vs == versions@.map_values(|v: String| v@),
            best_version(requirement@, vs) == best_from(requirement@, vs, k as int, opt_text(best)),
        decreases versions@.len() - k,
    {
        let v = versions[k].as_str();
        assert(vs[k as int] == v@);
        if version_parses(v) && requirement_matches(requirement, v) {
            let replace = match &best {
                Some(b) => precedes(b.as_str(), v),
                None => true,
            };
            if replace {
                best = Some(string_of(&chars_of(v)));
            }
        }
        k += 1;
    }
    match best {
        Some(b) => Ok(b),
        None => {
            let shown = match requirement_text(requirement) {
                Some(t) => t,
                None => string_of(&chars_of(requirement)),
            };
            let mut m: Vec<char> = Vec::new();
            push_str(&mut m, "no crates.io version matched `");
            push_str(&mut m, shown.as_str());
            push_str(&mut m, "` for dependency `");
            push_str(&mut m, crate_name);
            push_str(&mut m, "`");
            Err(string_of(&m))
        },
    }
}

} // verus!
