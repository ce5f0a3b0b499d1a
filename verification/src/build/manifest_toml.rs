//! Reading a `Cargo.toml` (or a project's dependency section) with the `toml` crate: what
//! `toml` parses is named; which entries and fields the library takes from it is verified.
use crate::build::dependencies::{DependencyValue, RegistryManifest, entries_view};
use crate::text::{chars_of, string_of};
use vstd::prelude::*;

verus! {

/// What `toml` reads of a document's `[package]` and `[lib]` tables: whether `package` is a
/// table, then `package.edition`, `lib.path` and `lib.name` where they are strings and
/// `lib.proc-macro` where it is a boolean; or the parser's error message.
pub uninterp spec fn toml_package_fields(text: Seq<char>) -> Result<
    (bool, Option<Seq<char>>, Option<Seq<char>>, Option<Seq<char>>, Option<bool>),
    Seq<char>,
>;

/// The keys of a document's `[dependencies]` table as `toml` lists them (none when there is
/// no such table), or the parser's error message.
pub uninterp spec fn toml_dependency_keys(text: Seq<char>) -> Result<Seq<Seq<char>>, Seq<char>>;

/// The entry `name` of a document's `[dependencies]` table as `toml` reads it, `None` when
/// the document does not parse or has no such entry.
pub uninterp spec fn toml_dependency_entry(text: Seq<char>, name: Seq<char>) -> Option<
    DependencyValue,
>;

/// Parses `text` with `toml::from_str` into a `toml::Value` and picks `package` and `lib`
/// (`Value::get`, `Value::as_table`), then `edition`, `path` and `name` as strings
/// (`Value::as_str`) and `proc-macro` as a boolean (`Value::as_bool`); a parse error becomes
/// its `Display` text. The contract claims that the outcome is a function of the text.
#[verifier::external_body]
fn package_fields(text: &str) -> (r: Result<
    (bool, Option<String>, Option<String>, Option<String>, Option<bool>),
    String,
>)
    ensures
        fields_view(r) == toml_package_fields(text@),
{
    let value: toml::Value = toml::from_str(text).map_err(|error| error.to_string())?;
    let package = value.get("package").and_then(toml::Value::as_table);
    let lib = value.get("lib").and_then(toml::Value::as_table);
    let text_of = |t: Option<&toml::Table>, key: &str| {
        t.and_then(|t| t.get(key)).and_then(toml::Value::as_str).map(str::to_string)
    };
    let proc_macro = lib.and_then(|t| t.get("proc-macro")).and_then(toml::Value::as_bool);
    Ok((package.is_some(), text_of(package, "edition"), text_of(lib, "path"), text_of(lib, "name"), proc_macro))
}

/// Parses `text` with `toml::from_str` into a `toml::Value` and lists the keys of its
/// `dependencies` table (`Value::get`, `Value::as_table`, `Map::keys`), in the order of
/// `toml`'s map (sorted, as the crate is built without `preserve_order`); a parse error
/// becomes its `Display` text. The contract claims that the outcome is a function of the
/// text.
#[verifier::external_body]
fn dependency_keys(text: &str) -> (r: Result<Vec<String>, String>)
    ensures
        keys_view(r) == toml_dependency_keys(text@),
{
    match toml::from_str::<toml::Value>(text) {
        Ok(value) => match value.get("dependencies").and_then(toml::Value::as_table) {
            Some(table) => Ok(table.keys().cloned().collect()),
            None => Ok(Vec::new()),
        },
        Err(error) => Err(error.to_string()),
    }
}

/// Parses `text` with `toml::from_str` and picks the entry `name` of its `dependencies`
/// table: a string as `Version`, a table as `Table` (with `optional` as a boolean, whether
/// `path`, `git` and `workspace` are keys, and `package` and `version` as strings), anything
/// else as `Other`. The contract claims that the outcome is a function of the two texts.
#[verifier::external_body]
fn dependency_entry(text: &str, name: &str) -> (r: Option<DependencyValue>)
    ensures
        r == toml_dependency_entry(text@, name@),
{
    let value: toml::Value = toml::from_str(text).ok()?;
    Some(match value.get("dependencies")?.get(name)? {
        toml::Value::String(version) => DependencyValue::Version(version.clone()),
        toml::Value::Table(t) => DependencyValue::Table {
            optional: t.get("optional").and_then(toml::Value::as_bool),
            has_path: t.contains_key("path"),
            has_git: t.contains_key("git"),
            has_workspace: t.contains_key("workspace"),
            package: t.get("package").and_then(toml::Value::as_str).map(str::to_string),
            version: t.get("version").and_then(toml::Value::as_str).map(str::to_string),
        },
        _ => DependencyValue::Other,
    })
}

pub open spec fn opt_text(o: Option<String>) -> Option<Seq<char>> {
    match o {
        Some(s) => Some(s@),
        None => None,
    }
}

pub open spec fn fields_view(
    r: Result<(bool, Option<String>, Option<String>, Option<String>, Option<bool>), String>,
) -> Result<(bool, Option<Seq<char>>, Option<Seq<char>>, Option<Seq<char>>, Option<bool>), Seq<char>> {
    match r {
        Ok((p, e, lp, ln, pm)) => Ok((p, opt_text(e), opt_text(lp), opt_text(ln), pm)),
        Err(m) => Err(m@),
    }
}

pub open spec fn keys_view(r: Result<Vec<String>, String>) -> Result<Seq<Seq<char>>, Seq<char>> {
    match r {
        Ok(v) => Ok(v@.map_values(|k: String| k@)),
        Err(m) => Err(m@),
    }
}

/// What the library reads of a dependency table entry: what `toml` gives for it, read as
/// anything else if `toml` does not find the listed key again.
pub open spec fn entry_value(text: Seq<char>, name: Seq<char>) -> DependencyValue {
    match toml_dependency_entry(text, name) {
        Some(v) => v,
        None => DependencyValue::Other,
    }
}

/// The entries of a document's `[dependencies]` table, in `toml`'s order, or the parser's
/// error message.
pub open spec fn dependency_entries_spec(text: Seq<char>) -> Result<
    Seq<(Seq<char>, DependencyValue)>,
    Seq<char>,
> {
    match toml_dependency_keys(text) {
        Ok(keys) => Ok(keys.map_values(|k: Seq<char>| (k, entry_value(text, k)))),
        Err(e) => Err(e),
    }
}

/// The entries of the `[dependencies]` table of a TOML document: each key with what its
/// value holds.
pub fn dependency_entries(text: &str) -> (r: Result<Vec<(String, DependencyValue)>, String>)
    ensures
        match r {
            Ok(v) => dependency_entries_spec(text@) == Ok::<
                Seq<(Seq<char>, DependencyValue)>,
                Seq<char>,
            >(entries_view(v@)),
            Err(m) => dependency_entries_spec(text@) == Err::<
                Seq<(Seq<char>, DependencyValue)>,
                Seq<char>,
            >(m@),
        },
{
    let keys = match dependency_keys(text) {
        Ok(keys) => keys,
        Err(m) => {
            return Err(m);
        },
    };
    let ghost kv = keys@.map_values(|k: String| k@);
    let mut out: Vec<(String, DependencyValue)> = Vec::new();
    let mut i: usize = 0;
    while i < keys.len()
        invariant
            i <= keys@.len(),
            kv == keys@.map_values(|k: String| k@),
            toml_dependency_keys(text@) == Ok::<Seq<Seq<char>>, Seq<char>>(kv),
            entries_view(out@) =~= kv.take(i as int).map_values(
                |k: Seq<char>| (k, entry_value(text@, k)),
            ),
        decreases keys@.len() - i,
    {
        let value = match dependency_entry(text, keys[i].as_str()) {
            Some(v) => v,
            None => DependencyValue::Other,
        };
        assert(value == entry_value(text@, kv[i as int]));
        let key = string_of(&chars_of(keys[i].as_str()));
        let ghost before = entries_view(out@);
        out.push((key, value));
        proof {
            assert(kv.take(i + 1) =~= kv.take(i as int).push(kv[i as int]));
            assert(entries_view(out@) =~= before.push((key@, value)));
            assert(kv.take(i + 1).map_values(|k: Seq<char>| (k, entry_value(text@, k))) =~= kv.take(
                i as int,
            ).map_values(|k: Seq<char>| (k, entry_value(text@, k))).push(
                (kv[i as int], entry_value(text@, kv[i as int])),
            ));
        }
        assert(entries_view(out@) =~= kv.take(i + 1).map_values(
            |k: Seq<char>| (k, entry_value(text@, k)),
        ));
        i += 1;
    }
    assert(kv.take(i as int) =~= kv);
    Ok(out)
}

/// Reads what the library needs of a downloaded package's `Cargo.toml`: its `[package]`
/// and `[lib]` fields and its dependency entries; the parser's error message when the text
/// is not TOML.
pub fn parse_registry_manifest_text(text: &str) -> (r: Result<RegistryManifest, String>)
    ensures
        match (toml_package_fields(text@), dependency_entries_spec(text@)) {
            (Err(e), _) => r matches Err(m) && m@ == e,
            (Ok(_), Err(e)) => r matches Err(m) && m@ == e,
            (Ok((has_package, edition, lib_path, lib_name, proc_macro)), Ok(entries)) => r matches Ok(
                m,
            ) && m.has_package == has_package && opt_text(m.edition) == edition && opt_text(
                m.lib_path,
            ) == lib_path && opt_text(m.lib_name) == lib_name && m.proc_macro == proc_macro
                && entries_view(m.dependencies@) == entries,
        },
{
    let (has_package, edition, lib_path, lib_name, proc_macro) = match package_fields(text) {
        Ok(fields) => fields,
        Err(m) => {
            return Err(m);
        },
    };
    let dependencies = match dependency_entries(text) {
        Ok(entries) => entries,
        Err(m) => {
            return Err(m);
        },
    };
    Ok(RegistryManifest { has_package, edition, lib_path, lib_name, proc_macro, dependencies })
}

} // verus!
