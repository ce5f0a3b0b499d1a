use zoxi::build::versions::{
    latest_version, select_required_version, unyanked_versions, usable_cached_version, ListedVersion,
};

fn listed(num: &str, yanked: bool) -> ListedVersion {
    ListedVersion { num: num.to_string(), yanked }
}

#[test]
fn latest_versions_prefer_stable_ones() {
    assert_eq!(
        latest_version("x", Some("1.2.0".to_string()), Some("2.0.0-rc.1".to_string())),
        Ok("1.2.0".to_string())
    );
    assert_eq!(
        latest_version("x", Some("  ".to_string()), Some("2.0.0-rc.1".to_string())),
        Ok("2.0.0-rc.1".to_string())
    );
    assert_eq!(latest_version("x", None, None), Err("crates.io did not return a version for `x`".to_string()));
    assert!(usable_cached_version("1.0.0"));
    assert!(!usable_cached_version(" "));
}

#[test]
fn yanked_versions_are_left_out() {
    let versions = unyanked_versions(&vec![listed("1.0.0", false), listed("1.5.0", true), listed("2.0.0", false)]);
    assert_eq!(versions, vec!["1.0.0".to_string(), "2.0.0".to_string()]);
}

#[test]
fn required_versions_pick_the_greatest_match() {
    let versions: Vec<String> = ["1.0.0", "1.2.3", "2.0.0", "not-a-version", "1.10.0", "1.11.0-beta.1"]
        .iter()
        .map(|v| v.to_string())
        .collect();
    assert_eq!(select_required_version(&versions, "^1", "x"), Ok("1.10.0".to_string()));
    assert_eq!(select_required_version(&versions, "*", "x"), Ok("2.0.0".to_string()));
    assert_eq!(select_required_version(&versions, "=1.2.3", "x"), Ok("1.2.3".to_string()));
    assert_eq!(
        select_required_version(&versions, "3", "x"),
        Err("no crates.io version matched `^3` for dependency `x`".to_string())
    );
}
