use oxys::manifest::{Package, SystemManifest};
use oxys::package_check::{
    check_packages, levenshtein, normalize_atom, render_unknown_packages, suggestion_note_for,
    PackageCheckOutcome, PackageIndex, UnknownPackage,
};

fn index(entries: &[(&str, &[&str])]) -> PackageIndex {
    let mut index = PackageIndex::new();
    for (category, names) in entries {
        for name in names.iter() {
            index.insert(category, name);
        }
    }
    index
}

fn pair(category: &str, name: &str) -> Option<(String, String)> {
    Some((category.to_owned(), name.to_owned()))
}

#[test]
fn levenshtein_basics() {
    assert_eq!(levenshtein("", ""), 0);
    assert_eq!(levenshtein("abc", "abc"), 0);
    assert_eq!(levenshtein("abc", ""), 3);
    assert_eq!(levenshtein("", "abc"), 3);
    assert_eq!(levenshtein("kitten", "sitting"), 3);
    assert_eq!(levenshtein("clipboard", "clipbaord"), 2);
    assert_eq!(levenshtein("naïve", "naive"), 1);
}

#[test]
fn normalize_atom_handles_decorations() {
    assert_eq!(normalize_atom("net-misc/curl"), pair("net-misc", "curl"));
    assert_eq!(normalize_atom("=cat/foo-1.2.3"), pair("cat", "foo"));
    assert_eq!(normalize_atom(">=cat/foo-1.2.3-r1"), pair("cat", "foo"));
    assert_eq!(normalize_atom("cat/foo:4"), pair("cat", "foo"));
    assert_eq!(normalize_atom("cat/foo[flag,-other]"), pair("cat", "foo"));
    assert_eq!(
        normalize_atom("gui-apps/wl-clipboard"),
        pair("gui-apps", "wl-clipboard")
    );
    assert_eq!(normalize_atom("no-slash"), None);
    assert_eq!(normalize_atom("cat/"), None);
    assert_eq!(normalize_atom("/name"), None);
}

#[test]
fn suggests_close_name_in_same_category() {
    let idx = index(&[("gui-apps", &["wl-clipboard", "foot", "wlsunset"])]);
    assert_eq!(
        idx.suggest("gui-apps", "wl-clipbord"),
        vec!["gui-apps/wl-clipboard"]
    );
}

#[test]
fn exact_name_in_other_category_ranks_first() {
    let idx = index(&[("app-misc", &["curl"]), ("net-misc", &["curl", "curli"])]);
    let suggestions = idx.suggest("net-mist", "curl");
    assert_eq!(suggestions[0], "net-misc/curl");
    assert!(suggestions.contains(&"app-misc/curl".to_string()));
}

#[test]
fn distance_cap_excludes_junk() {
    let idx = index(&[("net-misc", &["curl", "rsync", "dhcpcd"])]);
    assert!(idx.suggest("net-misc", "firefox").is_empty());
}

#[test]
fn contains_checks_exact_pair() {
    let idx = index(&[("net-misc", &["curl"])]);
    assert!(idx.contains("net-misc", "curl"));
    assert!(!idx.contains("net-misc", "wget"));
    assert!(!idx.contains("app-misc", "curl"));
}

#[test]
fn suggestions_are_capped_at_three_and_ranked() {
    let idx = index(&[
        ("net-misc", &["curl", "curm", "curn", "curo"]),
        ("app-misc", &["curl"]),
    ]);
    let suggestions = idx.suggest("net-misc", "curk");
    assert_eq!(
        suggestions,
        vec!["net-misc/curl", "net-misc/curm", "net-misc/curn"]
    );
}

#[test]
fn inserting_twice_keeps_one_entry() {
    let mut idx = PackageIndex::new();
    idx.insert("net-misc", "curl");
    idx.insert("net-misc", "curl");
    idx.insert("app-misc", "curl");
    assert!(idx.contains("net-misc", "curl"));
    assert!(idx.contains("app-misc", "curl"));
    assert_eq!(idx.suggest("dev-misc", "curl"), vec!["net-misc/curl", "app-misc/curl"]);
}

#[test]
fn check_reports_unknown_atoms_with_suggestions() {
    let idx = index(&[("net-misc", &["curl"])]);
    let manifest = SystemManifest {
        packages: vec![
            Package::new("net-misc/curl"),
            Package::new("net-misc/curk"),
            Package::new("not-an-atom"),
        ],
        ..SystemManifest::default()
    };
    match check_packages(&manifest, Some(&idx), "/var/db/repos") {
        PackageCheckOutcome::Checked(unknown) => {
            assert_eq!(unknown.len(), 1);
            assert_eq!(unknown[0].atom, "net-misc/curk");
            assert_eq!(unknown[0].suggestions, vec!["net-misc/curl"]);
        }
        other => panic!("unexpected {other:?}"),
    }
    assert!(matches!(
        check_packages(&manifest, None, "/var/db/repos"),
        PackageCheckOutcome::NoPortageTree { ref tree } if tree == "/var/db/repos"
    ));
}

#[test]
fn suggestion_note_and_report_lines() {
    let idx = index(&[("net-misc", &["curl"])]);
    assert_eq!(
        suggestion_note_for("net-misc/curk", Some(&idx)),
        "; did you mean 'net-misc/curl'?"
    );
    assert_eq!(suggestion_note_for("net-misc/curl", Some(&idx)), "");
    assert_eq!(suggestion_note_for("net-misc/curk", None), "");
    let report = render_unknown_packages(&vec![
        UnknownPackage {
            atom: "a/b".to_owned(),
            suggestions: vec![],
        },
        UnknownPackage {
            atom: "c/d".to_owned(),
            suggestions: vec!["c/e".to_owned(), "c/f".to_owned()],
        },
    ]);
    assert_eq!(
        report,
        "unknown package 'a/b' (not found in any configured Portage repository)\nunknown package 'c/d' — did you mean 'c/e', 'c/f'?\n"
    );
}
