use oxys::config_source::{add_package_to_source, ConfigSourceError};

const SAMPLE: &str = r#"use oxys::prelude::*;

pub fn config() -> Oxys {
    Oxys {
        packages: vec![
            // core tools kept in @world
            Package::new("net-misc/curl"),
            Package::new("dev-vcs/git").keywords(["**"]),
        ],
        ..Default::default()
    }
}
"#;

#[test]
fn inserts_before_closing_bracket_with_matching_indent() {
    let out = add_package_to_source(SAMPLE, "app-editors/neovim")
        .unwrap()
        .expect("should insert");
    assert!(out.contains("            Package::new(\"app-editors/neovim\"),\n        ],"));
    assert!(out.contains("// core tools kept in @world"));
    assert!(out.contains("Package::new(\"dev-vcs/git\").keywords([\"**\"]),"));
}

#[test]
fn dedupes_existing_atom_even_with_builder_chain() {
    assert!(add_package_to_source(SAMPLE, "net-misc/curl").unwrap().is_none());
    assert!(add_package_to_source(SAMPLE, "dev-vcs/git").unwrap().is_none());
}

#[test]
fn nested_brackets_do_not_confuse_the_matcher() {
    let out = add_package_to_source(SAMPLE, "app-shells/fish").unwrap().unwrap();
    let neovim_at = out.find("app-shells/fish").unwrap();
    let close_at = out.find("],").unwrap();
    assert!(neovim_at < close_at);
}

#[test]
fn multiple_sequential_inserts_accumulate() {
    let step1 = add_package_to_source(SAMPLE, "app-editors/neovim").unwrap().unwrap();
    let step2 = add_package_to_source(&step1, "app-shells/fish").unwrap().unwrap();
    assert!(step2.contains("Package::new(\"app-editors/neovim\"),"));
    assert!(step2.contains("Package::new(\"app-shells/fish\"),"));
}

#[test]
fn expands_inline_empty_vec() {
    let src = "    Oxys { packages: vec![], ..Default::default() }";
    let out = add_package_to_source(src, "net-misc/curl").unwrap().unwrap();
    assert!(out.contains("Package::new(\"net-misc/curl\"),"));
}

#[test]
fn rejects_invalid_atoms() {
    assert!(matches!(
        add_package_to_source(SAMPLE, "-net-misc/curl"),
        Err(ConfigSourceError::InvalidAtom(_))
    ));
    assert!(matches!(
        add_package_to_source(SAMPLE, ""),
        Err(ConfigSourceError::InvalidAtom(_))
    ));
    assert!(matches!(
        add_package_to_source(SAMPLE, "bad\"atom"),
        Err(ConfigSourceError::InvalidAtom(_))
    ));
}

#[test]
fn errors_when_no_packages_vec() {
    let src = "pub fn config() -> Oxys { Oxys { ..Default::default() } }";
    assert!(matches!(
        add_package_to_source(src, "net-misc/curl"),
        Err(ConfigSourceError::NoPackagesVec)
    ));
}

#[test]
fn unterminated_vec_is_reported() {
    let src = "Oxys { packages: vec![ Package::new(\"a/b\"), ";
    assert_eq!(
        add_package_to_source(src, "net-misc/curl"),
        Err(ConfigSourceError::UnterminatedVec)
    );
}

#[test]
fn inline_vec_is_expanded_with_exact_layout() {
    let src = "    Oxys { packages: vec![], ..Default::default() }";
    let out = add_package_to_source(src, "  net-misc/curl ").unwrap().unwrap();
    assert_eq!(
        out,
        "    Oxys { packages: vec![\n        Package::new(\"net-misc/curl\"),\n    ], ..Default::default() }"
    );
}

#[test]
fn adding_twice_is_a_no_op_the_second_time() {
    let once = add_package_to_source(SAMPLE, "app-editors/neovim").unwrap().unwrap();
    assert!(add_package_to_source(&once, "app-editors/neovim").unwrap().is_none());
}

#[test]
fn brackets_in_strings_and_comments_are_ignored() {
    let src = "packages: vec![\n    // ] not the end\n    Package::new(\"x/y\").use_flags([\"]\"]),\n]\n";
    let out = add_package_to_source(src, "a/b").unwrap().unwrap();
    assert_eq!(
        out,
        "packages: vec![\n    // ] not the end\n    Package::new(\"x/y\").use_flags([\"]\"]),\n    Package::new(\"a/b\"),\n]\n"
    );
}

#[test]
fn invalid_atom_message_names_the_atom() {
    let error = add_package_to_source(SAMPLE, "bad\"atom").unwrap_err();
    assert_eq!(error.message(), "invalid package atom `bad\"atom`");
}

#[test]
fn inserts_accumulate_with_bracketed_use_dependency() {
    let step1 = add_package_to_source(SAMPLE, "dev-lang/python[sqlite]").unwrap().unwrap();
    let step2 = add_package_to_source(&step1, "app-shells/fish").unwrap().unwrap();
    assert!(step2.contains("Package::new(\"dev-lang/python[sqlite]\"),"));
    assert!(step2.contains("Package::new(\"app-shells/fish\"),"));
    for line in SAMPLE.lines() {
        assert!(step2.contains(line));
    }
    assert!(add_package_to_source(&step2, "dev-lang/python[sqlite]").unwrap().is_none());
}

#[test]
fn inline_vec_keeps_the_rest_of_its_line() {
    let src = "    Oxys { packages: vec![Package::new(\"net-misc/curl\")], ..Default::default() }";
    let out = add_package_to_source(src, "app-shells/fish").unwrap().unwrap();
    assert_eq!(
        out,
        "    Oxys { packages: vec![Package::new(\"net-misc/curl\")\n        \
         Package::new(\"app-shells/fish\"),\n    ], ..Default::default() }"
    );
}
