use mde::packages::{parse_check_update, pkg_matches, Pkg};

fn pkg(name: &'static str, package: &'static str) -> Pkg {
    Pkg { package, category: "Test", name, mandatory: false, installed: false }
}

#[test]
fn pkg_matches_name_and_id_case_insensitively() {
    let p = pkg("Web Browser (Firefox)", "firefox");
    assert!(pkg_matches(&p, ""));
    assert!(pkg_matches(&p, "browser"));
    assert!(pkg_matches(&p, "firefox"));
    assert!(pkg_matches(&p, "fire"));
    assert!(!pkg_matches(&p, "chrome"));
}

#[test]
fn parses_dnf_check_update_output() {
    let out = "\
Last metadata expiration check: 0:12:34 ago on Mon 02 Jun 2026.

bash.x86_64                  5.2.21-1.fc40            updates
vim-enhanced.x86_64          2:9.1.0-1.fc40           updates
kernel.x86_64                6.8.5-301.fc40           fedora

Obsoleting Packages
old-thing.noarch             1.0-1.fc40               updates
";
    let ups = parse_check_update(out);
    assert_eq!(ups.len(), 3, "three updates, obsoletes excluded");
    assert_eq!(ups[0].package, "bash.x86_64");
    assert_eq!(ups[0].version, "5.2.21-1.fc40");
    assert_eq!(ups[1].version, "2:9.1.0-1.fc40");
    assert_eq!(ups[2].package, "kernel.x86_64");
    assert!(!ups.iter().any(|u| u.package.starts_with("old-thing")));
}

#[test]
fn parses_empty_and_metadata_only_output() {
    assert!(parse_check_update("").is_empty());
    assert!(parse_check_update("Last metadata expiration check: now\n").is_empty());
}
