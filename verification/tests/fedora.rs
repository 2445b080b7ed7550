use mde::fedora::{dnf_remove_cmd, parse_packages};

#[test]
fn packages_parse_and_sort_largest_first() {
    let out = "\
firefox 250000000
bash 8000000
kernel-core 90000000
junkline
nosize abc
";
    let p = parse_packages(out);
    assert_eq!(p.len(), 3);
    assert_eq!(p[0].name, "firefox");
    assert_eq!(p[0].size, 250_000_000);
    assert_eq!(p[1].name, "kernel-core");
    assert_eq!(p[2].name, "bash");
}

#[test]
fn remove_cmd_is_dnf_remove() {
    assert_eq!(dnf_remove_cmd("htop"), vec!["dnf", "remove", "-y", "htop"]);
}
