use pytron::patterns::{
    archive_entry_name, base_name, compose_ignore_rules, is_excluded, parse_ignore_file,
    pattern_matches,
};

fn strings(v: &[&str]) -> Vec<String> {
    v.iter().map(|s| s.to_string()).collect()
}

/// Walks a listing of (relative path, is file) the way packing does and returns the stored names.
fn pack_listing(rules: &Vec<String>, listing: &[(&str, bool)]) -> Vec<String> {
    listing
        .iter()
        .filter_map(|(path, is_file)| archive_entry_name(rules, path, false, *is_file))
        .collect()
}

#[test]
fn extension_patterns_look_at_the_base_name() {
    assert!(pattern_matches("*.log", "ignored.log"));
    assert!(pattern_matches("*.log", "deep/dir/x.log"));
    assert!(!pattern_matches("*.log", "x.log/readme.txt"));
    assert!(!pattern_matches("*.log", "log"));
    assert!(pattern_matches("*.tar.gz", "a/b.tar.gz"));
}

#[test]
fn middle_prefix_suffix_and_exact_patterns() {
    assert!(pattern_matches("*custom_ignore*", "subdir/custom_ignore.txt"));
    assert!(!pattern_matches("*custom_ignore*", "subdir/custom.txt"));
    assert!(pattern_matches("build*", "build/out.o"));
    assert!(!pattern_matches("build*", "src/build"));
    assert!(pattern_matches("*_test.py", "pkg/a_test.py"));
    assert!(!pattern_matches("*_test.py", "pkg/a_test.pyc"));
    assert!(pattern_matches(".git", ".git"));
    assert!(!pattern_matches(".git", ".git/HEAD"));
    assert!(pattern_matches("*", "anything"));
    assert!(pattern_matches("**", "*x"));
    assert!(!pattern_matches("**", "x"));
}

#[test]
fn backslashes_count_as_slashes() {
    assert!(pattern_matches("subdir/helper.py", "subdir\\helper.py"));
    assert!(pattern_matches("subdir/*", "subdir\\helper.py"));
    assert!(pattern_matches("*.py", "a\\b\\c.py"));
    assert_eq!(base_name("a/b/c.txt"), "c.txt");
    assert_eq!(base_name("a/b/"), "");
    assert_eq!(base_name("plain"), "plain");
}

#[test]
fn ignore_file_lines_are_trimmed_and_filtered() {
    let rules = parse_ignore_file("*.log\n\n  # comment\n\t*.tmp  \r\n#x\nbuild*");
    assert_eq!(rules, vec!["*.log", "*.tmp", "build*"]);
    assert!(parse_ignore_file("").is_empty());
    assert_eq!(parse_ignore_file("\u{3000}a\u{a0}\n"), vec!["a"]);
}

#[test]
fn rule_lists_in_each_mode() {
    assert_eq!(compose_ignore_rules(Some("*.log\n"), None), vec!["*.log", ".git"]);
    assert_eq!(compose_ignore_rules(None, None), vec![".git"]);
    let user = strings(&["node_modules", "*.tmp"]);
    assert_eq!(compose_ignore_rules(Some("*.log"), Some(&user)), vec!["*.log", ".git", "node_modules", "*.tmp"]);
    assert_eq!(compose_ignore_rules(None, Some(&user)), vec![".git", "node_modules", "*.tmp"]);
    let overriding = strings(&[""]);
    assert_eq!(compose_ignore_rules(Some("*.log"), Some(&overriding)), vec!["*.log"]);
    assert!(compose_ignore_rules(None, Some(&overriding)).is_empty());
}

#[test]
fn pack_keeps_sources_and_drops_ignored_files() {
    let rules = compose_ignore_rules(Some("*.log"), None);
    let names = pack_listing(&rules, &[("", false), ("a.py", true), (".gitignore", true), ("b.log", true)]);
    assert_eq!(names, vec!["a.py", ".gitignore"]);
}

#[test]
fn pack_override_keeps_git_but_honours_the_ignore_file() {
    let overriding = strings(&[""]);
    let rules = compose_ignore_rules(Some("*.log\n*.tmp\n"), Some(&overriding));
    assert!(!is_excluded(&rules, ".git"));
    let names = pack_listing(
        &rules,
        &[(".git", false), (".git/HEAD", true), ("ignored.log", true), ("main.py", true)],
    );
    assert_eq!(names, vec![".git/HEAD", "main.py"]);
    let defaults = compose_ignore_rules(Some("*.log\n*.tmp\n"), None);
    assert!(is_excluded(&defaults, ".git"));
}

#[test]
fn pack_skips_the_output_archive_and_directories() {
    let rules = compose_ignore_rules(None, None);
    assert_eq!(archive_entry_name(&rules, "out.zip", true, true), None);
    assert_eq!(archive_entry_name(&rules, "subdir", false, false), None);
    assert_eq!(archive_entry_name(&rules, "subdir\\helper.py", false, true), Some("subdir/helper.py".to_string()));
    let custom = strings(&["*custom_ignore*"]);
    let rules = compose_ignore_rules(Some("*.log\n*.tmp\n"), Some(&custom));
    assert_eq!(archive_entry_name(&rules, "subdir/custom_ignore.txt", false, true), None);
    assert_eq!(archive_entry_name(&rules, "ignored.log", false, true), None);
    assert_eq!(archive_entry_name(&rules, "subdir/helper.py", false, true), Some("subdir/helper.py".to_string()));
}
