use r_module::detect::ScanContext;

fn ctx(names: &[&str]) -> ScanContext {
    ScanContext::new(names.iter().map(|n| String::from(*n)).collect())
}

fn r_ext() -> Vec<String> {
    vec![String::from("R")]
}

#[test]
fn empty_directory_does_not_match() {
    assert!(!ctx(&[]).is_match(&r_ext()));
}

#[test]
fn one_matching_file_matches() {
    assert!(ctx(&["analysis.R"]).is_match(&r_ext()));
}

#[test]
fn unrelated_files_do_not_match() {
    assert!(!ctx(&["main.c", "data.csv", "README"]).is_match(&r_ext()));
}

#[test]
fn one_match_among_many_files_matches() {
    assert!(ctx(&["main.c", "data.csv", "model.R", "README"]).is_match(&r_ext()));
}

#[test]
fn several_matches_also_match() {
    assert!(ctx(&["a.R", "b.R", "c.R"]).is_match(&r_ext()));
}

#[test]
fn extension_comparison_is_case_sensitive() {
    assert!(!ctx(&["script.r"]).is_match(&r_ext()));
}

#[test]
fn hidden_file_has_no_extension() {
    assert!(!ctx(&[".R"]).is_match(&r_ext()));
}

#[test]
fn only_the_last_dot_counts() {
    assert!(ctx(&["data.model.R"]).is_match(&r_ext()));
    assert!(!ctx(&["data.R.bak"]).is_match(&r_ext()));
}

#[test]
fn several_extensions_may_be_given() {
    let exts = vec![String::from("R"), String::from("Rmd")];
    assert!(ctx(&["notes.Rmd"]).is_match(&exts));
    assert!(!ctx(&["notes.md"]).is_match(&exts));
}
