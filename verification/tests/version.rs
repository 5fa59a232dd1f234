use r_module::version::parse_version;

#[test]
fn test_parse_r_version() {
    let r_v3 = r#"r_version=R version 3.6.3 (2020-02-29) -- "Holding the Windsock"
        Copyright (C) 2020 The R Foundation for Statistical Computing
        Platform: x86_64-w64-mingw32/x64 (64-bit)
        
        R is free software and comes with ABSOLUTELY NO WARRANTY.
        You are welcome to redistribute it under the terms of the
        GNU General Public License versions 2 or 3.
        For more information about these matters see
        https://www.gnu.org/licenses/."#;
    assert_eq!(parse_version(r_v3), Some(String::from("v3.6.3")));
}

#[test]
fn test_parse_r_invalid_semantic_version() {
    let r_invalid = r#"r_version=R version 3.6.5.2 (2020-02-29) -- "Holding the Windsock"
        Copyright (C) 2020 The R Foundation for Statistical Computing
        Platform: x86_64-w64-mingw32/x64 (64-bit)
        
        R is free software and comes with ABSOLUTELY NO WARRANTY.
        You are welcome to redistribute it under the terms of the
        GNU General Public License versions 2 or 3.
        For more information about these matters see
        https://www.gnu.org/licenses/."#;
    assert_eq!(parse_version(r_invalid), None);
}

#[test]
fn first_occurrence_wins() {
    assert_eq!(
        parse_version("tool 1.2.3 built against 4.5.6 today"),
        Some(String::from("v1.2.3"))
    );
}

#[test]
fn whitespace_delimiters_may_be_tabs_and_newlines() {
    assert_eq!(parse_version("version:\t10.20.30\nrest"), Some(String::from("v10.20.30")));
}

#[test]
fn empty_text_has_no_version() {
    assert_eq!(parse_version(""), None);
}

#[test]
fn triplet_at_text_start_is_not_delimited() {
    assert_eq!(parse_version("3.6.3 here"), None);
}

#[test]
fn triplet_at_text_end_is_not_delimited() {
    assert_eq!(parse_version("version 3.6.3"), None);
}

#[test]
fn two_components_do_not_match() {
    assert_eq!(parse_version(" 3.6 "), None);
}

#[test]
fn four_components_do_not_match() {
    assert_eq!(parse_version(" 3.6.5.2 "), None);
}

#[test]
fn letter_before_triplet_blocks_the_match() {
    assert_eq!(parse_version("r3.6.3 "), None);
}

#[test]
fn prefixed_result_is_not_reextracted() {
    // The extractor's own full result starts with `v`, which is not
    // whitespace, so embedding it between spaces yields nothing.
    assert_eq!(parse_version(" v3.6.3 "), None);
}

#[test]
fn reembedded_triplet_extracts_to_the_same_result() {
    let first = parse_version("R version 3.6.3 (2020-02-29)").unwrap();
    assert_eq!(first, String::from("v3.6.3"));
    let triplet = &first[1..];
    let reembedded = format!(" {} ", triplet);
    assert_eq!(parse_version(&reembedded), Some(first));
}
