use r_module::diag::{Diagnostics, Level};
use r_module::formatter::{compile, Element, VarBinding};

fn bindings(pairs: &[(&str, &str)]) -> Vec<VarBinding> {
    pairs
        .iter()
        .map(|(n, v)| VarBinding { name: String::from(*n), value: String::from(*v) })
        .collect()
}

#[test]
fn default_template_compiles_into_styled_elements() {
    let t = compile("via [R ${version}](blue bold) ").unwrap();
    assert_eq!(t.elements.len(), 4);
    match &t.elements[0] {
        Element::Text { text, style } => {
            assert_eq!(text, "via ");
            assert_eq!(style, "");
        }
        _ => panic!("expected text"),
    }
    match &t.elements[1] {
        Element::Text { text, style } => {
            assert_eq!(text, "R ");
            assert_eq!(style, "blue bold");
        }
        _ => panic!("expected text"),
    }
    match &t.elements[2] {
        Element::Variable { name, style } => {
            assert_eq!(name, "version");
            assert_eq!(style, "blue bold");
        }
        _ => panic!("expected variable"),
    }
    match &t.elements[3] {
        Element::Text { text, style } => {
            assert_eq!(text, " ");
            assert_eq!(style, "");
        }
        _ => panic!("expected text"),
    }
}

#[test]
fn unclosed_group_is_a_syntax_error() {
    assert!(compile("via [R ${version}").is_err());
}

#[test]
fn unclosed_placeholder_is_a_syntax_error() {
    assert!(compile("via ${version").is_err());
}

#[test]
fn dollar_without_brace_is_a_syntax_error() {
    assert!(compile("via $version").is_err());
}

#[test]
fn stray_closing_bracket_is_a_syntax_error() {
    assert!(compile("via ] there").is_err());
}

#[test]
fn group_without_style_is_a_syntax_error() {
    assert!(compile("[R]x").is_err());
}

#[test]
fn unclosed_style_is_a_syntax_error() {
    assert!(compile("[R](blue").is_err());
}

#[test]
fn nested_group_is_a_syntax_error() {
    assert!(compile("[a [b](c)](d)").is_err());
}

#[test]
fn empty_template_compiles_to_no_elements() {
    let t = compile("").unwrap();
    assert_eq!(t.elements.len(), 0);
}

#[test]
fn parentheses_outside_a_group_are_literal() {
    let t = compile("(plain)").unwrap();
    assert_eq!(t.elements.len(), 1);
    match &t.elements[0] {
        Element::Text { text, style } => {
            assert_eq!(text, "(plain)");
            assert_eq!(style, "");
        }
        _ => panic!("expected text"),
    }
}

#[test]
fn render_substitutes_a_bound_variable() {
    let t = compile("via [R ${version}](blue bold) ").unwrap();
    let mut diag = Diagnostics::new();
    let segs = t.render(&bindings(&[("version", "v3.6.3")]), &mut diag);
    assert_eq!(segs.len(), 4);
    assert_eq!(segs[2].value, "v3.6.3");
    assert_eq!(segs[2].style, "blue bold");
    assert_eq!(diag.entries.len(), 0);
}

#[test]
fn render_may_use_a_variable_twice() {
    let t = compile("${version}/${version}").unwrap();
    let mut diag = Diagnostics::new();
    let segs = t.render(&bindings(&[("version", "v1.2.3")]), &mut diag);
    assert_eq!(segs.len(), 3);
    assert_eq!(segs[0].value, "v1.2.3");
    assert_eq!(segs[1].value, "/");
    assert_eq!(segs[2].value, "v1.2.3");
}

#[test]
fn unknown_variable_is_omitted_with_a_debug_entry() {
    let t = compile("a${nope}b").unwrap();
    let mut diag = Diagnostics::new();
    let segs = t.render(&bindings(&[("version", "v1.2.3")]), &mut diag);
    assert_eq!(segs.len(), 2);
    assert_eq!(segs[0].value, "a");
    assert_eq!(segs[1].value, "b");
    assert_eq!(diag.entries.len(), 1);
    assert!(matches!(diag.entries[0].level, Level::Debug));
    assert_eq!(diag.entries[0].message, "unknown format string variable: nope");
    assert_eq!(diag.count_of(Level::Warn), 0);
}
