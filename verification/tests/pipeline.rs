use r_module::config::RConfig;
use r_module::detect::ScanContext;
use r_module::diag::{Diagnostics, Level};
use r_module::pipeline::{module, ModuleAction, ModuleEvent};

fn ctx(names: &[&str]) -> ScanContext {
    ScanContext::new(names.iter().map(|n| String::from(*n)).collect())
}

const R_V3: &str = r#"R version 3.6.3 (2020-02-29) -- "Holding the Windsock"
Copyright (C) 2020 The R Foundation for Statistical Computing"#;

const R_V4PART: &str = r#"R version 3.6.5.2 (2020-02-29) -- "Holding the Windsock"
Copyright (C) 2020 The R Foundation for Statistical Computing"#;

/// Drives the two-step pipeline the way a host would, counting how often the
/// version query actually runs.
fn run_pipeline(
    context: &ScanContext,
    config: &RConfig,
    query_answer: Option<&str>,
    query_runs: &mut usize,
    diag: &mut Diagnostics,
) -> ModuleAction {
    match module(context, config, &ModuleEvent::Scanned, diag) {
        ModuleAction::QueryVersion => {
            *query_runs += 1;
            let outcome = query_answer.map(String::from);
            module(context, config, &ModuleEvent::VersionQueried(outcome), diag)
        }
        other => other,
    }
}

#[test]
fn valid_tool_output_renders_the_version_badge() {
    let mut runs = 0usize;
    let mut diag = Diagnostics::new();
    let action = run_pipeline(
        &ctx(&["analysis.R"]),
        &RConfig::new(),
        Some(R_V3),
        &mut runs,
        &mut diag,
    );
    assert_eq!(runs, 1);
    let out = match action {
        ModuleAction::Output(m) => m,
        _ => panic!("expected rendered output"),
    };
    assert!(out.segments.iter().any(|s| s.value == "v3.6.3"));
    assert_eq!(diag.entries.len(), 0);
}

#[test]
fn four_component_output_yields_absence() {
    let mut runs = 0usize;
    let mut diag = Diagnostics::new();
    let action = run_pipeline(
        &ctx(&["analysis.R"]),
        &RConfig::new(),
        Some(R_V4PART),
        &mut runs,
        &mut diag,
    );
    assert_eq!(runs, 1);
    assert!(matches!(action, ModuleAction::Omit));
    assert_eq!(diag.entries.len(), 0);
}

#[test]
fn no_matching_files_short_circuits_before_the_query() {
    let mut runs = 0usize;
    let mut diag = Diagnostics::new();
    let action = run_pipeline(
        &ctx(&["main.c", "data.csv"]),
        &RConfig::new(),
        Some(R_V3),
        &mut runs,
        &mut diag,
    );
    assert_eq!(runs, 0);
    assert!(matches!(action, ModuleAction::Omit));
    assert_eq!(diag.entries.len(), 0);
}

#[test]
fn failed_query_yields_absence() {
    let mut runs = 0usize;
    let mut diag = Diagnostics::new();
    let action =
        run_pipeline(&ctx(&["analysis.R"]), &RConfig::new(), None, &mut runs, &mut diag);
    assert_eq!(runs, 1);
    assert!(matches!(action, ModuleAction::Omit));
    assert_eq!(diag.entries.len(), 0);
}

#[test]
fn rendered_module_has_styled_segment_and_empty_decoration() {
    let config = RConfig {
        format: String::from("via [R ${version}](blue bold) "),
        disabled: false,
    };
    let mut runs = 0usize;
    let mut diag = Diagnostics::new();
    let action =
        run_pipeline(&ctx(&["analysis.R"]), &config, Some(R_V3), &mut runs, &mut diag);
    let out = match action {
        ModuleAction::Output(m) => m,
        _ => panic!("expected rendered output"),
    };
    assert_eq!(out.name, "r");
    assert_eq!(out.prefix, "");
    assert_eq!(out.suffix, "");
    let styled: Vec<_> =
        out.segments.iter().filter(|s| s.value == "v3.6.3" && s.style == "blue bold").collect();
    assert_eq!(styled.len(), 1);
}

#[test]
fn malformed_template_yields_absence_and_one_warning() {
    let config = RConfig { format: String::from("via [R ${version}"), disabled: false };
    let mut runs = 0usize;
    let mut diag = Diagnostics::new();
    let action =
        run_pipeline(&ctx(&["analysis.R"]), &config, Some(R_V3), &mut runs, &mut diag);
    assert!(matches!(action, ModuleAction::Omit));
    assert_eq!(diag.count_of(Level::Warn), 1);
    assert_eq!(diag.entries.len(), 1);
    assert_eq!(diag.entries[0].message, "Error parsing format string in `r.format`");
}

#[test]
fn unknown_template_variable_is_non_fatal() {
    let config =
        RConfig { format: String::from("R ${version} (${arch})"), disabled: false };
    let mut runs = 0usize;
    let mut diag = Diagnostics::new();
    let action =
        run_pipeline(&ctx(&["analysis.R"]), &config, Some(R_V3), &mut runs, &mut diag);
    let out = match action {
        ModuleAction::Output(m) => m,
        _ => panic!("expected rendered output"),
    };
    assert!(out.segments.iter().any(|s| s.value == "v3.6.3"));
    assert_eq!(diag.count_of(Level::Warn), 0);
    assert_eq!(diag.count_of(Level::Debug), 1);
}
