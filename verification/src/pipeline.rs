//! The orchestration of the module: detection gates the version query, the
//! query's captured text yields the version, and the configured template
//! renders the output.
//!
//! Running the external interpreter is the host's work, so the pipeline is a
//! step function over an event: asked after scanning, it answers whether the
//! version query is worth running; handed the query's outcome, it produces
//! the rendered module. Every failure — no matching files, no captured text,
//! no recognizable version, a malformed template — collapses to absence; only
//! the malformed template is additionally worth a logged warning, since it
//! points at a configuration mistake.

use vstd::prelude::*;

use crate::config::RConfig;
use crate::detect::{any_file_matches, ScanContext};
use crate::diag::{Diagnostics, Level};
use crate::formatter::{
    bindings_model, compile, rendered_segments, segments_model, template_elems,
    unresolved_from, Segment, VarBinding,
};
use crate::version::{parse_version, version_of};

verus! {

/// The extension that marks an R project file.
pub open spec fn r_extensions() -> Seq<Seq<char>> {
    seq!["R"@]
}

/// Detection: the directory listing holds at least one file with the `R`
/// extension.
pub open spec fn detected(files: Seq<Seq<char>>) -> bool {
    any_file_matches(files, r_extensions())
}

/// The single binding rendering resolves: `version`, bound to the extracted
/// version text.
pub open spec fn version_bindings(ver: Seq<char>) -> Seq<(Seq<char>, Seq<char>)> {
    seq![("version"@, ver)]
}

/// The warning logged when the configured template is malformed.
pub open spec fn format_warning() -> Seq<char> {
    "Error parsing format string in `r.format`"@
}

/// The rendered module: its name, the decoration around its segments (both
/// empty for this module), and the styled segments themselves.
pub struct ModuleOutput {
    pub name: String,
    pub prefix: String,
    pub suffix: String,
    pub segments: Vec<Segment>,
}

/// What the host has done so far: only scanned the directory, or also run
/// the version query — with the captured text, or nothing when the
/// interpreter could not be run at all.
pub enum ModuleEvent {
    Scanned,
    VersionQueried(Option<String>),
}

/// What the pipeline answers: omit the module, run the version query and ask
/// again, or display the rendered output.
pub enum ModuleAction {
    Omit,
    QueryVersion,
    Output(ModuleOutput),
}

/// One step of the module pipeline.
///
/// Detection gates everything: with no matching file the answer is `Omit`
/// whatever the event, and nothing is logged. After a bare scan the answer is
/// `QueryVersion`. Given the query's outcome: absence of captured text or of
/// a recognizable version in it yields `Omit` with nothing logged; a
/// malformed template yields `Omit` with exactly one warning logged; and
/// otherwise the output carries the name `r`, empty prefix and suffix, and
/// exactly the template's segments with `version` bound to the extracted
/// version, any unresolved variable omitted with a debug entry logged.
pub fn module(
    context: &ScanContext,
    config: &RConfig,
    event: &ModuleEvent,
    diag: &mut Diagnostics,
) -> (r: ModuleAction)
    ensures
        !detected(context@) ==> r is Omit && final(diag)@ == old(diag)@,
        detected(context@) ==> match event {
            ModuleEvent::Scanned => r is QueryVersion && final(diag)@ == old(diag)@,
            ModuleEvent::VersionQueried(out) => match out {
                None => r is Omit && final(diag)@ == old(diag)@,
                Some(raw) => match version_of(raw@) {
                    None => r is Omit && final(diag)@ == old(diag)@,
                    Some(ver) => match template_elems(config.format@) {
                        None => r is Omit && final(diag)@ == old(diag)@.push(
                            (Level::Warn, format_warning()),
                        ),
                        Some(elems) => r matches ModuleAction::Output(m)
                            && m.name@ == "r"@
                            && m.prefix@ == Seq::<char>::empty()
                            && m.suffix@ == Seq::<char>::empty()
                            && segments_model(m.segments@) == rendered_segments(
                            elems,
                            version_bindings(ver),
                        )
                            && final(diag)@ == old(diag)@ + unresolved_from(
                            elems,
                            version_bindings(ver),
                            0,
                        ),
                    },
                },
            },
        },
{
    let mut exts: Vec<String> = Vec::new();
    exts.push(String::from_str("R"));
    proof {
        assert(exts.deep_view() =~= r_extensions());
    }
    if !context.is_match(&exts) {
        return ModuleAction::Omit;
    }
    match event {
        ModuleEvent::Scanned => ModuleAction::QueryVersion,
        ModuleEvent::VersionQueried(out) => match out {
            None => ModuleAction::Omit,
            Some(raw) => match parse_version(raw.as_str()) {
                None => ModuleAction::Omit,
                Some(ver) => match compile(config.format.as_str()) {
                    Err(_) => {
                        diag.log(
                            Level::Warn,
                            String::from_str("Error parsing format string in `r.format`"),
                        );
                        ModuleAction::Omit
                    },
                    Ok(template) => {
                        let ghost verv = ver@;
                        let mut vars: Vec<VarBinding> = Vec::new();
                        vars.push(VarBinding { name: String::from_str("version"), value: ver });
                        proof {
                            assert(bindings_model(vars@) =~= version_bindings(verv));
                        }
                        let segments = template.render(&vars, diag);
                        ModuleAction::Output(
                            ModuleOutput {
                                name: String::from_str("r"),
                                prefix: String::new(),
                                suffix: String::new(),
                                segments,
                            },
                        )
                    },
                },
            },
        },
    }
}

} // verus!
