//! Detector-and-formatter unit for the R ecosystem inside a prompt-rendering
//! host: decides whether the working directory looks like an R project and, if
//! the R interpreter reports a recognizable version, renders a short status
//! fragment from a configurable template.
//!
//! The pipeline is pure: directory listings, the captured output of the
//! external `r --version` invocation, and a diagnostics sink are handed in as
//! plain values, and the rendered module (or its absence) is handed back.

pub mod config;
pub mod detect;
pub mod diag;
pub mod formatter;
pub mod pipeline;
pub mod version;
