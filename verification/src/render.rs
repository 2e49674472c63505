//! Rendering options and the renderers they configure.

use vstd::prelude::*;
use crate::config::CauseCollectOptions;
use crate::report::{compact_text, Report};
use crate::source_chain::opt_view;

verus! {

/// The version tag written into every JSON document.
pub const REPORT_JSON_SCHEMA_VERSION: &'static str = "v0.1.0";

/// The JSON Schema draft the report schema follows.
pub const REPORT_JSON_SCHEMA_DRAFT: &'static str = "https://json-schema.org/draft/2020-12/schema";

/// Indentation of pretty output: a number of spaces, or one tab.
#[derive(Debug, Clone, Copy, PartialEq, Eq, Structural)]
pub enum PrettyIndent {
    Spaces(u8),
    Tab,
}

/// Options for rendering a report.
#[derive(Debug, Clone, Copy, PartialEq, Eq, Structural)]
pub struct ReportRenderOptions {
    pub max_source_depth: usize,
    pub detect_source_cycle: bool,
    pub pretty_indent: PrettyIndent,
    pub show_type_name: bool,
    pub show_empty_sections: bool,
    pub show_governance_section: bool,
    pub show_trace_section: bool,
    pub show_stack_trace_section: bool,
    pub show_context_section: bool,
    pub show_attachments_section: bool,
    pub show_cause_chains_section: bool,
    pub stack_trace_max_lines: usize,
    pub stack_trace_include_raw: bool,
    pub stack_trace_include_frames: bool,
    pub json_pretty: bool,
}

/// The default options: every section shown, empty ones too; two-space
/// indentation; depth limit 16 with cycle detection; at most 24 raw stack
/// lines; compact JSON.
pub open spec fn default_render_options() -> ReportRenderOptions {
    ReportRenderOptions {
        max_source_depth: 16,
        detect_source_cycle: true,
        pretty_indent: PrettyIndent::Spaces(2),
        show_type_name: true,
        show_empty_sections: true,
        show_governance_section: true,
        show_trace_section: true,
        show_stack_trace_section: true,
        show_context_section: true,
        show_attachments_section: true,
        show_cause_chains_section: true,
        stack_trace_max_lines: 24,
        stack_trace_include_raw: true,
        stack_trace_include_frames: true,
        json_pretty: false,
    }
}

impl ReportRenderOptions {
    /// The default options.
    pub fn default_options() -> (r: Self)
        ensures
            r == default_render_options(),
    {
        ReportRenderOptions {
            max_source_depth: 16,
            detect_source_cycle: true,
            pretty_indent: PrettyIndent::Spaces(2),
            show_type_name: true,
            show_empty_sections: true,
            show_governance_section: true,
            show_trace_section: true,
            show_stack_trace_section: true,
            show_context_section: true,
            show_attachments_section: true,
            show_cause_chains_section: true,
            stack_trace_max_lines: 24,
            stack_trace_include_raw: true,
            stack_trace_include_frames: true,
            json_pretty: false,
        }
    }

    /// The cause-collection options these rendering options ask for.
    pub fn traversal_options(&self) -> (r: CauseCollectOptions)
        ensures
            r.max_depth == self.max_source_depth,
            r.detect_cycle == self.detect_source_cycle,
    {
        CauseCollectOptions { max_depth: self.max_source_depth, detect_cycle: self.detect_source_cycle }
    }
}

impl Default for ReportRenderOptions {
    fn default() -> (r: Self)
        ensures
            r == default_render_options(),
    {
        Self::default_options()
    }
}

/// The compact renderer.
#[derive(Debug, Clone, Copy, PartialEq, Eq, Structural)]
pub struct Compact;

/// The indented, sectioned renderer.
#[derive(Debug, Clone, Copy, PartialEq, Eq, Structural)]
pub struct Pretty {
    pub options: ReportRenderOptions,
}

impl Pretty {
    /// A pretty renderer with the given options.
    pub fn new(options: ReportRenderOptions) -> (r: Self)
        ensures
            r.options == options,
    {
        Pretty { options }
    }
}

/// The JSON renderer.
#[derive(Debug, Clone, Copy, PartialEq, Eq, Structural)]
pub struct Json {
    pub options: ReportRenderOptions,
}

impl Json {
    /// A JSON renderer with the given options.
    pub fn new(options: ReportRenderOptions) -> (r: Self)
        ensures
            r.options == options,
    {
        Json { options }
    }
}

/// A way of writing a report as text, for renderers of the library and of
/// its users alike.
pub trait ReportRenderer<E> {
    /// Writes `report`; `None` where this renderer cannot write it.
    fn render(&self, report: &Report<E>) -> Option<String>;
}

impl<E> ReportRenderer<E> for Compact {
    fn render(&self, report: &Report<E>) -> (r: Option<String>)
        ensures
            opt_view(r) == Some(compact_text(*report)),
    {
        Some(report.to_compact_string())
    }
}

/// A report paired with the renderer that writes it.
pub struct RenderedReport<'a, E, R> {
    report: &'a Report<E>,
    renderer: R,
}

impl<'a, E, R> RenderedReport<'a, E, R> {
    /// The report to write.
    pub closed spec fn source_report(&self) -> Report<E> {
        *self.report
    }

    /// The renderer that writes it.
    pub closed spec fn renderer_of(&self) -> R {
        self.renderer
    }
}

impl<'a, E, R: ReportRenderer<E>> RenderedReport<'a, E, R> {
    /// The text the renderer writes for the report; `None` where it cannot
    /// write it: what the renderer's `render` returns for the report.
    pub fn to_text(&self) -> (r: Option<String>)
        ensures
            call_ensures(R::render, (&self.renderer_of(), &self.source_report()), r),
    {
        self.renderer.render(self.report)
    }
}

impl<E> Report<E> {
    /// Pairs the report with a renderer.
    pub fn render<R>(&self, renderer: R) -> (r: RenderedReport<'_, E, R>)
        ensures
            r.source_report() == *self,
            r.renderer_of() == renderer,
    {
        RenderedReport { report: self, renderer }
    }

    /// Pairs the report with the compact renderer.
    pub fn compact(&self) -> (r: RenderedReport<'_, E, Compact>)
        ensures
            r.source_report() == *self,
    {
        self.render(Compact)
    }

    /// Pairs the report with a pretty renderer using the default options.
    pub fn pretty(&self) -> (r: RenderedReport<'_, E, Pretty>)
        ensures
            r.source_report() == *self,
            r.renderer_of() == (Pretty { options: default_render_options() }),
    {
        self.render(Pretty::new(ReportRenderOptions::default_options()))
    }

    /// Pairs the report with a JSON renderer using the default options.
    pub fn json(&self) -> (r: RenderedReport<'_, E, Json>)
        ensures
            r.source_report() == *self,
            r.renderer_of() == (Json { options: default_render_options() }),
    {
        self.render(Json::new(ReportRenderOptions::default_options()))
    }
}

} // verus!
