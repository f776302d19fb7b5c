//! Charts drawn as SVG by the `charts-rs` crate from a JSON description.

use charts_rs::{BarChart, PieChart};
use vstd::prelude::*;

verus! {

/// `svg` is a drawing of the bar chart that `json` describes, as `charts-rs`
/// makes one. This is a relation, not a result: what is drawn also depends
/// on the themes and fonts registered with `charts-rs`.
pub uninterp spec fn drawn_as_bar(json: Seq<char>, svg: Seq<char>) -> bool;

/// `svg` is a drawing of the pie chart that `json` describes, as `charts-rs`
/// makes one. This is a relation, not a result, for the same reason.
pub uninterp spec fn drawn_as_pie(json: Seq<char>, svg: Seq<char>) -> bool;

/// Why a chart could not be drawn, in the words of `charts-rs`.
#[derive(Debug)]
pub struct ChartError {
    pub message: String,
}

/// Calls `BarChart::from_json` and then `BarChart::svg`. The contract
/// claims only that an SVG text that comes back is a bar-chart drawing of
/// `json`; whether it succeeds, and what it draws, also depends on the
/// themes and fonts registered with `charts-rs`, and is not stated.
#[verifier::external_body]
fn render_bar(json: &str) -> (r: Result<String, ChartError>)
    ensures
        r matches Ok(s) ==> drawn_as_bar(json@, s@),
{
    match BarChart::from_json(json).and_then(|chart| chart.svg()) {
        Ok(svg) => Ok(svg),
        Err(e) => Err(ChartError { message: e.to_string() }),
    }
}

/// Calls `PieChart::from_json` and then `PieChart::svg`. The contract
/// claims only that an SVG text that comes back is a pie-chart drawing of
/// `json`; whether it succeeds, and what it draws, also depends on the
/// themes and fonts registered with `charts-rs`, and is not stated.
#[verifier::external_body]
fn render_pie(json: &str) -> (r: Result<String, ChartError>)
    ensures
        r matches Ok(s) ==> drawn_as_pie(json@, s@),
{
    match PieChart::from_json(json).and_then(|chart| chart.svg()) {
        Ok(svg) => Ok(svg),
        Err(e) => Err(ChartError { message: e.to_string() }),
    }
}

/// The kinds of chart.
#[derive(Debug, Clone, Copy, PartialEq, Eq, Structural)]
pub enum ChartKind {
    Bar,
    Pie,
}

impl ChartKind {
    /// Draws the chart described by `json` as SVG, as a bar chart or a pie
    /// chart by the kind. Whether `charts-rs` draws or refuses is not stated:
    /// it depends on its theme and font registries too.
    pub fn to_svg(&self, json: &str) -> (r: Result<String, ChartError>)
        ensures
            *self == ChartKind::Bar ==> (r matches Ok(s) ==> drawn_as_bar(json@, s@)),
            *self == ChartKind::Pie ==> (r matches Ok(s) ==> drawn_as_pie(json@, s@)),
    {
        match self {
            ChartKind::Bar => render_bar(json),
            ChartKind::Pie => render_pie(json),
        }
    }
}

/// A chart ready to be shown: its SVG text and the size to show it at.
pub struct Chart {
    pub svg: String,
    pub width: usize,
    pub height: usize,
}

impl Chart {
    /// Draws a chart of `kind` from `json`, to be shown at `width` by
    /// `height`.
    pub fn new(kind: ChartKind, width: usize, height: usize, json: &str) -> (r: Result<Chart, ChartError>)
        ensures
            r matches Ok(c) ==> c.width == width && c.height == height,
            kind == ChartKind::Bar ==> (r matches Ok(c) ==> drawn_as_bar(json@, c.svg@)),
            kind == ChartKind::Pie ==> (r matches Ok(c) ==> drawn_as_pie(json@, c.svg@)),
    {
        match kind.to_svg(json) {
            Ok(svg) => Ok(Chart::with_svg(svg, width, height)),
            Err(e) => Err(e),
        }
    }

    /// A chart of the given SVG text and size.
    pub fn with_svg(svg: String, width: usize, height: usize) -> (r: Chart)
        ensures
            r.svg@ == svg@,
            r.width == width,
            r.height == height,
    {
        Chart { svg, width, height }
    }
}

} // verus!
