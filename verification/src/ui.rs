//! Plain data types describing the host window's panes and the coloring
//! of the layout display.

use vstd::prelude::*;

verus! {

/// How the keys of the displayed layout are colored.
#[derive(Debug, Clone, Copy, PartialEq, Eq, Structural)]
pub enum ColorStyle {
    /// Shade keys by corpus character frequency.
    Frequency,
    /// Shade keys by their contribution to the selected metric.
    Metric,
    /// Color keys by the finger assigned to them.
    Fingers,
    /// A uniform color for every key.
    Plain,
}

impl ColorStyle {
    /// The user-facing name of the color style.
    pub open spec fn name_spec(self) -> Seq<char> {
        match self {
            ColorStyle::Frequency => "Frequency"@,
            ColorStyle::Metric => "Metric"@,
            ColorStyle::Fingers => "Fingers"@,
            ColorStyle::Plain => "None"@,
        }
    }

    /// The user-facing name of the color style, for display.
    pub fn name(self) -> (r: String)
        ensures
            r@ == self.name_spec(),
    {
        let s: &str = match self {
            ColorStyle::Frequency => "Frequency",
            ColorStyle::Metric => "Metric",
            ColorStyle::Fingers => "Fingers",
            ColorStyle::Plain => "None",
        };
        s.to_owned()
    }

    /// Every color style, in the order the host offers them.
    pub fn all() -> (r: Vec<ColorStyle>)
        ensures
            r@ == seq![
                ColorStyle::Frequency,
                ColorStyle::Metric,
                ColorStyle::Fingers,
                ColorStyle::Plain,
            ],
    {
        let r = vec![
            ColorStyle::Frequency,
            ColorStyle::Metric,
            ColorStyle::Fingers,
            ColorStyle::Plain,
        ];
        proof {
            assert(r@ =~= seq![
                ColorStyle::Frequency,
                ColorStyle::Metric,
                ColorStyle::Fingers,
                ColorStyle::Plain,
            ]);
        }
        r
    }
}

/// What one pane of the host window shows.
#[derive(Debug, Clone, Copy, PartialEq, Eq, Structural)]
pub enum PaneKind {
    /// The keyboard layout and its combos.
    Layout,
    /// The metric statistics of the current layout.
    Metrics,
    /// The per-stroke breakdown of one metric.
    Nstrokes,
}

/// One pane of the host window.
#[derive(Debug, Clone, Copy)]
pub struct Pane {
    /// What the pane shows.
    pub kind: PaneKind,
}

impl Pane {
    /// A pane showing the given content.
    pub fn new(kind: PaneKind) -> (r: Pane)
        ensures
            r.kind == kind,
    {
        Pane { kind }
    }
}

} // verus!
