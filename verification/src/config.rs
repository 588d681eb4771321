//! Persistent user preferences: display styles per metric, the statistic
//! precision, the font choice and the theme.  The per-metric style table
//! is an association list with unique keys; the toggle operations flip an
//! existing entry or insert a fresh one with the toggled value.

use crate::matcher::str_eq;
use vstd::prelude::*;

verus! {

/// How a metric statistic is displayed: as a ratio of hits per amount of
/// text, or as a percentage.
#[derive(Debug, Clone, Copy, PartialEq, Eq, Structural)]
pub enum DisplayStyle {
    Ratio,
    Percentage,
}

impl DisplayStyle {
    /// The other display style.
    pub open spec fn toggled_spec(self) -> DisplayStyle {
        match self {
            DisplayStyle::Ratio => DisplayStyle::Percentage,
            DisplayStyle::Percentage => DisplayStyle::Ratio,
        }
    }

    /// Flips between ratio and percentage display.
    pub fn toggled(self) -> (r: DisplayStyle)
        ensures
            r == self.toggled_spec(),
    {
        match self {
            DisplayStyle::Ratio => DisplayStyle::Percentage,
            DisplayStyle::Percentage => DisplayStyle::Ratio,
        }
    }
}

impl Default for DisplayStyle {
    /// Statistics default to ratio display.
    fn default() -> (r: DisplayStyle)
        ensures
            r == DisplayStyle::Ratio,
    {
        DisplayStyle::Ratio
    }
}

/// How the per-stroke list of a metric is ordered.
#[derive(Debug, Clone, Copy, PartialEq, Eq, Structural)]
pub enum NstrokeSortMethod {
    Frequency,
    Value,
}

impl NstrokeSortMethod {
    /// The other sort method.
    pub open spec fn toggled_spec(self) -> NstrokeSortMethod {
        match self {
            NstrokeSortMethod::Frequency => NstrokeSortMethod::Value,
            NstrokeSortMethod::Value => NstrokeSortMethod::Frequency,
        }
    }

    /// Flips between frequency and value ordering.
    pub fn toggled(self) -> (r: NstrokeSortMethod)
        ensures
            r == self.toggled_spec(),
    {
        match self {
            NstrokeSortMethod::Frequency => NstrokeSortMethod::Value,
            NstrokeSortMethod::Value => NstrokeSortMethod::Frequency,
        }
    }
}

impl Default for NstrokeSortMethod {
    /// Stroke lists default to frequency ordering.
    fn default() -> (r: NstrokeSortMethod)
        ensures
            r == NstrokeSortMethod::Frequency,
    {
        NstrokeSortMethod::Frequency
    }
}

/// The color theme of the application.
#[derive(Debug, Clone, Copy, PartialEq, Eq, Structural)]
pub enum KeymuiTheme {
    Light,
    Dark,
    TokyoNight,
    CatppuccinMocha,
}

impl KeymuiTheme {
    /// The user-facing name of the theme.
    pub open spec fn name_spec(self) -> Seq<char> {
        match self {
            KeymuiTheme::Light => "Light"@,
            KeymuiTheme::Dark => "Dark"@,
            KeymuiTheme::TokyoNight => "Tokyo Night"@,
            KeymuiTheme::CatppuccinMocha => "Catpuccin Mocha"@,
        }
    }

    /// The user-facing name of the theme, for display.
    pub fn name(self) -> (r: String)
        ensures
            r@ == self.name_spec(),
    {
        let s: &str = match self {
            KeymuiTheme::Light => "Light",
            KeymuiTheme::Dark => "Dark",
            KeymuiTheme::TokyoNight => "Tokyo Night",
            KeymuiTheme::CatppuccinMocha => "Catpuccin Mocha",
        };
        s.to_owned()
    }
}

impl Default for KeymuiTheme {
    /// The default theme.
    fn default() -> (r: KeymuiTheme)
        ensures
            r == KeymuiTheme::TokyoNight,
    {
        KeymuiTheme::TokyoNight
    }
}

/// The display preferences of one metric.
#[derive(Debug, Clone, Copy, PartialEq, Eq, Structural)]
pub struct MetricDisplayConfig {
    /// How the metric's statistic is displayed.
    pub display_style: DisplayStyle,
    /// How the metric's per-stroke list is ordered.
    pub nstroke_sort_method: NstrokeSortMethod,
}

impl Default for MetricDisplayConfig {
    /// Both preferences take their own defaults.
    fn default() -> (r: MetricDisplayConfig)
        ensures
            r == (MetricDisplayConfig {
                display_style: DisplayStyle::Ratio,
                nstroke_sort_method: NstrokeSortMethod::Frequency,
            }),
    {
        MetricDisplayConfig {
            display_style: DisplayStyle::Ratio,
            nstroke_sort_method: NstrokeSortMethod::Frequency,
        }
    }
}

/// The preferences of the first metric in `entries` whose name is `name`,
/// if any.
pub open spec fn style_lookup(
    entries: Seq<(String, MetricDisplayConfig)>,
    name: Seq<char>,
) -> Option<MetricDisplayConfig>
    decreases entries.len(),
{
    if entries.len() == 0 {
        None
    } else if entries[0].0@ == name {
        Some(entries[0].1)
    } else {
        style_lookup(entries.skip(1), name)
    }
}

proof fn lemma_lookup_first(e: Seq<(String, MetricDisplayConfig)>, idx: int, name: Seq<char>)
    requires
        0 <= idx < e.len(),
        forall|m: int| 0 <= m < idx ==> (#[trigger] e[m]).0@ != name,
        e[idx].0@ == name,
    ensures
        style_lookup(e, name) == Some(e[idx].1),
    decreases idx,
{
    if idx > 0 {
        let t = e.skip(1);
        assert(forall|m: int| 0 <= m < idx - 1 ==> (#[trigger] t[m]).0@ == e[m + 1].0@);
        lemma_lookup_first(t, idx - 1, name);
    }
}

proof fn lemma_lookup_none(e: Seq<(String, MetricDisplayConfig)>, name: Seq<char>)
    requires
        forall|m: int| 0 <= m < e.len() ==> (#[trigger] e[m]).0@ != name,
    ensures
        style_lookup(e, name) is None,
    decreases e.len(),
{
    if e.len() > 0 {
        let t = e.skip(1);
        assert(forall|m: int| 0 <= m < t.len() ==> (#[trigger] t[m]).0@ == e[m + 1].0@);
        lemma_lookup_none(t, name);
    }
}

proof fn lemma_lookup_update(
    e1: Seq<(String, MetricDisplayConfig)>,
    e2: Seq<(String, MetricDisplayConfig)>,
    idx: int,
    name: Seq<char>,
)
    requires
        e1.len() == e2.len(),
        0 <= idx < e1.len(),
        forall|i: int| 0 <= i < e1.len() ==> (#[trigger] e2[i]).0@ == e1[i].0@,
        forall|i: int| 0 <= i < e1.len() && i != idx ==> #[trigger] e2[i] == e1[i],
        e1[idx].0@ == name,
        forall|i: int| 0 <= i < idx ==> (#[trigger] e1[i]).0@ != name,
    ensures
        style_lookup(e2, name) == Some(e2[idx].1),
        forall|other: Seq<char>|
            other != name ==> style_lookup(e2, other) == style_lookup(e1, other),
    decreases e1.len(),
{
    lemma_lookup_first(e2, idx, name);
    assert forall|other: Seq<char>| other != name implies style_lookup(e2, other) == style_lookup(
        e1,
        other,
    ) by {
        lemma_lookup_update_other(e1, e2, idx, name, other);
    }
}

proof fn lemma_lookup_update_other(
    e1: Seq<(String, MetricDisplayConfig)>,
    e2: Seq<(String, MetricDisplayConfig)>,
    idx: int,
    name: Seq<char>,
    other: Seq<char>,
)
    requires
        e1.len() == e2.len(),
        0 <= idx < e1.len(),
        forall|i: int| 0 <= i < e1.len() ==> (#[trigger] e2[i]).0@ == e1[i].0@,
        forall|i: int| 0 <= i < e1.len() && i != idx ==> #[trigger] e2[i] == e1[i],
        e1[idx].0@ == name,
        other != name,
    ensures
        style_lookup(e2, other) == style_lookup(e1, other),
    decreases e1.len(),
{
    if e1.len() > 0 {
        if idx == 0 {
            assert(e1[0].0@ == name);
            assert(e2[0].0@ == name);
            assert(e1.skip(1) =~= e2.skip(1));
        } else {
            assert(e2[0] == e1[0]);
            let t1 = e1.skip(1);
            let t2 = e2.skip(1);
            assert(forall|i: int| 0 <= i < t1.len() ==> (#[trigger] t2[i]).0@ == t1[i].0@) by {
                assert(forall|i: int|
                    0 <= i < t1.len() ==> #[trigger] t2[i] == e2[i + 1] && t1[i] == e1[i + 1]);
            }
            assert(forall|i: int| 0 <= i < t1.len() && i != idx - 1 ==> #[trigger] t2[i] == t1[i])
                by {
                assert(forall|i: int|
                    0 <= i < t1.len() ==> #[trigger] t2[i] == e2[i + 1] && t1[i] == e1[i + 1]);
            }
            assert(t1[idx - 1].0@ == name);
            lemma_lookup_update_other(t1, t2, idx - 1, name, other);
        }
    }
}

proof fn lemma_lookup_push(
    e: Seq<(String, MetricDisplayConfig)>,
    x: (String, MetricDisplayConfig),
    name: Seq<char>,
)
    ensures
        style_lookup(e, name) is Some ==> style_lookup(e.push(x), name) == style_lookup(e, name),
        style_lookup(e, name) is None && x.0@ == name ==> style_lookup(e.push(x), name) == Some(
            x.1,
        ),
        style_lookup(e, name) is None && x.0@ != name ==> style_lookup(e.push(x), name) is None,
    decreases e.len(),
{
    if e.len() == 0 {
        reveal_with_fuel(style_lookup, 2);
        assert(e.push(x)[0] == x);
        assert(e.push(x).skip(1) =~= Seq::<(String, MetricDisplayConfig)>::empty());
    } else {
        assert(e.push(x)[0] == e[0]);
        assert(e.push(x).skip(1) =~= e.skip(1).push(x));
        lemma_lookup_push(e.skip(1), x, name);
    }
}

/// The persistent preferences of the application.
pub struct Config {
    /// Where metric definitions are imported from, if the user has chosen
    /// a directory.
    pub metrics_directory: Option<String>,
    /// Per-metric display preferences, keyed by the metric's short name.
    pub metric_display_styles: Vec<(String, MetricDisplayConfig)>,
    /// How many significant digits statistics are displayed with.
    pub stat_precision: u32,
    /// Whether the layout and stroke panes use a monospaced font.
    pub use_monospace: bool,
    /// The color theme.
    pub theme: KeymuiTheme,
}

impl Config {
    /// Each metric name occurs at most once in the style table.
    pub open spec fn wf(self) -> bool {
        forall|i: int, j: int|
            0 <= i < j < self.metric_display_styles@.len()
                ==> (#[trigger] self.metric_display_styles@[i]).0@
                != (#[trigger] self.metric_display_styles@[j]).0@
    }

    /// The display preferences recorded for the given metric name.
    pub open spec fn style_for_spec(self, name: Seq<char>) -> Option<MetricDisplayConfig> {
        style_lookup(self.metric_display_styles@, name)
    }

    /// The display style of the given metric: its recorded preference, or
    /// ratio display where none is recorded.
    pub fn display_style_for(&self, name: &str) -> (r: DisplayStyle)
        ensures
            r == match self.style_for_spec(name@) {
                Some(c) => c.display_style,
                None => DisplayStyle::Ratio,
            },
    {
        let ghost e = self.metric_display_styles@;
        let n = self.metric_display_styles.len();
        let mut i: usize = 0;
        while i < n
            invariant
                i <= n,
                e == self.metric_display_styles@,
                n == e.len(),
                forall|m: int| 0 <= m < i ==> (#[trigger] e[m]).0@ != name@,
            decreases n - i,
        {
            if str_eq(self.metric_display_styles[i].0.as_str(), name) {
                proof {
                    lemma_lookup_first(e, i as int, name@);
                }
                return self.metric_display_styles[i].1.display_style;
            }
            i += 1;
        }
        proof {
            lemma_lookup_none(e, name@);
        }
        DisplayStyle::Ratio
    }

    /// The sort method of the given metric: its recorded preference, or
    /// frequency ordering where none is recorded.
    pub fn sort_method_for(&self, name: &str) -> (r: NstrokeSortMethod)
        ensures
            r == match self.style_for_spec(name@) {
                Some(c) => c.nstroke_sort_method,
                None => NstrokeSortMethod::Frequency,
            },
    {
        let ghost e = self.metric_display_styles@;
        let n = self.metric_display_styles.len();
        let mut i: usize = 0;
        while i < n
            invariant
                i <= n,
                e == self.metric_display_styles@,
                n == e.len(),
                forall|m: int| 0 <= m < i ==> (#[trigger] e[m]).0@ != name@,
            decreases n - i,
        {
            if str_eq(self.metric_display_styles[i].0.as_str(), name) {
                proof {
                    lemma_lookup_first(e, i as int, name@);
                }
                return self.metric_display_styles[i].1.nstroke_sort_method;
            }
            i += 1;
        }
        proof {
            lemma_lookup_none(e, name@);
        }
        NstrokeSortMethod::Frequency
    }

    /// Flips the display style recorded for the given metric; a metric
    /// with no recorded preferences gets an entry with percentage display
    /// and the default sort method.  No other metric's preferences change.
    pub fn toggle_display_style(&mut self, name: &str)
        requires
            old(self).wf(),
        ensures
            final(self).wf(),
            final(self).metrics_directory == old(self).metrics_directory,
            final(self).stat_precision == old(self).stat_precision,
            final(self).use_monospace == old(self).use_monospace,
            final(self).theme == old(self).theme,
            final(self).style_for_spec(name@) == match old(self).style_for_spec(name@) {
                Some(c) => Some(
                    (MetricDisplayConfig {
                        display_style: c.display_style.toggled_spec(),
                        nstroke_sort_method: c.nstroke_sort_method,
                    }),
                ),
                None => Some(
                    (MetricDisplayConfig {
                        display_style: DisplayStyle::Percentage,
                        nstroke_sort_method: NstrokeSortMethod::Frequency,
                    }),
                ),
            },
            forall|other: Seq<char>|
                other != name@ ==> final(self).style_for_spec(other) == old(self).style_for_spec(
                    other,
                ),
    {
        let ghost e1 = self.metric_display_styles@;
        let n = self.metric_display_styles.len();
        let mut i: usize = 0;
        while i < n
            invariant
                i <= n,
                *self == *old(self),
                e1 == self.metric_display_styles@,
                old(self).wf(),
                n == e1.len(),
                forall|m: int| 0 <= m < i ==> (#[trigger] e1[m]).0@ != name@,
            decreases n - i,
        {
            if str_eq(self.metric_display_styles[i].0.as_str(), name) {
                let cur = self.metric_display_styles[i].1;
                let flipped = MetricDisplayConfig {
                    display_style: cur.display_style.toggled(),
                    nstroke_sort_method: cur.nstroke_sort_method,
                };
                self.metric_display_styles[i].1 = flipped;
                proof {
                    let e2 = self.metric_display_styles@;
                    assert(e2.len() == e1.len());
                    assert(forall|m: int| 0 <= m < e1.len() && m != i ==> #[trigger] e2[m]
                        == e1[m]);
                    assert(e2[i as int].0 == e1[i as int].0);
                    assert(e2[i as int].1 == flipped);
                    assert forall|m: int| 0 <= m < e1.len() implies (#[trigger] e2[m]).0@
                        == e1[m].0@ by {
                        if m != i {
                            assert(e2[m] == e1[m]);
                        }
                    }
                    lemma_lookup_first(e1, i as int, name@);
                    lemma_lookup_update(e1, e2, i as int, name@);
                }
                return ;
            }
            i += 1;
        }
        proof {
            lemma_lookup_none(e1, name@);
        }
        let entry = (
            name.to_owned(),
            MetricDisplayConfig {
                display_style: DisplayStyle::Percentage,
                nstroke_sort_method: NstrokeSortMethod::Frequency,
            },
        );
        self.metric_display_styles.push(entry);
        proof {
            let e2 = self.metric_display_styles@;
            assert(e2 == e1.push(entry));
            lemma_lookup_push(e1, entry, name@);
            assert forall|other: Seq<char>| other != name@ implies style_lookup(e2, other)
                == style_lookup(e1, other) by {
                lemma_lookup_push(e1, entry, other);
            }
            assert forall|a: int, b: int| 0 <= a < b < e2.len() implies (#[trigger] e2[a]).0@ != (
            #[trigger] e2[b]).0@ by {
                if b < e1.len() {
                } else {
                    assert(e2[b] == entry);
                    assert(e2[a] == e1[a]);
                }
            }
        }
    }

    /// Flips the sort method recorded for the given metric; a metric with
    /// no recorded preferences gets an entry with value ordering and the
    /// default display style.  No other metric's preferences change.
    pub fn toggle_sort_method(&mut self, name: &str)
        requires
            old(self).wf(),
        ensures
            final(self).wf(),
            final(self).metrics_directory == old(self).metrics_directory,
            final(self).stat_precision == old(self).stat_precision,
            final(self).use_monospace == old(self).use_monospace,
            final(self).theme == old(self).theme,
            final(self).style_for_spec(name@) == match old(self).style_for_spec(name@) {
                Some(c) => Some(
                    (MetricDisplayConfig {
                        display_style: c.display_style,
                        nstroke_sort_method: c.nstroke_sort_method.toggled_spec(),
                    }),
                ),
                None => Some(
                    (MetricDisplayConfig {
                        display_style: DisplayStyle::Ratio,
                        nstroke_sort_method: NstrokeSortMethod::Value,
                    }),
                ),
            },
            forall|other: Seq<char>|
                other != name@ ==> final(self).style_for_spec(other) == old(self).style_for_spec(
                    other,
                ),
    {
        let ghost e1 = self.metric_display_styles@;
        let n = self.metric_display_styles.len();
        let mut i: usize = 0;
        while i < n
            invariant
                i <= n,
                *self == *old(self),
                e1 == self.metric_display_styles@,
                old(self).wf(),
                n == e1.len(),
                forall|m: int| 0 <= m < i ==> (#[trigger] e1[m]).0@ != name@,
            decreases n - i,
        {
            if str_eq(self.metric_display_styles[i].0.as_str(), name) {
                let cur = self.metric_display_styles[i].1;
                let flipped = MetricDisplayConfig {
                    display_style: cur.display_style,
                    nstroke_sort_method: cur.nstroke_sort_method.toggled(),
                };
                self.metric_display_styles[i].1 = flipped;
                proof {
                    let e2 = self.metric_display_styles@;
                    assert(e2.len() == e1.len());
                    assert(forall|m: int| 0 <= m < e1.len() && m != i ==> #[trigger] e2[m]
                        == e1[m]);
                    assert(e2[i as int].0 == e1[i as int].0);
                    assert(e2[i as int].1 == flipped);
                    assert forall|m: int| 0 <= m < e1.len() implies (#[trigger] e2[m]).0@
                        == e1[m].0@ by {
                        if m != i {
                            assert(e2[m] == e1[m]);
                        }
                    }
                    lemma_lookup_first(e1, i as int, name@);
                    lemma_lookup_update(e1, e2, i as int, name@);
                }
                return ;
            }
            i += 1;
        }
        proof {
            lemma_lookup_none(e1, name@);
        }
        let entry = (
            name.to_owned(),
            MetricDisplayConfig {
                display_style: DisplayStyle::Ratio,
                nstroke_sort_method: NstrokeSortMethod::Value,
            },
        );
        self.metric_display_styles.push(entry);
        proof {
            let e2 = self.metric_display_styles@;
            assert(e2 == e1.push(entry));
            lemma_lookup_push(e1, entry, name@);
            assert forall|other: Seq<char>| other != name@ implies style_lookup(e2, other)
                == style_lookup(e1, other) by {
                lemma_lookup_push(e1, entry, other);
            }
            assert forall|a: int, b: int| 0 <= a < b < e2.len() implies (#[trigger] e2[a]).0@ != (
            #[trigger] e2[b]).0@ by {
                if b < e1.len() {
                } else {
                    assert(e2[b] == entry);
                    assert(e2[a] == e1[a]);
                }
            }
        }
    }
}

impl Default for Config {
    /// The configuration a fresh installation starts with: no metrics
    /// directory, percentage display preset for the four roll, shifted
    /// roll, alternation and redirect metrics, precision 1, a monospaced
    /// font and the default theme.
    fn default() -> (r: Config)
        ensures
            r.wf(),
            r.metrics_directory is None,
            r.stat_precision == 1,
            r.use_monospace == true,
            r.theme == KeymuiTheme::TokyoNight,
            r.metric_display_styles@.len() == 4,
            r.metric_display_styles@[0].0@ == "roll"@,
            r.metric_display_styles@[1].0@ == "sr-roll"@,
            r.metric_display_styles@[2].0@ == "alt"@,
            r.metric_display_styles@[3].0@ == "redir"@,
            forall|i: int|
                0 <= i < 4 ==> (#[trigger] r.metric_display_styles@[i]).1
                    == (MetricDisplayConfig {
                    display_style: DisplayStyle::Percentage,
                    nstroke_sort_method: NstrokeSortMethod::Frequency,
                }),
    {
        let preset = MetricDisplayConfig {
            display_style: DisplayStyle::Percentage,
            nstroke_sort_method: NstrokeSortMethod::Frequency,
        };
        let mut styles: Vec<(String, MetricDisplayConfig)> = Vec::new();
        styles.push(("roll".to_owned(), preset));
        styles.push(("sr-roll".to_owned(), preset));
        styles.push(("alt".to_owned(), preset));
        styles.push(("redir".to_owned(), preset));
        proof {
            reveal_strlit("roll");
            reveal_strlit("sr-roll");
            reveal_strlit("alt");
            reveal_strlit("redir");
            let e = styles@;
            assert(e.len() == 4);
            assert(e[0].0@ == "roll"@ && e[1].0@ == "sr-roll"@ && e[2].0@ == "alt"@ && e[3].0@
                == "redir"@);
            assert(e[0].0@.len() == 4 && e[1].0@.len() == 7 && e[2].0@.len() == 3 && e[3].0@.len()
                == 5);
            assert forall|a: int, b: int| 0 <= a < b < 4 implies (#[trigger] e[a]).0@ != (
            #[trigger] e[b]).0@ by {
                assert(e[a].0@.len() != e[b].0@.len());
            }
        }
        Config {
            metrics_directory: None,
            metric_display_styles: styles,
            stat_precision: 1,
            use_monospace: true,
            theme: KeymuiTheme::TokyoNight,
        }
    }
}

} // verus!
