use keymui::Config;
use keymui::DisplayStyle;
use keymui::KeymuiTheme;
use keymui::MetricDisplayConfig;
use keymui::NstrokeSortMethod;

#[test]
fn default_config_values() {
    let c = Config::default();
    assert!(c.metrics_directory.is_none());
    assert_eq!(c.stat_precision, 1);
    assert!(c.use_monospace);
    assert_eq!(c.theme, KeymuiTheme::TokyoNight);
    assert_eq!(c.metric_display_styles.len(), 4);
}

#[test]
fn default_config_presets_percentage_metrics() {
    let c = Config::default();
    for name in ["roll", "sr-roll", "alt", "redir"] {
        assert_eq!(c.display_style_for(name), DisplayStyle::Percentage);
        assert_eq!(c.sort_method_for(name), NstrokeSortMethod::Frequency);
    }
    assert_eq!(c.display_style_for("speed"), DisplayStyle::Ratio);
    assert_eq!(c.sort_method_for("speed"), NstrokeSortMethod::Frequency);
}

#[test]
fn toggle_display_style_flips_existing_entry() {
    let mut c = Config::default();
    c.toggle_display_style("roll");
    assert_eq!(c.display_style_for("roll"), DisplayStyle::Ratio);
    c.toggle_display_style("roll");
    assert_eq!(c.display_style_for("roll"), DisplayStyle::Percentage);
    assert_eq!(c.display_style_for("alt"), DisplayStyle::Percentage);
}

#[test]
fn toggle_display_style_inserts_percentage_entry() {
    let mut c = Config::default();
    c.toggle_display_style("speed");
    assert_eq!(c.display_style_for("speed"), DisplayStyle::Percentage);
    assert_eq!(c.sort_method_for("speed"), NstrokeSortMethod::Frequency);
    assert_eq!(c.metric_display_styles.len(), 5);
}

#[test]
fn toggle_sort_method_flips_existing_entry() {
    let mut c = Config::default();
    c.toggle_sort_method("alt");
    assert_eq!(c.sort_method_for("alt"), NstrokeSortMethod::Value);
    c.toggle_sort_method("alt");
    assert_eq!(c.sort_method_for("alt"), NstrokeSortMethod::Frequency);
    assert_eq!(c.display_style_for("alt"), DisplayStyle::Percentage);
}

#[test]
fn toggle_sort_method_inserts_value_entry() {
    let mut c = Config::default();
    c.toggle_sort_method("speed");
    assert_eq!(c.sort_method_for("speed"), NstrokeSortMethod::Value);
    assert_eq!(c.display_style_for("speed"), DisplayStyle::Ratio);
}

#[test]
fn metric_display_config_defaults() {
    let m = MetricDisplayConfig::default();
    assert_eq!(m.display_style, DisplayStyle::Ratio);
    assert_eq!(m.nstroke_sort_method, NstrokeSortMethod::Frequency);
}

#[test]
fn style_toggles_flip_both_ways() {
    assert_eq!(DisplayStyle::Ratio.toggled(), DisplayStyle::Percentage);
    assert_eq!(DisplayStyle::Percentage.toggled(), DisplayStyle::Ratio);
    assert_eq!(
        NstrokeSortMethod::Frequency.toggled(),
        NstrokeSortMethod::Value
    );
    assert_eq!(
        NstrokeSortMethod::Value.toggled(),
        NstrokeSortMethod::Frequency
    );
}

#[test]
fn theme_names_are_stable() {
    assert_eq!(KeymuiTheme::Light.name(), "Light");
    assert_eq!(KeymuiTheme::Dark.name(), "Dark");
    assert_eq!(KeymuiTheme::TokyoNight.name(), "Tokyo Night");
    assert_eq!(KeymuiTheme::CatppuccinMocha.name(), "Catpuccin Mocha");
    assert_eq!(KeymuiTheme::default(), KeymuiTheme::TokyoNight);
}
