use keymui::ColorStyle;
use keymui::Pane;
use keymui::PaneKind;

#[test]
fn pane_keeps_its_kind() {
    assert!(matches!(Pane::new(PaneKind::Layout).kind, PaneKind::Layout));
    assert!(matches!(Pane::new(PaneKind::Metrics).kind, PaneKind::Metrics));
    assert!(matches!(
        Pane::new(PaneKind::Nstrokes).kind,
        PaneKind::Nstrokes
    ));
}

#[test]
fn color_styles_are_enumerated_in_order() {
    let all = ColorStyle::all();
    assert_eq!(
        all,
        vec![
            ColorStyle::Frequency,
            ColorStyle::Metric,
            ColorStyle::Fingers,
            ColorStyle::Plain,
        ]
    );
}

#[test]
fn color_style_names_are_stable() {
    assert_eq!(ColorStyle::Frequency.name(), "Frequency");
    assert_eq!(ColorStyle::Metric.name(), "Metric");
    assert_eq!(ColorStyle::Fingers.name(), "Fingers");
    assert_eq!(ColorStyle::Plain.name(), "None");
}
