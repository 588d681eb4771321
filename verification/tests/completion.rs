use keymui::input::CommandInput;
use keymui::UserCommand;

#[test]
fn completion_set_is_exactly_the_prefix_matches() {
    let mut ci = CommandInput::new();
    assert_eq!(ci.input_options.len(), 8);
    ci.on_input_changed("s".to_string());
    assert_eq!(ci.input_completions, vec![0, 4, 7]);
    ci.on_input_changed("se".to_string());
    assert_eq!(ci.input_completions, vec![0]);
    ci.on_input_changed("sw".to_string());
    assert_eq!(ci.input_completions, vec![4]);
    ci.on_input_changed("x".to_string());
    assert_eq!(ci.input_completions, Vec::<usize>::new());
    ci.on_input_changed("".to_string());
    assert_eq!(ci.input_completions, vec![0, 1, 2, 3, 4, 5, 6, 7]);
}

#[test]
fn ambiguous_expansion_stops_at_common_prefix() {
    let options = vec![
        (
            UserCommand::SetMetricsDirectory,
            "set-metrics-directory".to_string(),
        ),
        (UserCommand::SaveLayout, "save-layout".to_string()),
        (UserCommand::SaveLayout, "swap".to_string()),
    ];
    let mut ci = CommandInput::with_options(options);
    ci.on_input_changed("s".to_string());
    assert_eq!(ci.input_completions.len(), 3);
    ci.on_input_changed("s ".to_string());
    assert_eq!(ci.command_input, "s");
    assert_eq!(ci.input_completions.len(), 3);
}

#[test]
fn unique_match_expands_with_trailing_space() {
    let mut ci = CommandInput::new();
    ci.on_input_changed("sa".to_string());
    assert_eq!(ci.input_completions, vec![7]);
    ci.on_input_changed("sa ".to_string());
    assert_eq!(ci.command_input, "save-layout ");
    assert_eq!(ci.input_completions, Vec::<usize>::new());
}

#[test]
fn priority_command_wins_expansion() {
    let mut ci = CommandInput::new();
    ci.on_input_changed("s".to_string());
    assert_eq!(ci.input_completions.len(), 3);
    ci.on_input_changed("s ".to_string());
    assert_eq!(ci.command_input, "swap ");
}

#[test]
fn single_match_expands_to_full_name() {
    let mut ci = CommandInput::new();
    ci.on_input_changed("rel".to_string());
    assert_eq!(ci.input_completions, vec![1]);
    ci.on_input_changed("rel ".to_string());
    assert_eq!(ci.command_input, "reload ");
}

#[test]
fn no_expansion_without_matches() {
    let mut ci = CommandInput::new();
    ci.on_input_changed("zzz".to_string());
    assert_eq!(ci.input_completions.len(), 0);
    ci.on_input_changed("zzz ".to_string());
    assert_eq!(ci.command_input, "zzz ");
}

#[test]
fn expansion_narrows_between_two_candidates() {
    let options = vec![
        (UserCommand::Reload, "reload".to_string()),
        (UserCommand::Precision, "precision".to_string()),
        (UserCommand::SaveLayout, "restore".to_string()),
    ];
    let mut ci = CommandInput::with_options(options);
    ci.on_input_changed("re".to_string());
    assert_eq!(ci.input_completions, vec![0, 2]);
    ci.on_input_changed("re ".to_string());
    assert_eq!(ci.command_input, "re");
    ci.on_input_changed("rel".to_string());
    ci.on_input_changed("rel ".to_string());
    assert_eq!(ci.command_input, "reload ");
}
