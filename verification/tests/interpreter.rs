use keymui::action::Action;
use keymui::input::CommandInput;

#[test]
fn swap_two_keys_resolves_and_clears() {
    let mut ci = CommandInput::new();
    ci.on_input_changed("swap q w".to_string());
    let action = ci.parse_command();
    assert_eq!(action, Some(Action::SwapKeys('q', 'w')));
    assert_eq!(ci.command_input, "");
    assert_eq!(ci.input_completions, vec![0, 1, 2, 3, 4, 5, 6, 7]);
}

#[test]
fn swap_takes_first_characters_and_ignores_excess() {
    let mut ci = CommandInput::new();
    ci.on_input_changed("swap quick brown fox".to_string());
    let action = ci.parse_command();
    assert_eq!(action, Some(Action::SwapKeys('q', 'b')));
}

#[test]
fn swap_with_one_key_yields_nothing() {
    let mut ci = CommandInput::new();
    ci.on_input_changed("swap q".to_string());
    let action = ci.parse_command();
    assert_eq!(action, None);
    // the command name still resolved, so the buffer clears
    assert_eq!(ci.command_input, "");
}

#[test]
fn precision_parses_a_natural_number() {
    let mut ci = CommandInput::new();
    ci.on_input_changed("precision 7".to_string());
    assert_eq!(ci.parse_command(), Some(Action::SetPrecision(7)));
    ci.on_input_changed("precision +12".to_string());
    assert_eq!(ci.parse_command(), Some(Action::SetPrecision(12)));
    ci.on_input_changed("precision 4294967295".to_string());
    assert_eq!(ci.parse_command(), Some(Action::SetPrecision(u32::MAX)));
}

#[test]
fn precision_rejects_bad_numbers() {
    let mut ci = CommandInput::new();
    ci.on_input_changed("precision abc".to_string());
    assert_eq!(ci.parse_command(), None);
    // resolution succeeded, so the buffer clears even though the argument
    // did not convert
    assert_eq!(ci.command_input, "");
    ci.on_input_changed("precision 4294967296".to_string());
    assert_eq!(ci.parse_command(), None);
    ci.on_input_changed("precision -3".to_string());
    assert_eq!(ci.parse_command(), None);
    ci.on_input_changed("precision".to_string());
    assert_eq!(ci.parse_command(), None);
}

#[test]
fn empty_submission_is_a_noop() {
    let mut ci = CommandInput::new();
    assert_eq!(ci.parse_command(), None);
    assert_eq!(ci.command_input, "");
}

#[test]
fn whitespace_only_submission_is_a_noop() {
    let mut ci = CommandInput::new();
    ci.command_input = "   ".to_string();
    ci.filter_commands();
    assert_eq!(ci.parse_command(), None);
    assert_eq!(ci.command_input, "   ");
}

#[test]
fn unknown_command_leaves_the_buffer() {
    let mut ci = CommandInput::new();
    ci.on_input_changed("frobnicate 1 2".to_string());
    assert_eq!(ci.parse_command(), None);
    assert_eq!(ci.command_input, "frobnicate 1 2");
}

#[test]
fn partial_name_does_not_resolve() {
    let mut ci = CommandInput::new();
    ci.on_input_changed("swa q w".to_string());
    assert_eq!(ci.parse_command(), None);
    assert_eq!(ci.command_input, "swa q w");
}

#[test]
fn zero_argument_commands_resolve() {
    let mut ci = CommandInput::new();
    ci.on_input_changed("set-metrics-directory".to_string());
    assert_eq!(ci.parse_command(), Some(Action::SetMetricsDirectory));
    ci.on_input_changed("reload".to_string());
    assert_eq!(ci.parse_command(), Some(Action::Reload));
    ci.on_input_changed("import-corpus".to_string());
    assert_eq!(ci.parse_command(), Some(Action::ImportNewCorpus));
    ci.on_input_changed("view-notification".to_string());
    assert_eq!(ci.parse_command(), Some(Action::ViewNotification));
}

#[test]
fn ngram_frequency_takes_up_to_two_ngrams() {
    let mut ci = CommandInput::new();
    ci.on_input_changed("ngram-frequency th he".to_string());
    assert_eq!(
        ci.parse_command(),
        Some(Action::NgramFrequency(vec![
            "th".to_string(),
            "he".to_string()
        ]))
    );
    ci.on_input_changed("ngram-frequency th".to_string());
    assert_eq!(
        ci.parse_command(),
        Some(Action::NgramFrequency(vec!["th".to_string()]))
    );
    ci.on_input_changed("ngram-frequency a b c".to_string());
    assert_eq!(
        ci.parse_command(),
        Some(Action::NgramFrequency(vec![
            "a".to_string(),
            "b".to_string()
        ]))
    );
}

#[test]
fn save_layout_carries_the_name() {
    let mut ci = CommandInput::new();
    ci.on_input_changed("save-layout mine".to_string());
    assert_eq!(ci.parse_command(), Some(Action::SaveLayout("mine".to_string())));
    ci.on_input_changed("save-layout".to_string());
    assert_eq!(ci.parse_command(), None);
}

#[test]
fn tokens_split_on_any_whitespace_runs() {
    let mut ci = CommandInput::new();
    ci.command_input = "swap\tq  \t w".to_string();
    ci.filter_commands();
    assert_eq!(ci.parse_command(), Some(Action::SwapKeys('q', 'w')));
}
