use keymui::commands::all_commands;
use keymui::UserArg;
use keymui::UserCommand;

#[test]
fn registry_lists_all_commands_in_order() {
    let cmds = all_commands();
    assert_eq!(cmds.len(), 8);
    assert!(matches!(cmds[0], UserCommand::SetMetricsDirectory));
    assert!(matches!(cmds[1], UserCommand::Reload));
    assert!(matches!(cmds[2], UserCommand::ImportCorpus));
    assert!(matches!(cmds[3], UserCommand::ViewNotification));
    assert!(matches!(cmds[4], UserCommand::Swap));
    assert!(matches!(cmds[5], UserCommand::Precision));
    assert!(matches!(cmds[6], UserCommand::NgramFrequency));
    assert!(matches!(cmds[7], UserCommand::SaveLayout));
}

#[test]
fn command_names_are_stable() {
    assert_eq!(
        UserCommand::SetMetricsDirectory.name(),
        "set-metrics-directory"
    );
    assert_eq!(UserCommand::Reload.name(), "reload");
    assert_eq!(UserCommand::ImportCorpus.name(), "import-corpus");
    assert_eq!(UserCommand::ViewNotification.name(), "view-notification");
    assert_eq!(UserCommand::Swap.name(), "swap");
    assert_eq!(UserCommand::Precision.name(), "precision");
    assert_eq!(UserCommand::NgramFrequency.name(), "ngram-frequency");
    assert_eq!(UserCommand::SaveLayout.name(), "save-layout");
}

#[test]
fn argument_slots_match_each_command() {
    assert_eq!(UserCommand::SetMetricsDirectory.args(), vec![]);
    assert_eq!(UserCommand::Reload.args(), vec![]);
    assert_eq!(UserCommand::ImportCorpus.args(), vec![]);
    assert_eq!(UserCommand::ViewNotification.args(), vec![]);
    assert_eq!(UserCommand::Swap.args(), vec![UserArg::Key, UserArg::Key]);
    assert_eq!(UserCommand::Precision.args(), vec![UserArg::NaturalNum]);
    assert_eq!(
        UserCommand::NgramFrequency.args(),
        vec![UserArg::FreeText, UserArg::FreeText]
    );
    assert_eq!(UserCommand::SaveLayout.args(), vec![UserArg::FreeText]);
}

#[test]
fn only_swap_is_priority() {
    let cmds = all_commands();
    for c in cmds {
        assert_eq!(c.is_priority(), matches!(c, UserCommand::Swap));
    }
}
