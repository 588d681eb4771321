//! Command input subsystem for a keyboard-layout metrics explorer.
//!
//! The library implements the embedded command language of the application:
//! prefix matching and longest-common-prefix computation over command names,
//! the static command registry, live autocompletion with priority-based
//! disambiguation, and the interpreter that turns a submitted line of text
//! into a typed action for the host application to execute.

pub mod action;
pub mod commands;
pub mod config;
pub mod input;
pub mod matcher;
pub mod numbers;
pub mod tokenize;
pub mod ui;

pub use action::Action;
pub use commands::UserArg;
pub use commands::UserCommand;
pub use config::Config;
pub use config::DisplayStyle;
pub use config::KeymuiTheme;
pub use config::MetricDisplayConfig;
pub use config::NstrokeSortMethod;
pub use input::CommandInput;
pub use matcher::commonest_completion;
pub use matcher::linear_matches;
pub use ui::ColorStyle;
pub use ui::Pane;
pub use ui::PaneKind;
