use flyline::flyline_apply::apply_flyline_args;
use flyline::flyline_args::{FlylineCommand, ParsedArgs, EXECUTION_SUCCESS, EX_USAGE};
use flyline::settings::{
    ColourTheme, FuzzyMode, MatrixAnimation, MouseMode, Placeholder, PromptWidget, Settings, ShellIntegrationLevel,
};
use flyline::style::Colour;

fn args(command: Option<FlylineCommand>) -> ParsedArgs {
    ParsedArgs {
        no_words: false,
        version: false,
        load_zsh_history: None,
        show_animations: None,
        matrix_animation: None,
        frame_rate: None,
        mouse_mode: None,
        send_shell_integration_codes: None,
        enable_extended_key_codes: None,
        command,
    }
}

#[test]
fn default_settings_values() {
    let s = Settings::default();
    assert_eq!(s.frame_rate, 24);
    assert!(s.show_animations);
    assert_eq!(s.mouse_mode, MouseMode::Smart);
    assert!(s.agent_commands.is_empty());
}

#[test]
fn frame_rate_out_of_range_is_usage_error_and_changes_nothing() {
    let mut s = Settings::default();
    let mut a = args(None);
    a.frame_rate = Some(0);
    a.show_animations = Some(false);
    assert_eq!(apply_flyline_args(&mut s, a), EX_USAGE);
    assert!(s.show_animations);
    let mut a = args(None);
    a.frame_rate = Some(121);
    assert_eq!(apply_flyline_args(&mut s, a), EX_USAGE);
    assert_eq!(s.frame_rate, 24);
}

#[test]
fn top_level_options_are_applied() {
    let mut s = Settings::default();
    let mut a = args(None);
    a.frame_rate = Some(60);
    a.show_animations = Some(false);
    a.matrix_animation = Some(MatrixAnimation::IdleSecs(30));
    a.send_shell_integration_codes = Some(ShellIntegrationLevel::Full);
    a.load_zsh_history = Some(String::new());
    assert_eq!(apply_flyline_args(&mut s, a), EXECUTION_SUCCESS);
    assert_eq!(s.frame_rate, 60);
    assert!(!s.show_animations);
    assert_eq!(s.matrix_animation, MatrixAnimation::IdleSecs(30));
    assert_eq!(s.send_shell_integration_codes, ShellIntegrationLevel::Full);
    assert_eq!(s.zsh_history_path, Some(String::new()));
}

#[test]
fn version_applies_nothing() {
    let mut s = Settings::default();
    let mut a = args(Some(FlylineCommand::Upgrade));
    a.version = true;
    a.show_animations = Some(false);
    assert_eq!(apply_flyline_args(&mut s, a), EXECUTION_SUCCESS);
    assert!(s.show_animations);
    assert!(s.initial_buffer.is_none());
}

#[test]
fn agent_mode_registers_split_command_and_refuses_empty() {
    let mut s = Settings::default();
    let c = FlylineCommand::AgentMode {
        system_prompt: Some("be brief".to_string()),
        trigger_prefix: Some(": ".to_string()),
        command: "copilot --prompt 'a b'".to_string(),
    };
    assert_eq!(apply_flyline_args(&mut s, args(Some(c))), EXECUTION_SUCCESS);
    assert_eq!(s.agent_commands.len(), 1);
    assert_eq!(s.agent_commands[0].0, Some(": ".to_string()));
    assert_eq!(s.agent_commands[0].1.command, vec!["copilot", "--prompt", "a b"]);
    let empty = FlylineCommand::AgentMode { system_prompt: None, trigger_prefix: None, command: "  ".to_string() };
    assert_eq!(apply_flyline_args(&mut s, args(Some(empty))), EX_USAGE);
    assert_eq!(s.agent_commands.len(), 1);
    let again = FlylineCommand::AgentMode { system_prompt: None, trigger_prefix: Some(": ".to_string()), command: "x".to_string() };
    assert_eq!(apply_flyline_args(&mut s, args(Some(again))), EXECUTION_SUCCESS);
    assert_eq!(s.agent_commands.len(), 1);
    assert_eq!(s.agent_commands[0].1.command, vec!["x"]);
}

#[test]
fn animation_needs_positive_rate() {
    let mut s = Settings::default();
    let bad = FlylineCommand::Animation { name: "SPIN".to_string(), fps_positive: false, frame_ms: None, frames: vec!["a".to_string()], ping_pong: false };
    assert_eq!(apply_flyline_args(&mut s, args(Some(bad))), EX_USAGE);
    assert!(s.custom_animations.is_empty());
    let good = FlylineCommand::Animation { name: "SPIN".to_string(), fps_positive: true, frame_ms: Some(100), frames: vec!["a".to_string()], ping_pong: true };
    assert_eq!(apply_flyline_args(&mut s, args(Some(good))), EXECUTION_SUCCESS);
    assert_eq!(s.custom_animations[0].0, "SPIN");
    assert_eq!(s.custom_animations[0].1.frame_ms, Some(100));
}

#[test]
fn custom_widget_checks_command_block_and_placeholder() {
    let mut s = Settings::default();
    let mk = |cmd: &str, block: Option<i32>, ph: Option<&str>| FlylineCommand::CustomWidget {
        name: "W".to_string(),
        command: cmd.to_string(),
        block,
        placeholder: ph.map(|p| p.to_string()),
    };
    assert_eq!(apply_flyline_args(&mut s, args(Some(mk("", None, None)))), EX_USAGE);
    assert_eq!(apply_flyline_args(&mut s, args(Some(mk("run.sh", Some(-1), None)))), EX_USAGE);
    assert_eq!(apply_flyline_args(&mut s, args(Some(mk("run.sh", None, Some("many"))))), EX_USAGE);
    assert!(s.custom_prompt_widgets.is_empty());
    assert_eq!(apply_flyline_args(&mut s, args(Some(mk("run.sh -v", Some(0), Some("3"))))), EXECUTION_SUCCESS);
    match &s.custom_prompt_widgets[0].1 {
        PromptWidget::Custom(w) => {
            assert_eq!(w.command, vec!["run.sh", "-v"]);
            assert!(matches!(w.placeholder, Placeholder::Spaces(3)));
        }
        _ => panic!("expected a custom widget"),
    }
    assert_eq!(apply_flyline_args(&mut s, args(Some(mk("run.sh", None, None)))), EXECUTION_SUCCESS);
    assert_eq!(s.custom_prompt_widgets.len(), 1);
    match &s.custom_prompt_widgets[0].1 {
        PromptWidget::Custom(w) => assert!(matches!(w.placeholder, Placeholder::Prev)),
        _ => panic!("expected a custom widget"),
    }
}

#[test]
fn set_style_applies_theme_then_assignments_until_error() {
    let mut s = Settings::default();
    let c = FlylineCommand::SetStyle {
        default_theme: Some(ColourTheme::Light),
        styles: vec!["matching-char=bold green".to_string(), "nope=red".to_string(), "comment=red".to_string()],
    };
    let before_comment = flyline::palette::Palette::light().comment();
    assert_eq!(apply_flyline_args(&mut s, args(Some(c))), EX_USAGE);
    assert_eq!(s.colour_palette.matching_char().fg, Some(Colour::Green));
    assert_eq!(s.colour_palette.comment(), before_comment);
}

#[test]
fn suggestions_zero_rows_refused_after_earlier_options() {
    let mut s = Settings::default();
    let c = FlylineCommand::Suggestions {
        fuzzy_mode: Some(FuzzyMode::NoFolders),
        auto_suggest: Some(false),
        use_flycomp: None,
        sort_order: None,
        num_suggestion_rows: Some(0),
        flycomp_output: Some("/tmp/x".to_string()),
        flycomp_blacklist: Some(vec!["git".to_string()]),
    };
    assert_eq!(apply_flyline_args(&mut s, args(Some(c))), EX_USAGE);
    assert_eq!(s.fuzzy_mode, FuzzyMode::NoFolders);
    assert!(!s.auto_suggest);
    assert_eq!(s.flycomp_blacklist, vec!["git".to_string()]);
    assert_eq!(s.num_suggestion_rows, 10);
    assert!(s.flycomp_output.is_none());
}

#[test]
fn upgrade_and_tutorial_and_editor() {
    let mut s = Settings::default();
    assert_eq!(apply_flyline_args(&mut s, args(Some(FlylineCommand::Upgrade))), EXECUTION_SUCCESS);
    assert!(s.initial_buffer.as_deref().unwrap().ends_with("install.sh | sh"));
    assert_eq!(apply_flyline_args(&mut s, args(Some(FlylineCommand::RunTutorial { enabled: None }))), EXECUTION_SUCCESS);
    assert!(s.run_tutorial);
    let e = FlylineCommand::Editor { auto_close_chars: Some(false), show_inline_history: None, select_with_mouse: Some(false) };
    assert_eq!(apply_flyline_args(&mut s, args(Some(e))), EXECUTION_SUCCESS);
    assert!(!s.auto_close_chars);
    assert!(s.show_inline_history);
    assert!(!s.select_with_mouse);
}

#[test]
fn call_with_no_words_is_usage_error() {
    let mut s = Settings::default();
    let mut a = args(None);
    a.no_words = true;
    assert_eq!(apply_flyline_args(&mut s, a), EX_USAGE);
    assert_eq!(apply_flyline_args(&mut s, args(None)), EXECUTION_SUCCESS);
}

#[test]
fn time_format_is_checked() {
    let mut s = Settings::default();
    let ok = FlylineCommand::Time { format: Some("%Y-%m-%dT%H:%M:%S".to_string()) };
    assert_eq!(apply_flyline_args(&mut s, args(Some(ok))), EXECUTION_SUCCESS);
    let bad = FlylineCommand::Time { format: Some("%".to_string()) };
    assert_eq!(apply_flyline_args(&mut s, args(Some(bad))), EX_USAGE);
    let unknown = FlylineCommand::Time { format: Some("%Q".to_string()) };
    assert_eq!(apply_flyline_args(&mut s, args(Some(unknown))), EX_USAGE);
    assert_eq!(apply_flyline_args(&mut s, args(Some(FlylineCommand::Time { format: None }))), EXECUTION_SUCCESS);
}
