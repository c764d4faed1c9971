//! What a `flyline` builtin call does to the session settings once its
//! arguments have been parsed: each option sets its setting, each
//! configuring subcommand registers or changes what it names, and a value
//! that the command line refuses ends the call with a usage error.

use crate::cli::{command_words, placeholder_value, shell_words};
use crate::palette::{kind_named, rich_style_of, rich_text_style, theme_palette, Palette};
use crate::settings::{
    opt_view, AgentModeCommand, ColourTheme, FuzzyMode, MatrixAnimation, MouseMode, Placeholder, PromptAnimation, PromptWidget,
    PromptWidgetCopyBuffer, PromptWidgetCustom, PromptWidgetLastCommandDuration, PromptWidgetMouseMode, Settings,
    SettingsView, ShellIntegrationLevel, SuggestionSortOrder, WidgetView,
};
use crate::text_ops::split_once;
use vstd::prelude::*;

verus! {

/// The status of a builtin call that did its work.
pub const EXECUTION_SUCCESS: i32 = 0;

/// The status of a builtin call refused for its arguments (bash's
/// `EX_USAGE`).
pub const EX_USAGE: i32 = 258;

/// The command line `flyline upgrade` leaves in the buffer.
pub open spec fn install_command() -> Seq<char> {
    "curl -sSfL https://github.com/HalFrgrd/flyline/releases/latest/download/install.sh | sh"@
}

/// A subcommand of the `flyline` builtin, as parsed.
pub enum FlylineCommand {
    /// A subcommand whose whole work is output (`version`, `dump`, `log`,
    /// `perf`, `changelog`); the caller does it.
    Output,
    /// `time`: the caller prints the time, in `format` when one is given,
    /// which must be a valid chrono strftime format.
    Time { format: Option<String> },
    /// `set-agent-mode`.
    AgentMode { system_prompt: Option<String>, trigger_prefix: Option<String>, command: String },
    /// `create-prompt-widget animation`: `fps_positive` tells whether the
    /// rate was above zero, `frame_ms` is the frame length it gives.
    Animation { name: String, fps_positive: bool, frame_ms: Option<i64>, frames: Vec<String>, ping_pong: bool },
    /// `create-prompt-widget mouse-mode`.
    MouseModeWidget { name: String, enabled_text: String, disabled_text: String },
    /// `create-prompt-widget copy-buffer`.
    CopyBufferWidget { name: String, text: String },
    /// `create-prompt-widget custom`.
    CustomWidget { name: String, command: String, block: Option<i32>, placeholder: Option<String> },
    /// `create-prompt-widget last-command-duration`.
    LastCommandDurationWidget { name: String },
    /// `set-style`.
    SetStyle { default_theme: Option<ColourTheme>, styles: Vec<String> },
    /// `key`, its `--debug` option.
    Key { debug: Option<bool> },
    /// `mouse`.
    Mouse { debug: Option<bool>, change_shape: Option<bool>, mode: Option<MouseMode> },
    /// `run-tutorial`.
    RunTutorial { enabled: Option<bool> },
    /// `editor`.
    Editor { auto_close_chars: Option<bool>, show_inline_history: Option<bool>, select_with_mouse: Option<bool> },
    /// `suggestions`.
    Suggestions {
        fuzzy_mode: Option<FuzzyMode>,
        auto_suggest: Option<bool>,
        use_flycomp: Option<bool>,
        sort_order: Option<SuggestionSortOrder>,
        num_suggestion_rows: Option<u16>,
        flycomp_output: Option<String>,
        flycomp_blacklist: Option<Vec<String>>,
    },
    /// `upgrade`.
    Upgrade,
}

/// The options of a `flyline` builtin call, as parsed.
pub struct ParsedArgs {
    /// The call was given no words at all.
    pub no_words: bool,
    pub version: bool,
    pub load_zsh_history: Option<String>,
    pub show_animations: Option<bool>,
    pub matrix_animation: Option<MatrixAnimation>,
    pub frame_rate: Option<u8>,
    pub mouse_mode: Option<MouseMode>,
    pub send_shell_integration_codes: Option<ShellIntegrationLevel>,
    pub enable_extended_key_codes: Option<bool>,
    pub command: Option<FlylineCommand>,
}

/// Whether chrono's strftime reading of `format` holds an error item
/// (an unknown or unfinished specifier).
pub uninterp spec fn strftime_invalid(format: Seq<char>) -> bool;

/// The given value, else `d`.
pub open spec fn or_keep<T>(o: Option<T>, d: T) -> T {
    match o {
        Some(x) => x,
        None => d,
    }
}

/// The given string's view, else `d`.
pub open spec fn str_or(o: Option<String>, d: Option<Seq<char>>) -> Option<Seq<char>> {
    match o {
        Some(p) => Some(p@),
        None => d,
    }
}

/// The given list's view, else `d`.
pub open spec fn list_or(o: Option<Vec<String>>, d: Seq<String>) -> Seq<String> {
    match o {
        Some(l) => l@,
        None => d,
    }
}

/// The first entry of `m` with key `k`.
pub open spec fn first_key<K, V>(m: Seq<(K, V)>, k: K) -> int {
    choose|i: int| 0 <= i < m.len() && m[i].0 == k && forall|j: int| 0 <= j < i ==> m[j].0 != k
}

/// `m` with `v` under `k`: the first entry with that key gets it, else it
/// is added at the end.
pub open spec fn upsert<K, V>(m: Seq<(K, V)>, k: K, v: V) -> Seq<(K, V)> {
    if exists|i: int| 0 <= i < m.len() && m[i].0 == k {
        m.update(first_key(m, k), (k, v))
    } else {
        m.push((k, v))
    }
}

/// The settings with the top-level options applied.
pub open spec fn with_top(v: SettingsView, a: ParsedArgs) -> SettingsView {
    SettingsView {
        zsh_history_path: str_or(a.load_zsh_history, v.zsh_history_path),
        show_animations: or_keep(a.show_animations, v.show_animations),
        matrix_animation: or_keep(a.matrix_animation, v.matrix_animation),
        frame_rate: or_keep(a.frame_rate, v.frame_rate),
        mouse_mode: or_keep(a.mouse_mode, v.mouse_mode),
        send_shell_integration_codes: or_keep(a.send_shell_integration_codes, v.send_shell_integration_codes),
        enable_extended_key_codes: or_keep(a.enable_extended_key_codes, v.enable_extended_key_codes),
        ..v
    }
}

/// One `NAME=STYLE` assignment of `set-style` on the palette `p`: `None`
/// when the argument has no `=`, names no slot or its style does not
/// parse; else the palette with that slot set.
pub open spec fn style_step(p: Palette, arg: Seq<char>) -> Option<Palette> {
    match split_once(arg, '=') {
        None => None,
        Some((name, st)) => match kind_named(name) {
            None => None,
            Some(kind) => match rich_style_of(st) {
                Ok(q) => Some(p.with_slot(kind, rich_text_style(q.0, q.1, q.2, q.3))),
                Err(_) => None,
            },
        },
    }
}

/// The assignments applied in order; at the first refused one, whether all
/// were taken and the palette as it stands then.
pub open spec fn styles_apply(p: Palette, args: Seq<Seq<char>>) -> (bool, Palette)
    decreases args.len(),
{
    if args.len() == 0 {
        (true, p)
    } else {
        match style_step(p, args[0]) {
            None => (false, p),
            Some(p2) => styles_apply(p2, args.drop_first()),
        }
    }
}

/// The placeholder of a custom widget: `prev` when none is given.
pub open spec fn placeholder_or_prev(p: Option<String>) -> Option<Placeholder> {
    match p {
        None => Some(Placeholder::Prev),
        Some(s) => placeholder_value(s@),
    }
}

/// `set-agent-mode`: the command's words under its trigger prefix; refused
/// when the command has no words.
pub open spec fn agent_outcome(v: SettingsView, system_prompt: Option<String>, trigger_prefix: Option<String>, command: String) -> (bool, SettingsView) {
    match command_words(shell_words(command@), command@) {
        None => (false, v),
        Some(ws) => (
            true,
            SettingsView {
                agent_commands: upsert(v.agent_commands, opt_view(trigger_prefix), (ws, opt_view(system_prompt))),
                ..v
            },
        ),
    }
}

/// `create-prompt-widget animation`: the animation under its name; refused
/// when its rate is not above zero.
pub open spec fn animation_outcome(
    v: SettingsView,
    name: String,
    fps_positive: bool,
    frame_ms: Option<i64>,
    frames: Vec<String>,
    ping_pong: bool,
) -> (bool, SettingsView) {
    if !fps_positive {
        (false, v)
    } else {
        (
            true,
            SettingsView {
                custom_animations: upsert(
                    v.custom_animations,
                    name@,
                    (name@, frame_ms, frames@.map_values(|f: String| f@), ping_pong),
                ),
                ..v
            },
        )
    }
}

/// A widget registered under `name`.
pub open spec fn widget_outcome(v: SettingsView, name: Seq<char>, w: WidgetView) -> (bool, SettingsView) {
    (true, SettingsView { custom_prompt_widgets: upsert(v.custom_prompt_widgets, name, w), ..v })
}

/// `create-prompt-widget custom`: the widget under its name; refused when
/// the command has no words, the wait is negative or the placeholder is
/// neither `prev` nor a number.
pub open spec fn custom_outcome(v: SettingsView, name: String, command: String, block: Option<i32>, placeholder: Option<String>) -> (bool, SettingsView) {
    match command_words(shell_words(command@), command@) {
        None => (false, v),
        Some(ws) => if block matches Some(ms) && ms < 0 {
            (false, v)
        } else {
            match placeholder_or_prev(placeholder) {
                None => (false, v),
                Some(ph) => widget_outcome(v, name@, WidgetView::Custom(name@, ws, block, ph)),
            }
        },
    }
}

/// `set-style`: the theme's preset, when given, then the assignments.
pub open spec fn set_style_outcome(v: SettingsView, default_theme: Option<ColourTheme>, styles: Vec<String>) -> (bool, SettingsView) {
    let p1 = match default_theme {
        Some(t) => theme_palette(t),
        None => v.palette,
    };
    let r = styles_apply(p1, styles@.map_values(|s: String| s@));
    (r.0, SettingsView { palette: r.1, ..v })
}

/// `suggestions`: the options in order; a row count of 0 is refused, the
/// options before it staying applied.
pub open spec fn suggestions_outcome(
    v: SettingsView,
    fuzzy_mode: Option<FuzzyMode>,
    auto_suggest: Option<bool>,
    use_flycomp: Option<bool>,
    sort_order: Option<SuggestionSortOrder>,
    num_suggestion_rows: Option<u16>,
    flycomp_output: Option<String>,
    flycomp_blacklist: Option<Vec<String>>,
) -> (bool, SettingsView) {
    let v1 = SettingsView {
        fuzzy_mode: or_keep(fuzzy_mode, v.fuzzy_mode),
        flycomp_blacklist: list_or(flycomp_blacklist, v.flycomp_blacklist),
        auto_suggest: or_keep(auto_suggest, v.auto_suggest),
        use_flycomp: or_keep(use_flycomp, v.use_flycomp),
        suggestion_sort_order: or_keep(sort_order, v.suggestion_sort_order),
        ..v
    };
    if num_suggestion_rows == Some(0u16) {
        (false, v1)
    } else {
        (
            true,
            SettingsView {
                num_suggestion_rows: or_keep(num_suggestion_rows, v1.num_suggestion_rows),
                flycomp_output: str_or(flycomp_output, v1.flycomp_output),
                ..v1
            },
        )
    }
}

/// What a subcommand does to the settings: whether it succeeded, and the
/// settings after it (a refused subcommand keeps what it did before the
/// refusal).
pub open spec fn command_outcome(v: SettingsView, c: FlylineCommand) -> (bool, SettingsView) {
    match c {
        FlylineCommand::Output => (true, v),
        FlylineCommand::Time { format } => (
            match format {
                Some(f) => !strftime_invalid(f@),
                None => true,
            },
            v,
        ),
        FlylineCommand::AgentMode { system_prompt, trigger_prefix, command } => agent_outcome(v, system_prompt, trigger_prefix, command),
        FlylineCommand::Animation { name, fps_positive, frame_ms, frames, ping_pong } => animation_outcome(
            v,
            name,
            fps_positive,
            frame_ms,
            frames,
            ping_pong,
        ),
        FlylineCommand::MouseModeWidget { name, enabled_text, disabled_text } => widget_outcome(
            v,
            name@,
            WidgetView::MouseMode(name@, enabled_text@, disabled_text@),
        ),
        FlylineCommand::CopyBufferWidget { name, text } => widget_outcome(v, name@, WidgetView::CopyBuffer(name@, text@)),
        FlylineCommand::CustomWidget { name, command, block, placeholder } => custom_outcome(v, name, command, block, placeholder),
        FlylineCommand::LastCommandDurationWidget { name } => widget_outcome(v, name@, WidgetView::LastCommandDuration(name@)),
        FlylineCommand::SetStyle { default_theme, styles } => set_style_outcome(v, default_theme, styles),
        FlylineCommand::Key { debug } => (true, SettingsView { key_debug: or_keep(debug, v.key_debug), ..v }),
        FlylineCommand::Mouse { debug, change_shape, mode } => (
            true,
            SettingsView {
                mouse_debug: or_keep(debug, v.mouse_debug),
                mouse_change_shape: or_keep(change_shape, v.mouse_change_shape),
                mouse_mode: or_keep(mode, v.mouse_mode),
                ..v
            },
        ),
        FlylineCommand::RunTutorial { enabled } => (true, SettingsView { run_tutorial: or_keep(enabled, true), ..v }),
        FlylineCommand::Editor { auto_close_chars, show_inline_history, select_with_mouse } => (
            true,
            SettingsView {
                auto_close_chars: or_keep(auto_close_chars, v.auto_close_chars),
                show_inline_history: or_keep(show_inline_history, v.show_inline_history),
                select_with_mouse: or_keep(select_with_mouse, v.select_with_mouse),
                ..v
            },
        ),
        FlylineCommand::Suggestions {
            fuzzy_mode,
            auto_suggest,
            use_flycomp,
            sort_order,
            num_suggestion_rows,
            flycomp_output,
            flycomp_blacklist,
        } => suggestions_outcome(
            v,
            fuzzy_mode,
            auto_suggest,
            use_flycomp,
            sort_order,
            num_suggestion_rows,
            flycomp_output,
            flycomp_blacklist,
        ),
        FlylineCommand::Upgrade => (true, SettingsView { initial_buffer: Some(install_command()), ..v }),
    }
}

/// What a `flyline` builtin call with the parsed options `a` does to the
/// settings `v`, and its status: a call with no words is a usage error
/// (the caller shows the help); a frame rate outside 1 to 120 is refused
/// before anything is applied; `--version` applies nothing; otherwise the
/// top-level options are applied, then the subcommand (see
/// `command_outcome`), the status telling whether it succeeded.
pub open spec fn flyline_outcome(v: SettingsView, a: ParsedArgs) -> (i32, SettingsView) {
    if a.no_words {
        (EX_USAGE, v)
    } else if a.frame_rate matches Some(f) && (f < 1 || f > 120) {
        (EX_USAGE, v)
    } else if a.version {
        (EXECUTION_SUCCESS, v)
    } else {
        let v1 = with_top(v, a);
        match a.command {
            None => (EXECUTION_SUCCESS, v1),
            Some(c) => {
                let r = command_outcome(v1, c);
                (if r.0 { EXECUTION_SUCCESS } else { EX_USAGE }, r.1)
            },
        }
    }
}

} // verus!
