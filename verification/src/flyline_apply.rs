//! Applying a parsed `flyline` builtin call to the session settings, as
//! `flyline_outcome` describes.

use crate::cli::{parse_placeholder, parse_style_assignment, split_command_args};
use crate::flyline_args::{
    agent_outcome, command_outcome, strftime_invalid, custom_outcome, first_key, flyline_outcome, list_or, or_keep, set_style_outcome,
    str_or, style_step, styles_apply, suggestions_outcome, upsert, with_top, FlylineCommand, ParsedArgs, EXECUTION_SUCCESS,
    EX_USAGE,
};
use crate::palette::{parse_str_to_style, theme_palette, Palette};
use crate::settings::{
    opt_view, AgentModeCommand, ColourTheme, FuzzyMode, Placeholder, PromptAnimation, PromptWidget, PromptWidgetCopyBuffer,
    PromptWidgetCustom, PromptWidgetLastCommandDuration, PromptWidgetMouseMode, Settings, SettingsView,
    SuggestionSortOrder, MouseMode,
};
use crate::text_ops::chars_eq_exec;
use crate::unicode::chars_of;
use vstd::prelude::*;

verus! {

/// `chrono::format::StrftimeItems::new(format).parse()` fails: chrono's
/// source makes it fail exactly when one of the format's items is
/// `Item::Error`. Which formats those are is chrono's format grammar, so
/// the result is named (`strftime_invalid`), not stated.
#[verifier::external_body]
fn strftime_format_invalid(format: &str) -> (r: bool)
    ensures
        r == strftime_invalid(format@),
{
    chrono::format::StrftimeItems::new(format).parse().is_err()
}

/// Put `v` under the name `k` in `m` (see `upsert`).
fn upsert_named<V: View>(m: &mut Vec<(String, V)>, k: String, v: V)
    ensures
        final(m)@.map_values(|e: (String, V)| (e.0@, e.1@)) == upsert(
            old(m)@.map_values(|e: (String, V)| (e.0@, e.1@)),
            k@,
            v@,
        ),
{
    let ghost mv = old(m)@.map_values(|e: (String, V)| (e.0@, e.1@));
    let kc = chars_of(k.as_str());
    let mut i: usize = 0;
    while i < m.len()
        invariant
            i <= m.len(),
            m@ == old(m)@,
            mv == old(m)@.map_values(|e: (String, V)| (e.0@, e.1@)),
            kc@ == k@,
            forall|j: int| 0 <= j < i ==> (#[trigger] mv[j]).0 != k@,
        decreases m.len() - i,
    {
        if chars_eq_exec(&chars_of(m[i].0.as_str()), &kc) {
            assert(mv[i as int].0 == k@);
            let ghost f = first_key(mv, k@);
            assert(0 <= f < mv.len() && mv[f].0 == k@ && forall|j: int| 0 <= j < f ==> mv[j].0 != k@);
            assert(f == i as int);
            let ghost kv = k@;
            let ghost vv = v@;
            m.set(i, (k, v));
            assert(m@.map_values(|e: (String, V)| (e.0@, e.1@)) =~= mv.update(i as int, (kv, vv)));
            return;
        }
        i = i + 1;
    }
    let ghost kv = k@;
    let ghost vv = v@;
    m.push((k, v));
    assert(m@.map_values(|e: (String, V)| (e.0@, e.1@)) =~= mv.push((kv, vv)));
}

/// Whether two optional strings are equal.
fn opt_eq(a: &Option<String>, b: &Option<String>) -> (r: bool)
    ensures
        r == (opt_view(*a) == opt_view(*b)),
{
    match (a, b) {
        (None, None) => true,
        (Some(x), Some(y)) => chars_eq_exec(&chars_of(x.as_str()), &chars_of(y.as_str())),
        _ => false,
    }
}

/// Put the agent command `v` under the trigger prefix `k` (see `upsert`).
fn upsert_agent(m: &mut Vec<(Option<String>, AgentModeCommand)>, k: Option<String>, v: AgentModeCommand)
    ensures
        final(m)@.map_values(|e: (Option<String>, AgentModeCommand)| (opt_view(e.0), e.1@)) == upsert(
            old(m)@.map_values(|e: (Option<String>, AgentModeCommand)| (opt_view(e.0), e.1@)),
            opt_view(k),
            v@,
        ),
{
    let ghost mv = old(m)@.map_values(|e: (Option<String>, AgentModeCommand)| (opt_view(e.0), e.1@));
    let mut i: usize = 0;
    while i < m.len()
        invariant
            i <= m.len(),
            m@ == old(m)@,
            mv == old(m)@.map_values(|e: (Option<String>, AgentModeCommand)| (opt_view(e.0), e.1@)),
            forall|j: int| 0 <= j < i ==> (#[trigger] mv[j]).0 != opt_view(k),
        decreases m.len() - i,
    {
        if opt_eq(&m[i].0, &k) {
            assert(mv[i as int].0 == opt_view(k));
            let ghost f = first_key(mv, opt_view(k));
            assert(0 <= f < mv.len() && mv[f].0 == opt_view(k) && forall|j: int| 0 <= j < f ==> mv[j].0 != opt_view(k));
            assert(f == i as int);
            let ghost kv = opt_view(k);
            let ghost vv = v@;
            m.set(i, (k, v));
            assert(m@.map_values(|e: (Option<String>, AgentModeCommand)| (opt_view(e.0), e.1@)) =~= mv.update(
                i as int,
                (kv, vv),
            ));
            return;
        }
        i = i + 1;
    }
    let ghost kv = opt_view(k);
    let ghost vv = v@;
    m.push((k, v));
    assert(m@.map_values(|e: (Option<String>, AgentModeCommand)| (opt_view(e.0), e.1@)) =~= mv.push((kv, vv)));
}

/// Apply the `NAME=STYLE` assignments in order, stopping at the first one
/// refused (see `styles_apply`).
fn apply_styles(palette: &mut Palette, styles: &Vec<String>) -> (ok: bool)
    ensures
        (ok, *final(palette)) == styles_apply(*old(palette), styles@.map_values(|s: String| s@)),
{
    let ghost args = styles@.map_values(|s: String| s@);
    let ghost p0 = *palette;
    assert(args.skip(0) =~= args);
    let mut i: usize = 0;
    while i < styles.len()
        invariant
            i <= styles.len(),
            args == styles@.map_values(|s: String| s@),
            p0 == *old(palette),
            styles_apply(p0, args) == styles_apply(*palette, args.skip(i as int)),
        decreases styles.len() - i,
    {
        let ghost rest = args.skip(i as int);
        assert(rest[0] == styles@[i as int]@);
        assert(rest.drop_first() =~= args.skip(i + 1));
        match parse_style_assignment(styles[i].as_str()) {
            Err(_) => {
                assert(style_step(*palette, rest[0]) is None);
                assert(styles_apply(*palette, rest) == (false, *palette));
                return false;
            },
            Ok((kind, st)) => {
                match parse_str_to_style(st.as_str()) {
                    Ok(ts) => {
                        assert(style_step(*palette, rest[0]) == Some(palette.with_slot(kind, ts)));
                        palette.set(kind, ts);
                    },
                    Err(_) => {
                        assert(style_step(*palette, rest[0]) is None);
                        assert(styles_apply(*palette, rest) == (false, *palette));
                        return false;
                    },
                }
            },
        }
        i = i + 1;
    }
    assert(args.skip(i as int).len() == 0);
    true
}

/// `set-agent-mode`: register the command under its trigger prefix, or
/// refuse a command with no words.
fn apply_agent(
    settings: &mut Settings,
    system_prompt: Option<String>,
    trigger_prefix: Option<String>,
    command: String,
) -> (ok: bool)
    ensures
        (ok, final(settings)@) == agent_outcome(old(settings)@, system_prompt, trigger_prefix, command),
{
    let ghost sp = opt_view(system_prompt);
    let ghost tp = opt_view(trigger_prefix);
    match split_command_args(command.as_str()) {
        None => false,
        Some(ws) => {
            let cmd = AgentModeCommand { command: ws, system_prompt };
            upsert_agent(&mut settings.agent_commands, trigger_prefix, cmd);
            true
        },
    }
}

/// `create-prompt-widget custom`: register the widget, or refuse a command
/// with no words, a negative wait or a placeholder that is neither `prev`
/// nor a number.
fn apply_custom(
    settings: &mut Settings,
    name: String,
    command: String,
    block: Option<i32>,
    placeholder: Option<String>,
) -> (ok: bool)
    ensures
        (ok, final(settings)@) == custom_outcome(old(settings)@, name, command, block, placeholder),
{
    let ws = match split_command_args(command.as_str()) {
        None => {
            return false;
        },
        Some(ws) => ws,
    };
    if let Some(ms) = block {
        if ms < 0 {
            return false;
        }
    }
    let ph = match &placeholder {
        None => Placeholder::Prev,
        Some(p) => match parse_placeholder(p.as_str()) {
            Some(ph) => ph,
            None => {
                return false;
            },
        },
    };
    let key = name.clone();
    let w = PromptWidget::Custom(PromptWidgetCustom { name, command: ws, block, placeholder: ph });
    upsert_named(&mut settings.custom_prompt_widgets, key, w);
    true
}

/// Replace a list by the given one, if any.
fn set_list(field: &mut Vec<String>, o: Option<Vec<String>>)
    ensures
        final(field)@ == list_or(o, old(field)@),
{
    if let Some(l) = o {
        *field = l;
    }
}

/// Replace an optional string by the given one, if any.
fn set_opt_string(field: &mut Option<String>, o: Option<String>)
    ensures
        opt_view(*final(field)) == str_or(o, opt_view(*old(field))),
{
    if let Some(p) = o {
        *field = Some(p);
    }
}

/// The `suggestions` options before the row count.
#[verifier::rlimit(100)]
fn apply_suggestion_flags(
    settings: &mut Settings,
    fuzzy_mode: Option<FuzzyMode>,
    auto_suggest: Option<bool>,
    use_flycomp: Option<bool>,
    sort_order: Option<SuggestionSortOrder>,
    flycomp_blacklist: Option<Vec<String>>,
)
    ensures
        final(settings)@ == (SettingsView {
            fuzzy_mode: or_keep(fuzzy_mode, old(settings)@.fuzzy_mode),
            flycomp_blacklist: list_or(flycomp_blacklist, old(settings)@.flycomp_blacklist),
            auto_suggest: or_keep(auto_suggest, old(settings)@.auto_suggest),
            use_flycomp: or_keep(use_flycomp, old(settings)@.use_flycomp),
            suggestion_sort_order: or_keep(sort_order, old(settings)@.suggestion_sort_order),
            ..old(settings)@
        }),
{
    settings.fuzzy_mode = match fuzzy_mode {
        Some(m) => m,
        None => settings.fuzzy_mode,
    };
    settings.auto_suggest = match auto_suggest {
        Some(b) => b,
        None => settings.auto_suggest,
    };
    settings.use_flycomp = match use_flycomp {
        Some(b) => b,
        None => settings.use_flycomp,
    };
    settings.suggestion_sort_order = match sort_order {
        Some(o) => o,
        None => settings.suggestion_sort_order,
    };
    set_list(&mut settings.flycomp_blacklist, flycomp_blacklist);
}

/// The row count (not 0) and output directory of `suggestions`.
fn apply_suggestion_rows(settings: &mut Settings, num_suggestion_rows: Option<u16>, flycomp_output: Option<String>)
    requires
        num_suggestion_rows != Some(0u16),
    ensures
        final(settings)@ == (SettingsView {
            num_suggestion_rows: or_keep(num_suggestion_rows, old(settings)@.num_suggestion_rows),
            flycomp_output: str_or(flycomp_output, old(settings)@.flycomp_output),
            ..old(settings)@
        }),
{
    settings.num_suggestion_rows = match num_suggestion_rows {
        Some(n) => n,
        None => settings.num_suggestion_rows,
    };
    set_opt_string(&mut settings.flycomp_output, flycomp_output);
}

/// `suggestions`: apply the options in order, refusing a row count of 0
/// (the options before it stay applied).
fn apply_suggestions(
    settings: &mut Settings,
    fuzzy_mode: Option<FuzzyMode>,
    auto_suggest: Option<bool>,
    use_flycomp: Option<bool>,
    sort_order: Option<SuggestionSortOrder>,
    num_suggestion_rows: Option<u16>,
    flycomp_output: Option<String>,
    flycomp_blacklist: Option<Vec<String>>,
) -> (ok: bool)
    ensures
        (ok, final(settings)@) == suggestions_outcome(
            old(settings)@,
            fuzzy_mode,
            auto_suggest,
            use_flycomp,
            sort_order,
            num_suggestion_rows,
            flycomp_output,
            flycomp_blacklist,
        ),
{
    apply_suggestion_flags(settings, fuzzy_mode, auto_suggest, use_flycomp, sort_order, flycomp_blacklist);
    let zero = match num_suggestion_rows {
        Some(n) => n == 0,
        None => false,
    };
    if zero {
        return false;
    }
    apply_suggestion_rows(settings, num_suggestion_rows, flycomp_output);
    true
}

/// `set-style`: the theme first, when given, then the assignments.
fn apply_set_style(settings: &mut Settings, default_theme: Option<ColourTheme>, styles: Vec<String>) -> (ok: bool)
    ensures
        (ok, final(settings)@) == set_style_outcome(old(settings)@, default_theme, styles),
{
    let ghost v = old(settings)@;
    if let Some(t) = default_theme {
        settings.colour_palette.apply_theme(t);
    }
    let ok = apply_styles(&mut settings.colour_palette, &styles);
    let ghost p1 = match default_theme {
        Some(t) => theme_palette(t),
        None => v.palette,
    };
    let ghost r = styles_apply(p1, styles@.map_values(|s: String| s@));
    ok
}

/// `key --debug`.
fn apply_key(settings: &mut Settings, debug: Option<bool>)
    ensures
        final(settings)@ == command_outcome(old(settings)@, FlylineCommand::Key { debug }).1,
{
    settings.key_debug = match debug {
        Some(b) => b,
        None => settings.key_debug,
    };
}

/// `mouse`.
#[verifier::rlimit(100)]
fn apply_mouse(settings: &mut Settings, debug: Option<bool>, change_shape: Option<bool>, mode: Option<MouseMode>)
    ensures
        final(settings)@ == command_outcome(old(settings)@, FlylineCommand::Mouse { debug, change_shape, mode }).1,
{
    settings.mouse_debug = match debug {
        Some(b) => b,
        None => settings.mouse_debug,
    };
    settings.mouse_change_shape = match change_shape {
        Some(b) => b,
        None => settings.mouse_change_shape,
    };
    settings.mouse_mode = match mode {
        Some(m) => m,
        None => settings.mouse_mode,
    };
}

/// `editor`.
#[verifier::rlimit(100)]
fn apply_editor(
    settings: &mut Settings,
    auto_close_chars: Option<bool>,
    show_inline_history: Option<bool>,
    select_with_mouse: Option<bool>,
)
    ensures
        final(settings)@ == command_outcome(
            old(settings)@,
            FlylineCommand::Editor { auto_close_chars, show_inline_history, select_with_mouse },
        ).1,
{
    settings.auto_close_chars = match auto_close_chars {
        Some(b) => b,
        None => settings.auto_close_chars,
    };
    settings.show_inline_history = match show_inline_history {
        Some(b) => b,
        None => settings.show_inline_history,
    };
    settings.select_with_mouse = match select_with_mouse {
        Some(b) => b,
        None => settings.select_with_mouse,
    };
}

/// `create-prompt-widget animation`: register the animation, or refuse a
/// rate that is not above zero.
fn apply_animation(
    settings: &mut Settings,
    name: String,
    fps_positive: bool,
    frame_ms: Option<i64>,
    frames: Vec<String>,
    ping_pong: bool,
) -> (ok: bool)
    ensures
        (ok, final(settings)@) == command_outcome(
            old(settings)@,
            FlylineCommand::Animation { name, fps_positive, frame_ms, frames, ping_pong },
        ),
{
    if !fps_positive {
        return false;
    }
    let key = name.clone();
    let a = PromptAnimation { name, frame_ms, frames, ping_pong };
    upsert_named(&mut settings.custom_animations, key, a);
    true
}

/// Register `w` under `name`.
fn apply_widget(settings: &mut Settings, name: String, w: PromptWidget)
    ensures
        final(settings)@ == (SettingsView {
            custom_prompt_widgets: upsert(old(settings)@.custom_prompt_widgets, name@, w@),
            ..old(settings)@
        }),
{
    upsert_named(&mut settings.custom_prompt_widgets, name, w);
}

/// Apply a subcommand (see `command_outcome`).
fn apply_command(settings: &mut Settings, c: FlylineCommand) -> (ok: bool)
    ensures
        (ok, final(settings)@) == command_outcome(old(settings)@, c),
{
    match c {
        FlylineCommand::Output => true,
        FlylineCommand::Time { format } => match format {
            Some(f) => !strftime_format_invalid(f.as_str()),
            None => true,
        },
        FlylineCommand::AgentMode { system_prompt, trigger_prefix, command } => apply_agent(
            settings,
            system_prompt,
            trigger_prefix,
            command,
        ),
        FlylineCommand::Animation { name, fps_positive, frame_ms, frames, ping_pong } => apply_animation(
            settings,
            name,
            fps_positive,
            frame_ms,
            frames,
            ping_pong,
        ),
        FlylineCommand::MouseModeWidget { name, enabled_text, disabled_text } => {
            let key = name.clone();
            apply_widget(settings, key, PromptWidget::MouseMode(PromptWidgetMouseMode { name, enabled_text, disabled_text }));
            true
        },
        FlylineCommand::CopyBufferWidget { name, text } => {
            let key = name.clone();
            apply_widget(settings, key, PromptWidget::CopyBuffer(PromptWidgetCopyBuffer { name, text }));
            true
        },
        FlylineCommand::CustomWidget { name, command, block, placeholder } => apply_custom(
            settings,
            name,
            command,
            block,
            placeholder,
        ),
        FlylineCommand::LastCommandDurationWidget { name } => {
            let key = name.clone();
            apply_widget(settings, key, PromptWidget::LastCommandDuration(PromptWidgetLastCommandDuration { name }));
            true
        },
        FlylineCommand::SetStyle { default_theme, styles } => apply_set_style(settings, default_theme, styles),
        FlylineCommand::Key { debug } => {
            apply_key(settings, debug);
            true
        },
        FlylineCommand::Mouse { debug, change_shape, mode } => {
            apply_mouse(settings, debug, change_shape, mode);
            true
        },
        FlylineCommand::RunTutorial { enabled } => {
            settings.run_tutorial = match enabled {
                Some(b) => b,
                None => true,
            };
            true
        },
        FlylineCommand::Editor { auto_close_chars, show_inline_history, select_with_mouse } => {
            apply_editor(settings, auto_close_chars, show_inline_history, select_with_mouse);
            true
        },
        FlylineCommand::Suggestions {
            fuzzy_mode,
            auto_suggest,
            use_flycomp,
            sort_order,
            num_suggestion_rows,
            flycomp_output,
            flycomp_blacklist,
        } => apply_suggestions(
            settings,
            fuzzy_mode,
            auto_suggest,
            use_flycomp,
            sort_order,
            num_suggestion_rows,
            flycomp_output,
            flycomp_blacklist,
        ),
        FlylineCommand::Upgrade => {
            set_opt_string(
                &mut settings.initial_buffer,
                Some("curl -sSfL https://github.com/HalFrgrd/flyline/releases/latest/download/install.sh | sh".to_owned()),
            );
            true
        },
    }
}

/// The history, animation and matrix options, each replacing its setting
/// when given.
#[verifier::rlimit(100)]
fn apply_top_first(settings: &mut Settings, args: &ParsedArgs)
    ensures
        final(settings)@ == (SettingsView {
            zsh_history_path: str_or(args.load_zsh_history, old(settings)@.zsh_history_path),
            show_animations: or_keep(args.show_animations, old(settings)@.show_animations),
            matrix_animation: or_keep(args.matrix_animation, old(settings)@.matrix_animation),
            ..old(settings)@
        }),
{
    match &args.load_zsh_history {
        Some(p) => set_opt_string(&mut settings.zsh_history_path, Some(p.clone())),
        None => {},
    }
    settings.show_animations = match args.show_animations {
        Some(b) => b,
        None => settings.show_animations,
    };
    settings.matrix_animation = match args.matrix_animation {
        Some(m) => m,
        None => settings.matrix_animation,
    };
}

/// The frame rate, mouse mode, integration and key code options, each
/// replacing its setting when given.
#[verifier::rlimit(100)]
fn apply_top_rest(settings: &mut Settings, args: &ParsedArgs)
    ensures
        final(settings)@ == (SettingsView {
            frame_rate: or_keep(args.frame_rate, old(settings)@.frame_rate),
            mouse_mode: or_keep(args.mouse_mode, old(settings)@.mouse_mode),
            send_shell_integration_codes: or_keep(
                args.send_shell_integration_codes,
                old(settings)@.send_shell_integration_codes,
            ),
            enable_extended_key_codes: or_keep(args.enable_extended_key_codes, old(settings)@.enable_extended_key_codes),
            ..old(settings)@
        }),
{
    settings.frame_rate = match args.frame_rate {
        Some(f) => f,
        None => settings.frame_rate,
    };
    settings.mouse_mode = match args.mouse_mode {
        Some(m) => m,
        None => settings.mouse_mode,
    };
    settings.send_shell_integration_codes = match args.send_shell_integration_codes {
        Some(l) => l,
        None => settings.send_shell_integration_codes,
    };
    settings.enable_extended_key_codes = match args.enable_extended_key_codes {
        Some(b) => b,
        None => settings.enable_extended_key_codes,
    };
}

/// The top-level options, each replacing its setting when given.
fn apply_top(settings: &mut Settings, args: &ParsedArgs)
    ensures
        final(settings)@ == with_top(old(settings)@, *args),
{
    apply_top_first(settings, args);
    apply_top_rest(settings, args);
}

/// Apply a parsed `flyline` builtin call to the settings and give its
/// status (see `flyline_outcome`): a call with no words is a usage error;
/// a frame rate outside 1 to 120 is a
/// usage error before anything changes; `--version` changes nothing; the
/// top-level options are applied, then the subcommand, whose refusal
/// makes the status a usage error.
pub fn apply_flyline_args(settings: &mut Settings, args: ParsedArgs) -> (code: i32)
    ensures
        (code, final(settings)@) == flyline_outcome(old(settings)@, args),
{
    if args.no_words {
        return EX_USAGE;
    }
    if let Some(f) = args.frame_rate {
        if f < 1 || f > 120 {
            return EX_USAGE;
        }
    }
    if args.version {
        return EXECUTION_SUCCESS;
    }
    apply_top(settings, &args);
    match args.command {
        None => EXECUTION_SUCCESS,
        Some(c) => {
            if apply_command(settings, c) {
                EXECUTION_SUCCESS
            } else {
                EX_USAGE
            }
        },
    }
}

} // verus!
