//! Setting values chosen on the `flyline` command line: the colour theme,
//! the background animation, mouse capture, shell integration codes and the
//! prompt widgets.

use crate::palette::{dark_slot, Palette, PaletteStyleKind};
use vstd::prelude::*;

verus! {

/// Which theme the user has configured for the colour palette.
#[derive(Debug, Clone, Copy, PartialEq, Eq, Structural)]
pub enum ColourTheme {
    /// Dark-terminal preset; the default.
    Dark,
    /// Light-terminal preset.
    Light,
}

impl Default for ColourTheme {
    fn default() -> (t: Self)
        ensures
            t == ColourTheme::Dark,
    {
        ColourTheme::Dark
    }
}

/// Whether and when the matrix animation is shown.
#[derive(Debug, Clone, Copy, PartialEq, Eq, Structural)]
pub enum MatrixAnimation {
    /// Never show it; the default.
    Off,
    /// Always show it.
    On,
    /// Show it after the given number of seconds without a key or mouse event.
    IdleSecs(u64),
}

impl Default for MatrixAnimation {
    fn default() -> (m: Self)
        ensures
            m == MatrixAnimation::Off,
    {
        MatrixAnimation::Off
    }
}

/// How flyline manages mouse capture.
#[derive(Debug, Clone, Copy, PartialEq, Eq, Structural)]
pub enum MouseMode {
    /// Never capture mouse events.
    Disabled,
    /// Capture on by default; toggled when Escape is pressed.
    Simple,
    /// Capture on by default and managed automatically: off on scroll or a
    /// click above the viewport, back on at a key press or regained focus.
    /// The default.
    Smart,
}

impl Default for MouseMode {
    fn default() -> (m: Self)
        ensures
            m == MouseMode::Smart,
    {
        MouseMode::Smart
    }
}

/// How many shell integration escape codes (OSC 133 / OSC 633) are sent.
#[derive(Debug, Clone, Copy, PartialEq, Eq, Structural)]
pub enum ShellIntegrationLevel {
    /// Send none.
    Nothing,
    /// Only the codes that report where the prompt starts and ends; the default.
    OnlyPromptPos,
    /// Prompt positions, command start and end, and cursor position reports.
    Full,
}

impl Default for ShellIntegrationLevel {
    fn default() -> (l: Self)
        ensures
            l == ShellIntegrationLevel::OnlyPromptPos,
    {
        ShellIntegrationLevel::OnlyPromptPos
    }
}

/// What a custom widget shows while its command is still running.
#[derive(Debug, Clone, Copy, PartialEq, Eq, Structural)]
pub enum Placeholder {
    /// That many spaces.
    Spaces(usize),
    /// The command's previous output (nothing on the first run); the default.
    Prev,
}

impl Default for Placeholder {
    fn default() -> (p: Self)
        ensures
            p == Placeholder::Prev,
    {
        Placeholder::Prev
    }
}

/// A configured agent-mode command with its optional system prompt.
#[derive(Debug, Clone)]
pub struct AgentModeCommand {
    /// The program and its arguments; the buffer is appended as the last
    /// argument.
    pub command: Vec<String>,
    /// Prepended to the buffer, on a line of its own, when set.
    pub system_prompt: Option<String>,
}

/// A prompt widget whose text depends on whether mouse capture is enabled.
#[derive(Debug, Clone)]
pub struct PromptWidgetMouseMode {
    /// Placeholder name in prompt strings.
    pub name: String,
    /// Text shown while mouse capture is enabled.
    pub enabled_text: String,
    /// Text shown while mouse capture is disabled.
    pub disabled_text: String,
}

/// A prompt widget that copies the command buffer to the clipboard when
/// clicked.
#[derive(Debug, Clone)]
pub struct PromptWidgetCopyBuffer {
    /// Placeholder name in prompt strings.
    pub name: String,
    /// Text shown in the prompt.
    pub text: String,
}

/// A prompt widget showing how long ago the editor last closed, formatted
/// by `content_utils::format_duration`.
#[derive(Debug, Clone)]
pub struct PromptWidgetLastCommandDuration {
    /// Placeholder name in prompt strings.
    pub name: String,
}

/// Which suggestions fuzzy matching applies to.
#[derive(Debug, Clone, Copy, PartialEq, Eq, Structural)]
pub enum FuzzyMode {
    All,
    Nothing,
    NoFolders,
}

/// How suggestions with tied fuzzy scores are ordered.
#[derive(Debug, Clone, Copy, PartialEq, Eq, Structural)]
pub enum SuggestionSortOrder {
    Mtime,
    Alphabetical,
}

/// An animation registered for the prompt: its name, the length of a frame
/// in milliseconds (`None` for a rate that is not positive), its raw
/// frames and whether it bounces.
#[derive(Debug, Clone)]
pub struct PromptAnimation {
    pub name: String,
    pub frame_ms: Option<i64>,
    pub frames: Vec<String>,
    pub ping_pong: bool,
}

/// A registered animation as plain values.
pub type AnimationView = (Seq<char>, Option<i64>, Seq<Seq<char>>, bool);

impl View for PromptAnimation {
    type V = AnimationView;

    open spec fn view(&self) -> AnimationView {
        (self.name@, self.frame_ms, self.frames@.map_values(|f: String| f@), self.ping_pong)
    }
}

/// A widget that runs a command: its program and arguments, how long to
/// wait for it before showing the placeholder (milliseconds; none means no
/// wait), and the placeholder.
#[derive(Debug, Clone)]
pub struct PromptWidgetCustom {
    pub name: String,
    pub command: Vec<String>,
    pub block: Option<i32>,
    pub placeholder: Placeholder,
}

/// A prompt widget registered with `flyline create-prompt-widget`.
#[derive(Debug, Clone)]
pub enum PromptWidget {
    MouseMode(PromptWidgetMouseMode),
    CopyBuffer(PromptWidgetCopyBuffer),
    Custom(PromptWidgetCustom),
    LastCommandDuration(PromptWidgetLastCommandDuration),
}

/// A prompt widget as plain values.
pub enum WidgetView {
    MouseMode(Seq<char>, Seq<char>, Seq<char>),
    CopyBuffer(Seq<char>, Seq<char>),
    Custom(Seq<char>, Seq<Seq<char>>, Option<i32>, Placeholder),
    LastCommandDuration(Seq<char>),
}

impl View for PromptWidget {
    type V = WidgetView;

    open spec fn view(&self) -> WidgetView {
        match self {
            PromptWidget::MouseMode(w) => WidgetView::MouseMode(w.name@, w.enabled_text@, w.disabled_text@),
            PromptWidget::CopyBuffer(w) => WidgetView::CopyBuffer(w.name@, w.text@),
            PromptWidget::Custom(w) => WidgetView::Custom(
                w.name@,
                w.command@.map_values(|c: String| c@),
                w.block,
                w.placeholder,
            ),
            PromptWidget::LastCommandDuration(w) => WidgetView::LastCommandDuration(w.name@),
        }
    }
}

/// An agent-mode command as plain values: program and arguments, and the
/// system prompt.
pub type AgentView = (Seq<Seq<char>>, Option<Seq<char>>);

impl View for AgentModeCommand {
    type V = AgentView;

    open spec fn view(&self) -> AgentView {
        (
            self.command@.map_values(|c: String| c@),
            match self.system_prompt {
                Some(p) => Some(p@),
                None => None,
            },
        )
    }
}

/// The settings of a `flyline` session that its command line changes.
/// The keyed collections hold one entry per key, in the order the keys
/// were first registered.
pub struct Settings {
    /// The Zsh history file to load as well (empty for the default path).
    pub zsh_history_path: Option<String>,
    pub run_tutorial: bool,
    pub show_animations: bool,
    pub show_inline_history: bool,
    pub auto_close_chars: bool,
    pub select_with_mouse: bool,
    pub mouse_mode: MouseMode,
    /// Agent-mode commands by trigger prefix (`None`: the Alt+Enter command).
    pub agent_commands: Vec<(Option<String>, AgentModeCommand)>,
    pub custom_animations: Vec<(String, PromptAnimation)>,
    pub custom_prompt_widgets: Vec<(String, PromptWidget)>,
    pub matrix_animation: MatrixAnimation,
    /// Frames per second, 1 to 120.
    pub frame_rate: u8,
    pub send_shell_integration_codes: ShellIntegrationLevel,
    pub enable_extended_key_codes: bool,
    pub colour_palette: Palette,
    pub key_debug: bool,
    pub mouse_debug: bool,
    pub mouse_change_shape: bool,
    pub fuzzy_mode: FuzzyMode,
    pub flycomp_blacklist: Vec<String>,
    pub auto_suggest: bool,
    pub use_flycomp: bool,
    pub suggestion_sort_order: SuggestionSortOrder,
    pub num_suggestion_rows: u16,
    pub flycomp_output: Option<String>,
    /// Text to start the next command line with.
    pub initial_buffer: Option<String>,
}

/// An optional string as an optional sequence.
pub open spec fn opt_view(o: Option<String>) -> Option<Seq<char>> {
    match o {
        Some(s) => Some(s@),
        None => None,
    }
}

/// The settings as plain values.
#[verifier::ext_equal]
pub struct SettingsView {
    pub zsh_history_path: Option<Seq<char>>,
    pub run_tutorial: bool,
    pub show_animations: bool,
    pub show_inline_history: bool,
    pub auto_close_chars: bool,
    pub select_with_mouse: bool,
    pub mouse_mode: MouseMode,
    pub agent_commands: Seq<(Option<Seq<char>>, AgentView)>,
    pub custom_animations: Seq<(Seq<char>, AnimationView)>,
    pub custom_prompt_widgets: Seq<(Seq<char>, WidgetView)>,
    pub matrix_animation: MatrixAnimation,
    pub frame_rate: u8,
    pub send_shell_integration_codes: ShellIntegrationLevel,
    pub enable_extended_key_codes: bool,
    pub palette: Palette,
    pub key_debug: bool,
    pub mouse_debug: bool,
    pub mouse_change_shape: bool,
    pub fuzzy_mode: FuzzyMode,
    pub flycomp_blacklist: Seq<String>,
    pub auto_suggest: bool,
    pub use_flycomp: bool,
    pub suggestion_sort_order: SuggestionSortOrder,
    pub num_suggestion_rows: u16,
    pub flycomp_output: Option<Seq<char>>,
    pub initial_buffer: Option<Seq<char>>,
}

impl View for Settings {
    type V = SettingsView;

    open spec fn view(&self) -> SettingsView {
        SettingsView {
            zsh_history_path: opt_view(self.zsh_history_path),
            run_tutorial: self.run_tutorial,
            show_animations: self.show_animations,
            show_inline_history: self.show_inline_history,
            auto_close_chars: self.auto_close_chars,
            select_with_mouse: self.select_with_mouse,
            mouse_mode: self.mouse_mode,
            agent_commands: self.agent_commands@.map_values(
                |e: (Option<String>, AgentModeCommand)| (opt_view(e.0), e.1@),
            ),
            custom_animations: self.custom_animations@.map_values(|e: (String, PromptAnimation)| (e.0@, e.1@)),
            custom_prompt_widgets: self.custom_prompt_widgets@.map_values(|e: (String, PromptWidget)| (e.0@, e.1@)),
            matrix_animation: self.matrix_animation,
            frame_rate: self.frame_rate,
            send_shell_integration_codes: self.send_shell_integration_codes,
            enable_extended_key_codes: self.enable_extended_key_codes,
            palette: self.colour_palette,
            key_debug: self.key_debug,
            mouse_debug: self.mouse_debug,
            mouse_change_shape: self.mouse_change_shape,
            fuzzy_mode: self.fuzzy_mode,
            flycomp_blacklist: self.flycomp_blacklist@,
            auto_suggest: self.auto_suggest,
            use_flycomp: self.use_flycomp,
            suggestion_sort_order: self.suggestion_sort_order,
            num_suggestion_rows: self.num_suggestion_rows,
            flycomp_output: opt_view(self.flycomp_output),
            initial_buffer: opt_view(self.initial_buffer),
        }
    }
}

impl Default for Settings {
    /// Nothing registered; animations, inline history, closing characters,
    /// mouse selection and extended key codes on; 24 frames a second; the
    /// dark palette; the default mouse mode, matrix animation and shell
    /// integration level.
    fn default() -> (s: Settings)
        ensures
            s@.zsh_history_path is None,
            !s@.run_tutorial,
            s@.show_animations,
            s@.show_inline_history,
            s@.auto_close_chars,
            s@.select_with_mouse,
            s@.mouse_mode == MouseMode::Smart,
            s@.agent_commands.len() == 0,
            s@.custom_animations.len() == 0,
            s@.custom_prompt_widgets.len() == 0,
            s@.matrix_animation == MatrixAnimation::Off,
            s@.frame_rate == 24,
            s@.send_shell_integration_codes == ShellIntegrationLevel::OnlyPromptPos,
            s@.enable_extended_key_codes,
            forall|k: PaletteStyleKind| #[trigger] s.colour_palette.slot(k) == dark_slot(k),
            !s@.key_debug,
            !s@.mouse_debug,
            s@.mouse_change_shape,
            s@.fuzzy_mode == FuzzyMode::All,
            s@.flycomp_blacklist.len() == 0,
            s@.auto_suggest,
            s@.use_flycomp,
            s@.suggestion_sort_order == SuggestionSortOrder::Mtime,
            s@.num_suggestion_rows == 10,
            s@.flycomp_output is None,
            s@.initial_buffer is None,
    {
        Settings {
            zsh_history_path: None,
            run_tutorial: false,
            show_animations: true,
            show_inline_history: true,
            auto_close_chars: true,
            select_with_mouse: true,
            mouse_mode: MouseMode::default(),
            agent_commands: Vec::new(),
            custom_animations: Vec::new(),
            custom_prompt_widgets: Vec::new(),
            matrix_animation: MatrixAnimation::default(),
            frame_rate: 24,
            send_shell_integration_codes: ShellIntegrationLevel::default(),
            enable_extended_key_codes: true,
            colour_palette: Palette::default(),
            key_debug: false,
            mouse_debug: false,
            mouse_change_shape: true,
            fuzzy_mode: FuzzyMode::All,
            flycomp_blacklist: Vec::new(),
            auto_suggest: true,
            use_flycomp: true,
            suggestion_sort_order: SuggestionSortOrder::Mtime,
            num_suggestion_rows: 10,
            flycomp_output: None,
            initial_buffer: None,
        }
    }
}

} // verus!
