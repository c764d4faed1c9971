//! Interaction states of button-like cells, and the named style slots of
//! the colour palette with their `flyline set-style` names.

use crate::settings::ColourTheme;
use crate::style::{
    Colour, TextStyle, plain_style, with_modifier, patched, BOLD, DIM, ITALIC, UNDERLINED, SLOW_BLINK,
    RAPID_BLINK, REVERSED, HIDDEN, CROSSED_OUT,
};
use crate::text_ops::{find_from, find_from_exec};
use crate::unicode::{chars_of, string_of};
use vstd::prelude::*;

verus! {

/// Visual interaction state of a button-like cell (clipboard slots, the
/// copy-buffer prompt button, tutorial buttons).
#[derive(Debug, Clone, Copy, PartialEq, Eq, Structural)]
pub enum ButtonState {
    /// No mouse interaction with the cell.
    Normal,
    /// The mouse hovers over the cell.
    Hovered,
    /// The mouse hovers over the cell with the left button held down.
    Depressed,
}

/// A named style slot of the colour palette.
#[derive(Debug, Clone, Copy, PartialEq, Eq, Structural)]
pub enum PaletteStyleKind {
    /// Syntax highlighting for recognised shell commands (e.g. ls, git).
    RecognisedCommand,
    /// Syntax highlighting for unrecognised commands.
    UnrecognisedCommand,
    /// Syntax highlighting for single-quoted strings.
    SingleQuotedText,
    /// Syntax highlighting for double-quoted strings.
    DoubleQuotedText,
    /// Dimmed style for secondary and decorative text.
    SecondaryText,
    /// Style for inline history suggestions shown after the cursor.
    InlineSuggestion,
    /// Style for tutorial hint text.
    TutorialHint,
    /// Highlight style for characters matched by fuzzy search.
    MatchingChar,
    /// Style for matched opening/closing bracket or quote pairs.
    OpeningAndClosingPair,
    /// Default style for unclassified command buffer text.
    NormalText,
    /// Syntax highlighting for shell comments (text after #).
    Comment,
    /// Syntax highlighting for environment variable references (e.g. $HOME).
    EnvVar,
    /// Style for level-1 Markdown headings (# heading).
    MarkdownHeading1,
    /// Style for level-2 Markdown headings (## heading).
    MarkdownHeading2,
    /// Style for level-3 Markdown headings (### heading).
    MarkdownHeading3,
    /// Style for inline code spans in Markdown.
    MarkdownCode,
    /// Style used to render key sequences in the UI.
    KeySequenceStyle,
    /// Highlight style for the current text selection.
    SelectedText,
    /// Syntax highlighting for bash reserved words (e.g. if, while, for).
    BashReserved,
    /// Rainbow bracket/quote colour for nesting depth 1 (outermost).
    RainbowBracket1,
    /// Rainbow bracket/quote colour for nesting depth 2.
    RainbowBracket2,
    /// Rainbow bracket/quote colour for nesting depth 3.
    RainbowBracket3,
    /// Rainbow bracket/quote colour for nesting depth 4.
    RainbowBracket4,
}

/// The kebab-case name of a style slot, as `flyline set-style` takes it.
pub open spec fn style_name(k: PaletteStyleKind) -> Seq<char> {
    match k {
        PaletteStyleKind::RecognisedCommand => "recognised-command"@,
        PaletteStyleKind::UnrecognisedCommand => "unrecognised-command"@,
        PaletteStyleKind::SingleQuotedText => "single-quoted-text"@,
        PaletteStyleKind::DoubleQuotedText => "double-quoted-text"@,
        PaletteStyleKind::SecondaryText => "secondary-text"@,
        PaletteStyleKind::InlineSuggestion => "inline-suggestion"@,
        PaletteStyleKind::TutorialHint => "tutorial-hint"@,
        PaletteStyleKind::MatchingChar => "matching-char"@,
        PaletteStyleKind::OpeningAndClosingPair => "opening-and-closing-pair"@,
        PaletteStyleKind::NormalText => "normal-text"@,
        PaletteStyleKind::Comment => "comment"@,
        PaletteStyleKind::EnvVar => "env-var"@,
        PaletteStyleKind::MarkdownHeading1 => "markdown-heading1"@,
        PaletteStyleKind::MarkdownHeading2 => "markdown-heading2"@,
        PaletteStyleKind::MarkdownHeading3 => "markdown-heading3"@,
        PaletteStyleKind::MarkdownCode => "markdown-code"@,
        PaletteStyleKind::KeySequenceStyle => "key-sequence-style"@,
        PaletteStyleKind::SelectedText => "selected-text"@,
        PaletteStyleKind::BashReserved => "bash-reserved"@,
        PaletteStyleKind::RainbowBracket1 => "rainbow-bracket1"@,
        PaletteStyleKind::RainbowBracket2 => "rainbow-bracket2"@,
        PaletteStyleKind::RainbowBracket3 => "rainbow-bracket3"@,
        PaletteStyleKind::RainbowBracket4 => "rainbow-bracket4"@,
    }
}

/// The help text of a style slot.
pub open spec fn style_message(k: PaletteStyleKind) -> Seq<char> {
    match k {
        PaletteStyleKind::RecognisedCommand => "Syntax highlighting for recognised shell commands (e.g. ls, git)"@,
        PaletteStyleKind::UnrecognisedCommand => "Syntax highlighting for unrecognised commands"@,
        PaletteStyleKind::SingleQuotedText => "Syntax highlighting for single-quoted strings"@,
        PaletteStyleKind::DoubleQuotedText => "Syntax highlighting for double-quoted strings"@,
        PaletteStyleKind::SecondaryText => "Dimmed style for secondary and decorative text"@,
        PaletteStyleKind::InlineSuggestion => "Style for inline history suggestions shown after the cursor"@,
        PaletteStyleKind::TutorialHint => "Style for tutorial hint text"@,
        PaletteStyleKind::MatchingChar => "Highlight style for characters matched by fuzzy search"@,
        PaletteStyleKind::OpeningAndClosingPair => "Style for matched opening/closing bracket or quote pairs"@,
        PaletteStyleKind::NormalText => "Default style for unclassified command buffer text"@,
        PaletteStyleKind::Comment => "Syntax highlighting for shell comments (text after #)"@,
        PaletteStyleKind::EnvVar => "Syntax highlighting for environment variable references (e.g. $HOME)"@,
        PaletteStyleKind::MarkdownHeading1 => "Style for level-1 Markdown headings (# heading)"@,
        PaletteStyleKind::MarkdownHeading2 => "Style for level-2 Markdown headings (## heading)"@,
        PaletteStyleKind::MarkdownHeading3 => "Style for level-3 Markdown headings (### heading)"@,
        PaletteStyleKind::MarkdownCode => "Style for inline code spans in Markdown"@,
        PaletteStyleKind::KeySequenceStyle => "Style used to render key sequences in the UI"@,
        PaletteStyleKind::SelectedText => "Highlight style for the current text selection"@,
        PaletteStyleKind::BashReserved => "Syntax highlighting for bash reserved words (e.g. if, while, for)"@,
        PaletteStyleKind::RainbowBracket1 => "Rainbow bracket/quote colour for nesting depth 1 (outermost)"@,
        PaletteStyleKind::RainbowBracket2 => "Rainbow bracket/quote colour for nesting depth 2"@,
        PaletteStyleKind::RainbowBracket3 => "Rainbow bracket/quote colour for nesting depth 3"@,
        PaletteStyleKind::RainbowBracket4 => "Rainbow bracket/quote colour for nesting depth 4"@,
    }
}

/// Every style slot, in declaration order.
pub open spec fn all_style_kinds() -> Seq<PaletteStyleKind> {
    seq![
        PaletteStyleKind::RecognisedCommand,
        PaletteStyleKind::UnrecognisedCommand,
        PaletteStyleKind::SingleQuotedText,
        PaletteStyleKind::DoubleQuotedText,
        PaletteStyleKind::SecondaryText,
        PaletteStyleKind::InlineSuggestion,
        PaletteStyleKind::TutorialHint,
        PaletteStyleKind::MatchingChar,
        PaletteStyleKind::OpeningAndClosingPair,
        PaletteStyleKind::NormalText,
        PaletteStyleKind::Comment,
        PaletteStyleKind::EnvVar,
        PaletteStyleKind::MarkdownHeading1,
        PaletteStyleKind::MarkdownHeading2,
        PaletteStyleKind::MarkdownHeading3,
        PaletteStyleKind::MarkdownCode,
        PaletteStyleKind::KeySequenceStyle,
        PaletteStyleKind::SelectedText,
        PaletteStyleKind::BashReserved,
        PaletteStyleKind::RainbowBracket1,
        PaletteStyleKind::RainbowBracket2,
        PaletteStyleKind::RainbowBracket3,
        PaletteStyleKind::RainbowBracket4,
    ]
}

impl PaletteStyleKind {
    /// The slot's kebab-case name.
    pub fn name(&self) -> (s: &'static str)
        ensures
            s@ == style_name(*self),
    {
        match self {
            PaletteStyleKind::RecognisedCommand => "recognised-command",
            PaletteStyleKind::UnrecognisedCommand => "unrecognised-command",
            PaletteStyleKind::SingleQuotedText => "single-quoted-text",
            PaletteStyleKind::DoubleQuotedText => "double-quoted-text",
            PaletteStyleKind::SecondaryText => "secondary-text",
            PaletteStyleKind::InlineSuggestion => "inline-suggestion",
            PaletteStyleKind::TutorialHint => "tutorial-hint",
            PaletteStyleKind::MatchingChar => "matching-char",
            PaletteStyleKind::OpeningAndClosingPair => "opening-and-closing-pair",
            PaletteStyleKind::NormalText => "normal-text",
            PaletteStyleKind::Comment => "comment",
            PaletteStyleKind::EnvVar => "env-var",
            PaletteStyleKind::MarkdownHeading1 => "markdown-heading1",
            PaletteStyleKind::MarkdownHeading2 => "markdown-heading2",
            PaletteStyleKind::MarkdownHeading3 => "markdown-heading3",
            PaletteStyleKind::MarkdownCode => "markdown-code",
            PaletteStyleKind::KeySequenceStyle => "key-sequence-style",
            PaletteStyleKind::SelectedText => "selected-text",
            PaletteStyleKind::BashReserved => "bash-reserved",
            PaletteStyleKind::RainbowBracket1 => "rainbow-bracket1",
            PaletteStyleKind::RainbowBracket2 => "rainbow-bracket2",
            PaletteStyleKind::RainbowBracket3 => "rainbow-bracket3",
            PaletteStyleKind::RainbowBracket4 => "rainbow-bracket4",
        }
    }

    /// The slot's help text.
    pub fn message(&self) -> (s: &'static str)
        ensures
            s@ == style_message(*self),
    {
        match self {
            PaletteStyleKind::RecognisedCommand => "Syntax highlighting for recognised shell commands (e.g. ls, git)",
            PaletteStyleKind::UnrecognisedCommand => "Syntax highlighting for unrecognised commands",
            PaletteStyleKind::SingleQuotedText => "Syntax highlighting for single-quoted strings",
            PaletteStyleKind::DoubleQuotedText => "Syntax highlighting for double-quoted strings",
            PaletteStyleKind::SecondaryText => "Dimmed style for secondary and decorative text",
            PaletteStyleKind::InlineSuggestion => "Style for inline history suggestions shown after the cursor",
            PaletteStyleKind::TutorialHint => "Style for tutorial hint text",
            PaletteStyleKind::MatchingChar => "Highlight style for characters matched by fuzzy search",
            PaletteStyleKind::OpeningAndClosingPair => "Style for matched opening/closing bracket or quote pairs",
            PaletteStyleKind::NormalText => "Default style for unclassified command buffer text",
            PaletteStyleKind::Comment => "Syntax highlighting for shell comments (text after #)",
            PaletteStyleKind::EnvVar => "Syntax highlighting for environment variable references (e.g. $HOME)",
            PaletteStyleKind::MarkdownHeading1 => "Style for level-1 Markdown headings (# heading)",
            PaletteStyleKind::MarkdownHeading2 => "Style for level-2 Markdown headings (## heading)",
            PaletteStyleKind::MarkdownHeading3 => "Style for level-3 Markdown headings (### heading)",
            PaletteStyleKind::MarkdownCode => "Style for inline code spans in Markdown",
            PaletteStyleKind::KeySequenceStyle => "Style used to render key sequences in the UI",
            PaletteStyleKind::SelectedText => "Highlight style for the current text selection",
            PaletteStyleKind::BashReserved => "Syntax highlighting for bash reserved words (e.g. if, while, for)",
            PaletteStyleKind::RainbowBracket1 => "Rainbow bracket/quote colour for nesting depth 1 (outermost)",
            PaletteStyleKind::RainbowBracket2 => "Rainbow bracket/quote colour for nesting depth 2",
            PaletteStyleKind::RainbowBracket3 => "Rainbow bracket/quote colour for nesting depth 3",
            PaletteStyleKind::RainbowBracket4 => "Rainbow bracket/quote colour for nesting depth 4",
        }
    }

    /// Every slot, in declaration order.
    pub fn all() -> (v: Vec<PaletteStyleKind>)
        ensures
            v@ == all_style_kinds(),
    {
        vec![
            PaletteStyleKind::RecognisedCommand,
            PaletteStyleKind::UnrecognisedCommand,
            PaletteStyleKind::SingleQuotedText,
            PaletteStyleKind::DoubleQuotedText,
            PaletteStyleKind::SecondaryText,
            PaletteStyleKind::InlineSuggestion,
            PaletteStyleKind::TutorialHint,
            PaletteStyleKind::MatchingChar,
            PaletteStyleKind::OpeningAndClosingPair,
            PaletteStyleKind::NormalText,
            PaletteStyleKind::Comment,
            PaletteStyleKind::EnvVar,
            PaletteStyleKind::MarkdownHeading1,
            PaletteStyleKind::MarkdownHeading2,
            PaletteStyleKind::MarkdownHeading3,
            PaletteStyleKind::MarkdownCode,
            PaletteStyleKind::KeySequenceStyle,
            PaletteStyleKind::SelectedText,
            PaletteStyleKind::BashReserved,
            PaletteStyleKind::RainbowBracket1,
            PaletteStyleKind::RainbowBracket2,
            PaletteStyleKind::RainbowBracket3,
            PaletteStyleKind::RainbowBracket4,
        ]
    }
}

/// Every slot is listed in `all_style_kinds`.
pub proof fn lemma_all_style_kinds(k: PaletteStyleKind)
    ensures
        all_style_kinds().contains(k),
{
    let a = all_style_kinds();
    match k {
        PaletteStyleKind::RecognisedCommand => assert(a[0] == k),
        PaletteStyleKind::UnrecognisedCommand => assert(a[1] == k),
        PaletteStyleKind::SingleQuotedText => assert(a[2] == k),
        PaletteStyleKind::DoubleQuotedText => assert(a[3] == k),
        PaletteStyleKind::SecondaryText => assert(a[4] == k),
        PaletteStyleKind::InlineSuggestion => assert(a[5] == k),
        PaletteStyleKind::TutorialHint => assert(a[6] == k),
        PaletteStyleKind::MatchingChar => assert(a[7] == k),
        PaletteStyleKind::OpeningAndClosingPair => assert(a[8] == k),
        PaletteStyleKind::NormalText => assert(a[9] == k),
        PaletteStyleKind::Comment => assert(a[10] == k),
        PaletteStyleKind::EnvVar => assert(a[11] == k),
        PaletteStyleKind::MarkdownHeading1 => assert(a[12] == k),
        PaletteStyleKind::MarkdownHeading2 => assert(a[13] == k),
        PaletteStyleKind::MarkdownHeading3 => assert(a[14] == k),
        PaletteStyleKind::MarkdownCode => assert(a[15] == k),
        PaletteStyleKind::KeySequenceStyle => assert(a[16] == k),
        PaletteStyleKind::SelectedText => assert(a[17] == k),
        PaletteStyleKind::BashReserved => assert(a[18] == k),
        PaletteStyleKind::RainbowBracket1 => assert(a[19] == k),
        PaletteStyleKind::RainbowBracket2 => assert(a[20] == k),
        PaletteStyleKind::RainbowBracket3 => assert(a[21] == k),
        PaletteStyleKind::RainbowBracket4 => assert(a[22] == k),
    }
}

/// The first of `ks` named `name`.
pub open spec fn first_named(ks: Seq<PaletteStyleKind>, name: Seq<char>) -> Option<PaletteStyleKind>
    decreases ks.len(),
{
    if ks.len() == 0 {
        None
    } else if style_name(ks[0]) == name {
        Some(ks[0])
    } else {
        first_named(ks.drop_first(), name)
    }
}

/// The slot named `name` (the first in declaration order, should two
/// share a name).
pub open spec fn kind_named(name: Seq<char>) -> Option<PaletteStyleKind> {
    first_named(all_style_kinds(), name)
}

/// The slot whose name is `name`, as `str::parse` of the name gives it.
pub fn style_kind_from_name(name: &str) -> (r: Option<PaletteStyleKind>)
    ensures
        r == kind_named(name@),
        r matches Some(k) ==> style_name(k) == name@,
        r is None ==> forall|k: PaletteStyleKind| style_name(k) != name@,
{
    let all = PaletteStyleKind::all();
    let v = chars_of(name);
    assert(all@.skip(0) =~= all@);
    let mut i: usize = 0;
    while i < all.len()
        invariant
            i <= all.len(),
            all@ == all_style_kinds(),
            v@ == name@,
            forall|j: int| 0 <= j < i ==> style_name(#[trigger] all@[j]) != name@,
            kind_named(name@) == first_named(all@.skip(i as int), name@),
        decreases all.len() - i,
    {
        assert(all@.skip(i as int).drop_first() =~= all@.skip(i + 1));
        let k = all[i];
        if crate::text_buffer::same_chars_pub(&chars_of(k.name()), &v) {
            return Some(k);
        }
        i = i + 1;
    }
    proof {
        assert forall|k: PaletteStyleKind| style_name(k) != name@ by {
            lemma_all_style_kinds(k);
            let j = choose|j: int| 0 <= j < all@.len() && all@[j] == k;
            assert(style_name(all@[j]) != name@);
        }
    }
    None
}

/// The result of `str::to_lowercase`: the Unicode lowercase mapping of
/// each character.
pub uninterp spec fn lowercase(s: Seq<char>) -> Seq<char>;

/// `str::to_lowercase`. Its documentation maps each character to its
/// lowercase form, so the empty string stays empty.
#[verifier::external_body]
fn to_lowercase(s: &str) -> (r: String)
    ensures
        r@ == lowercase(s@),
        s@.len() == 0 ==> r@.len() == 0,
{
    s.to_lowercase()
}

/// A completion offered for a `NAME=STYLE` argument: the value to insert
/// and its help text.
pub open spec fn style_candidate(k: PaletteStyleKind) -> (Seq<char>, Seq<char>) {
    (style_name(k) + "=NO_SUFFIX"@, style_message(k))
}

/// The completions among `kinds` whose names contain `needle`, in order.
pub open spec fn style_candidates(kinds: Seq<PaletteStyleKind>, needle: Seq<char>) -> Seq<(Seq<char>, Seq<char>)>
    decreases kinds.len(),
{
    if kinds.len() == 0 {
        Seq::empty()
    } else {
        let rest = style_candidates(kinds.drop_last(), needle);
        if find_from(style_name(kinds.last()), needle, 0) is Some {
            rest.push(style_candidate(kinds.last()))
        } else {
            rest
        }
    }
}

/// Tab completions for the `NAME=STYLE` arguments of `flyline set-style`:
/// each slot whose name contains the lowercased current word, as
/// `name=NO_SUFFIX` (so that no space follows) with its help text; none
/// once the word holds `=`, since the style itself is being typed.
pub fn possible_style_name_completions(current: &str) -> (r: Vec<(String, String)>)
    ensures
        current@.contains('=') ==> r.len() == 0,
        !current@.contains('=') ==> r@.map_values(|c: (String, String)| (c.0@, c.1@))
            == style_candidates(all_style_kinds(), lowercase(current@)),
        current@.len() == 0 ==> r@.map_values(|c: (String, String)| (c.0@, c.1@))
            == all_style_kinds().map_values(|k: PaletteStyleKind| style_candidate(k)),
{
    let cur = chars_of(current);
    let mut eq: Vec<char> = Vec::new();
    eq.push('=');
    match find_from_exec(&cur, &eq, 0) {
        Some(k) => {
            assert(cur@[k as int] == '=') by {
                crate::text_ops::lemma_find_from_occurs(cur@, eq@, 0);
                assert(cur@.subrange(k as int, k + 1)[0] == eq@[0]);
            }
            return Vec::new();
        },
        None => {},
    }
    proof {
        if current@.contains('=') {
            let k = choose|k: int| 0 <= k < current@.len() && current@[k] == '=';
            assert(cur@.subrange(k, k + 1) =~= eq@);
            crate::text_ops::lemma_find_from_finds(cur@, eq@, 0, k);
        }
    }
    let needle = chars_of(to_lowercase(current).as_str());
    let all = PaletteStyleKind::all();
    let mut out: Vec<(String, String)> = Vec::new();
    let mut i: usize = 0;
    while i < all.len()
        invariant
            i <= all.len(),
            all@ == all_style_kinds(),
            needle@ == lowercase(current@),
            out@.map_values(|c: (String, String)| (c.0@, c.1@)) == style_candidates(all@.take(i as int), needle@),
        decreases all.len() - i,
    {
        let k = all[i];
        let name = chars_of(k.name());
        assert(all@.take(i + 1).drop_last() =~= all@.take(i as int));
        if find_from_exec(&name, &needle, 0).is_some() {
            let mut value = name.clone();
            crate::unicode::append_chars(&mut value, &chars_of("=NO_SUFFIX"));
            let ghost before = out@;
            out.push((string_of(&value), string_of(&chars_of(k.message()))));
            assert(out@.map_values(|c: (String, String)| (c.0@, c.1@)) =~= before.map_values(
                |c: (String, String)| (c.0@, c.1@),
            ).push(style_candidate(k)));
        }
        i = i + 1;
    }
    assert(all@.take(all.len() as int) =~= all@);
    proof {
        if current@.len() == 0 {
            assert(needle@ =~= Seq::<char>::empty());
            lemma_candidates_of_empty(all@);
        }
    }
    out
}

/// With an empty needle every kind is a candidate, in order.
proof fn lemma_candidates_of_empty(kinds: Seq<PaletteStyleKind>)
    ensures
        style_candidates(kinds, Seq::empty()) == kinds.map_values(|k: PaletteStyleKind| style_candidate(k)),
    decreases kinds.len(),
{
    if kinds.len() > 0 {
        lemma_candidates_of_empty(kinds.drop_last());
        assert(style_name(kinds.last()).subrange(0, 0) =~= Seq::<char>::empty());
        assert(kinds.map_values(|k: PaletteStyleKind| style_candidate(k)) =~= kinds.drop_last().map_values(
            |k: PaletteStyleKind| style_candidate(k),
        ).push(style_candidate(kinds.last())));
    }
}

/// A style with foreground `c` and nothing else.
pub open spec fn fg_only(c: Colour) -> TextStyle {
    TextStyle { fg: Some(c), ..plain_style() }
}

/// The rainbow slot for nesting depths `d` with `d % 4 == r`.
pub open spec fn rainbow_kind(r: int) -> PaletteStyleKind {
    if r == 0 {
        PaletteStyleKind::RainbowBracket1
    } else if r == 1 {
        PaletteStyleKind::RainbowBracket2
    } else if r == 2 {
        PaletteStyleKind::RainbowBracket3
    } else {
        PaletteStyleKind::RainbowBracket4
    }
}

/// The dark-terminal preset of each slot.
pub open spec fn dark_slot(k: PaletteStyleKind) -> TextStyle {
    match k {
        PaletteStyleKind::RecognisedCommand => fg_only(Colour::Green),
        PaletteStyleKind::UnrecognisedCommand => fg_only(Colour::Red),
        PaletteStyleKind::SingleQuotedText => fg_only(Colour::Yellow),
        PaletteStyleKind::DoubleQuotedText => fg_only(Colour::Magenta),
        PaletteStyleKind::SecondaryText => with_modifier(plain_style(), DIM),
        PaletteStyleKind::InlineSuggestion => with_modifier(fg_only(Colour::Blue), ITALIC),
        PaletteStyleKind::TutorialHint => with_modifier(plain_style(), BOLD),
        PaletteStyleKind::MatchingChar => with_modifier(with_modifier(fg_only(Colour::Green), BOLD), UNDERLINED),
        PaletteStyleKind::OpeningAndClosingPair => with_modifier(with_modifier(fg_only(Colour::Red), BOLD), UNDERLINED),
        PaletteStyleKind::NormalText => plain_style(),
        PaletteStyleKind::Comment => with_modifier(fg_only(Colour::Red), ITALIC),
        PaletteStyleKind::EnvVar => fg_only(Colour::Cyan),
        PaletteStyleKind::MarkdownHeading1 => with_modifier(fg_only(Colour::Cyan), BOLD),
        PaletteStyleKind::MarkdownHeading2 => with_modifier(fg_only(Colour::Red), BOLD),
        PaletteStyleKind::MarkdownHeading3 => with_modifier(fg_only(Colour::Magenta), BOLD),
        PaletteStyleKind::MarkdownCode => with_modifier(plain_style(), DIM),
        PaletteStyleKind::KeySequenceStyle => with_modifier(plain_style(), DIM),
        PaletteStyleKind::SelectedText => TextStyle { bg: Some(Colour::Rgb(255, 102, 102)), ..fg_only(Colour::White) },
        PaletteStyleKind::BashReserved => with_modifier(fg_only(Colour::Yellow), BOLD),
        PaletteStyleKind::RainbowBracket1 => fg_only(Colour::Rgb(255, 215, 0)),
        PaletteStyleKind::RainbowBracket2 => fg_only(Colour::Rgb(255, 100, 100)),
        PaletteStyleKind::RainbowBracket3 => fg_only(Colour::Rgb(100, 200, 255)),
        PaletteStyleKind::RainbowBracket4 => fg_only(Colour::Rgb(100, 230, 150)),
    }
}

/// The light-terminal preset of each slot.
pub open spec fn light_slot(k: PaletteStyleKind) -> TextStyle {
    match k {
        PaletteStyleKind::RecognisedCommand => with_modifier(fg_only(Colour::Green), BOLD),
        PaletteStyleKind::UnrecognisedCommand => with_modifier(fg_only(Colour::Red), BOLD),
        PaletteStyleKind::SingleQuotedText => fg_only(Colour::Magenta),
        PaletteStyleKind::DoubleQuotedText => fg_only(Colour::Magenta),
        PaletteStyleKind::SecondaryText => with_modifier(with_modifier(plain_style(), DIM), BOLD),
        PaletteStyleKind::InlineSuggestion => with_modifier(fg_only(Colour::Blue), ITALIC),
        PaletteStyleKind::TutorialHint => with_modifier(plain_style(), BOLD),
        PaletteStyleKind::MatchingChar => with_modifier(fg_only(Colour::Blue), BOLD),
        PaletteStyleKind::OpeningAndClosingPair => with_modifier(with_modifier(fg_only(Colour::Blue), BOLD), UNDERLINED),
        PaletteStyleKind::NormalText => plain_style(),
        PaletteStyleKind::Comment => with_modifier(fg_only(Colour::Gray), ITALIC),
        PaletteStyleKind::EnvVar => fg_only(Colour::Blue),
        PaletteStyleKind::MarkdownHeading1 => with_modifier(fg_only(Colour::Cyan), BOLD),
        PaletteStyleKind::MarkdownHeading2 => with_modifier(fg_only(Colour::Red), BOLD),
        PaletteStyleKind::MarkdownHeading3 => with_modifier(fg_only(Colour::Magenta), BOLD),
        PaletteStyleKind::MarkdownCode => with_modifier(plain_style(), DIM),
        PaletteStyleKind::KeySequenceStyle => fg_only(Colour::DarkGray),
        PaletteStyleKind::SelectedText => TextStyle { bg: Some(Colour::Rgb(255, 102, 102)), ..fg_only(Colour::White) },
        PaletteStyleKind::BashReserved => with_modifier(fg_only(Colour::Blue), BOLD),
        PaletteStyleKind::RainbowBracket1 => fg_only(Colour::Rgb(180, 120, 0)),
        PaletteStyleKind::RainbowBracket2 => fg_only(Colour::Rgb(180, 30, 30)),
        PaletteStyleKind::RainbowBracket3 => fg_only(Colour::Rgb(30, 100, 200)),
        PaletteStyleKind::RainbowBracket4 => fg_only(Colour::Rgb(30, 130, 60)),
    }
}

/// The preset of each slot under a theme.
pub open spec fn theme_slot(t: ColourTheme, k: PaletteStyleKind) -> TextStyle {
    match t {
        ColourTheme::Dark => dark_slot(k),
        ColourTheme::Light => light_slot(k),
    }
}

/// `style` as a button in `state` shows it: unchanged when normal, in
/// reverse video when hovered, and bold black on grey when pressed.
pub open spec fn button_style(style: TextStyle, state: ButtonState) -> TextStyle {
    match state {
        ButtonState::Normal => style,
        ButtonState::Hovered => with_modifier(style, REVERSED),
        ButtonState::Depressed => with_modifier(
            TextStyle { fg: Some(Colour::Black), bg: Some(Colour::Rgb(100, 100, 100)), ..style },
            BOLD,
        ),
    }
}

/// The colour palette: one style per slot. `apply_theme` resets every slot
/// from a preset and `set` changes one.
#[derive(Debug, Clone)]
pub struct Palette {
    recognised_command: TextStyle,
    unrecognised_command: TextStyle,
    single_quoted_text: TextStyle,
    double_quoted_text: TextStyle,
    secondary_text: TextStyle,
    inline_suggestion: TextStyle,
    tutorial_hint: TextStyle,
    matching_char: TextStyle,
    opening_and_closing_pair: TextStyle,
    normal_text: TextStyle,
    comment: TextStyle,
    env_var: TextStyle,
    markdown_heading1: TextStyle,
    markdown_heading2: TextStyle,
    markdown_heading3: TextStyle,
    markdown_code: TextStyle,
    key_sequence_style: TextStyle,
    selected_text: TextStyle,
    bash_reserved: TextStyle,
    rainbow_bracket1: TextStyle,
    rainbow_bracket2: TextStyle,
    rainbow_bracket3: TextStyle,
    rainbow_bracket4: TextStyle,
}

impl Palette {
    /// The style held in slot `k`.
    pub closed spec fn slot(self, k: PaletteStyleKind) -> TextStyle {
        match k {
            PaletteStyleKind::RecognisedCommand => self.recognised_command,
            PaletteStyleKind::UnrecognisedCommand => self.unrecognised_command,
            PaletteStyleKind::SingleQuotedText => self.single_quoted_text,
            PaletteStyleKind::DoubleQuotedText => self.double_quoted_text,
            PaletteStyleKind::SecondaryText => self.secondary_text,
            PaletteStyleKind::InlineSuggestion => self.inline_suggestion,
            PaletteStyleKind::TutorialHint => self.tutorial_hint,
            PaletteStyleKind::MatchingChar => self.matching_char,
            PaletteStyleKind::OpeningAndClosingPair => self.opening_and_closing_pair,
            PaletteStyleKind::NormalText => self.normal_text,
            PaletteStyleKind::Comment => self.comment,
            PaletteStyleKind::EnvVar => self.env_var,
            PaletteStyleKind::MarkdownHeading1 => self.markdown_heading1,
            PaletteStyleKind::MarkdownHeading2 => self.markdown_heading2,
            PaletteStyleKind::MarkdownHeading3 => self.markdown_heading3,
            PaletteStyleKind::MarkdownCode => self.markdown_code,
            PaletteStyleKind::KeySequenceStyle => self.key_sequence_style,
            PaletteStyleKind::SelectedText => self.selected_text,
            PaletteStyleKind::BashReserved => self.bash_reserved,
            PaletteStyleKind::RainbowBracket1 => self.rainbow_bracket1,
            PaletteStyleKind::RainbowBracket2 => self.rainbow_bracket2,
            PaletteStyleKind::RainbowBracket3 => self.rainbow_bracket3,
            PaletteStyleKind::RainbowBracket4 => self.rainbow_bracket4,
        }
    }

    /// This palette with slot `k` holding `s`.
    pub closed spec fn with_slot(self, k: PaletteStyleKind, s: TextStyle) -> Palette {
        match k {
            PaletteStyleKind::RecognisedCommand => Palette { recognised_command: s, ..self },
            PaletteStyleKind::UnrecognisedCommand => Palette { unrecognised_command: s, ..self },
            PaletteStyleKind::SingleQuotedText => Palette { single_quoted_text: s, ..self },
            PaletteStyleKind::DoubleQuotedText => Palette { double_quoted_text: s, ..self },
            PaletteStyleKind::SecondaryText => Palette { secondary_text: s, ..self },
            PaletteStyleKind::InlineSuggestion => Palette { inline_suggestion: s, ..self },
            PaletteStyleKind::TutorialHint => Palette { tutorial_hint: s, ..self },
            PaletteStyleKind::MatchingChar => Palette { matching_char: s, ..self },
            PaletteStyleKind::OpeningAndClosingPair => Palette { opening_and_closing_pair: s, ..self },
            PaletteStyleKind::NormalText => Palette { normal_text: s, ..self },
            PaletteStyleKind::Comment => Palette { comment: s, ..self },
            PaletteStyleKind::EnvVar => Palette { env_var: s, ..self },
            PaletteStyleKind::MarkdownHeading1 => Palette { markdown_heading1: s, ..self },
            PaletteStyleKind::MarkdownHeading2 => Palette { markdown_heading2: s, ..self },
            PaletteStyleKind::MarkdownHeading3 => Palette { markdown_heading3: s, ..self },
            PaletteStyleKind::MarkdownCode => Palette { markdown_code: s, ..self },
            PaletteStyleKind::KeySequenceStyle => Palette { key_sequence_style: s, ..self },
            PaletteStyleKind::SelectedText => Palette { selected_text: s, ..self },
            PaletteStyleKind::BashReserved => Palette { bash_reserved: s, ..self },
            PaletteStyleKind::RainbowBracket1 => Palette { rainbow_bracket1: s, ..self },
            PaletteStyleKind::RainbowBracket2 => Palette { rainbow_bracket2: s, ..self },
            PaletteStyleKind::RainbowBracket3 => Palette { rainbow_bracket3: s, ..self },
            PaletteStyleKind::RainbowBracket4 => Palette { rainbow_bracket4: s, ..self },
        }
    }

    /// Setting a slot changes that slot only.
    pub proof fn lemma_with_slot(self, k: PaletteStyleKind, s: TextStyle)
        ensures
            self.with_slot(k, s).slot(k) == s,
            forall|j: PaletteStyleKind| j != k ==> #[trigger] self.with_slot(k, s).slot(j) == self.slot(j),
    {
    }

    /// Two palettes with the same style in every slot are the same.
    pub proof fn lemma_slots_equal(self, other: Palette)
        requires
            forall|k: PaletteStyleKind| #[trigger] self.slot(k) == other.slot(k),
        ensures
            self == other,
    {
        assert(self.slot(PaletteStyleKind::RecognisedCommand) == other.slot(PaletteStyleKind::RecognisedCommand));
        assert(self.slot(PaletteStyleKind::UnrecognisedCommand) == other.slot(PaletteStyleKind::UnrecognisedCommand));
        assert(self.slot(PaletteStyleKind::SingleQuotedText) == other.slot(PaletteStyleKind::SingleQuotedText));
        assert(self.slot(PaletteStyleKind::DoubleQuotedText) == other.slot(PaletteStyleKind::DoubleQuotedText));
        assert(self.slot(PaletteStyleKind::SecondaryText) == other.slot(PaletteStyleKind::SecondaryText));
        assert(self.slot(PaletteStyleKind::InlineSuggestion) == other.slot(PaletteStyleKind::InlineSuggestion));
        assert(self.slot(PaletteStyleKind::TutorialHint) == other.slot(PaletteStyleKind::TutorialHint));
        assert(self.slot(PaletteStyleKind::MatchingChar) == other.slot(PaletteStyleKind::MatchingChar));
        assert(self.slot(PaletteStyleKind::OpeningAndClosingPair) == other.slot(PaletteStyleKind::OpeningAndClosingPair));
        assert(self.slot(PaletteStyleKind::NormalText) == other.slot(PaletteStyleKind::NormalText));
        assert(self.slot(PaletteStyleKind::Comment) == other.slot(PaletteStyleKind::Comment));
        assert(self.slot(PaletteStyleKind::EnvVar) == other.slot(PaletteStyleKind::EnvVar));
        assert(self.slot(PaletteStyleKind::MarkdownHeading1) == other.slot(PaletteStyleKind::MarkdownHeading1));
        assert(self.slot(PaletteStyleKind::MarkdownHeading2) == other.slot(PaletteStyleKind::MarkdownHeading2));
        assert(self.slot(PaletteStyleKind::MarkdownHeading3) == other.slot(PaletteStyleKind::MarkdownHeading3));
        assert(self.slot(PaletteStyleKind::MarkdownCode) == other.slot(PaletteStyleKind::MarkdownCode));
        assert(self.slot(PaletteStyleKind::KeySequenceStyle) == other.slot(PaletteStyleKind::KeySequenceStyle));
        assert(self.slot(PaletteStyleKind::SelectedText) == other.slot(PaletteStyleKind::SelectedText));
        assert(self.slot(PaletteStyleKind::BashReserved) == other.slot(PaletteStyleKind::BashReserved));
        assert(self.slot(PaletteStyleKind::RainbowBracket1) == other.slot(PaletteStyleKind::RainbowBracket1));
        assert(self.slot(PaletteStyleKind::RainbowBracket2) == other.slot(PaletteStyleKind::RainbowBracket2));
        assert(self.slot(PaletteStyleKind::RainbowBracket3) == other.slot(PaletteStyleKind::RainbowBracket3));
        assert(self.slot(PaletteStyleKind::RainbowBracket4) == other.slot(PaletteStyleKind::RainbowBracket4));
    }

    pub fn recognised_command(&self) -> (s: TextStyle)
        ensures
            s == self.slot(PaletteStyleKind::RecognisedCommand),
    {
        self.recognised_command
    }

    pub fn unrecognised_command(&self) -> (s: TextStyle)
        ensures
            s == self.slot(PaletteStyleKind::UnrecognisedCommand),
    {
        self.unrecognised_command
    }

    pub fn single_quoted_text(&self) -> (s: TextStyle)
        ensures
            s == self.slot(PaletteStyleKind::SingleQuotedText),
    {
        self.single_quoted_text
    }

    pub fn double_quoted_text(&self) -> (s: TextStyle)
        ensures
            s == self.slot(PaletteStyleKind::DoubleQuotedText),
    {
        self.double_quoted_text
    }

    pub fn secondary_text(&self) -> (s: TextStyle)
        ensures
            s == self.slot(PaletteStyleKind::SecondaryText),
    {
        self.secondary_text
    }

    pub fn inline_suggestion(&self) -> (s: TextStyle)
        ensures
            s == self.slot(PaletteStyleKind::InlineSuggestion),
    {
        self.inline_suggestion
    }

    pub fn tutorial_hint(&self) -> (s: TextStyle)
        ensures
            s == self.slot(PaletteStyleKind::TutorialHint),
    {
        self.tutorial_hint
    }

    pub fn matching_char(&self) -> (s: TextStyle)
        ensures
            s == self.slot(PaletteStyleKind::MatchingChar),
    {
        self.matching_char
    }

    pub fn opening_and_closing_pair(&self) -> (s: TextStyle)
        ensures
            s == self.slot(PaletteStyleKind::OpeningAndClosingPair),
    {
        self.opening_and_closing_pair
    }

    pub fn normal_text(&self) -> (s: TextStyle)
        ensures
            s == self.slot(PaletteStyleKind::NormalText),
    {
        self.normal_text
    }

    pub fn comment(&self) -> (s: TextStyle)
        ensures
            s == self.slot(PaletteStyleKind::Comment),
    {
        self.comment
    }

    pub fn env_var(&self) -> (s: TextStyle)
        ensures
            s == self.slot(PaletteStyleKind::EnvVar),
    {
        self.env_var
    }

    pub fn markdown_heading1(&self) -> (s: TextStyle)
        ensures
            s == self.slot(PaletteStyleKind::MarkdownHeading1),
    {
        self.markdown_heading1
    }

    pub fn markdown_heading2(&self) -> (s: TextStyle)
        ensures
            s == self.slot(PaletteStyleKind::MarkdownHeading2),
    {
        self.markdown_heading2
    }

    pub fn markdown_heading3(&self) -> (s: TextStyle)
        ensures
            s == self.slot(PaletteStyleKind::MarkdownHeading3),
    {
        self.markdown_heading3
    }

    pub fn markdown_code(&self) -> (s: TextStyle)
        ensures
            s == self.slot(PaletteStyleKind::MarkdownCode),
    {
        self.markdown_code
    }

    pub fn key_sequence_style(&self) -> (s: TextStyle)
        ensures
            s == self.slot(PaletteStyleKind::KeySequenceStyle),
    {
        self.key_sequence_style
    }

    pub fn selected_text(&self) -> (s: TextStyle)
        ensures
            s == self.slot(PaletteStyleKind::SelectedText),
    {
        self.selected_text
    }

    pub fn bash_reserved(&self) -> (s: TextStyle)
        ensures
            s == self.slot(PaletteStyleKind::BashReserved),
    {
        self.bash_reserved
    }

    /// The rainbow bracket/quote style for nesting `depth`: the four rainbow
    /// slots in turn, by `depth % 4`.
    pub fn rainbow_bracket(&self, depth: usize) -> (s: TextStyle)
        ensures
            s == self.slot(rainbow_kind(depth as int % 4)),
    {
        let r = depth % 4;
        if r == 0 {
            self.rainbow_bracket1
        } else if r == 1 {
            self.rainbow_bracket2
        } else if r == 2 {
            self.rainbow_bracket3
        } else {
            self.rainbow_bracket4
        }
    }

    /// Put `style` into slot `kind`; every other slot keeps its style.
    pub fn set(&mut self, kind: PaletteStyleKind, style: TextStyle)
        ensures
            *final(self) == old(self).with_slot(kind, style),
            final(self).slot(kind) == style,
            forall|k: PaletteStyleKind| k != kind ==> final(self).slot(k) == old(self).slot(k),
    {
        match kind {
            PaletteStyleKind::RecognisedCommand => self.recognised_command = style,
            PaletteStyleKind::UnrecognisedCommand => self.unrecognised_command = style,
            PaletteStyleKind::SingleQuotedText => self.single_quoted_text = style,
            PaletteStyleKind::DoubleQuotedText => self.double_quoted_text = style,
            PaletteStyleKind::SecondaryText => self.secondary_text = style,
            PaletteStyleKind::InlineSuggestion => self.inline_suggestion = style,
            PaletteStyleKind::TutorialHint => self.tutorial_hint = style,
            PaletteStyleKind::MatchingChar => self.matching_char = style,
            PaletteStyleKind::OpeningAndClosingPair => self.opening_and_closing_pair = style,
            PaletteStyleKind::NormalText => self.normal_text = style,
            PaletteStyleKind::Comment => self.comment = style,
            PaletteStyleKind::EnvVar => self.env_var = style,
            PaletteStyleKind::MarkdownHeading1 => self.markdown_heading1 = style,
            PaletteStyleKind::MarkdownHeading2 => self.markdown_heading2 = style,
            PaletteStyleKind::MarkdownHeading3 => self.markdown_heading3 = style,
            PaletteStyleKind::MarkdownCode => self.markdown_code = style,
            PaletteStyleKind::KeySequenceStyle => self.key_sequence_style = style,
            PaletteStyleKind::SelectedText => self.selected_text = style,
            PaletteStyleKind::BashReserved => self.bash_reserved = style,
            PaletteStyleKind::RainbowBracket1 => self.rainbow_bracket1 = style,
            PaletteStyleKind::RainbowBracket2 => self.rainbow_bracket2 = style,
            PaletteStyleKind::RainbowBracket3 => self.rainbow_bracket3 = style,
            PaletteStyleKind::RainbowBracket4 => self.rainbow_bracket4 = style,
        }
    }

    /// The dark-terminal preset.
    pub fn dark() -> (p: Palette)
        ensures
            forall|k: PaletteStyleKind| #[trigger] p.slot(k) == dark_slot(k),
    {
        let plain = TextStyle::new();
        Palette {
            recognised_command: plain.fg(Colour::Green),
            unrecognised_command: plain.fg(Colour::Red),
            single_quoted_text: plain.fg(Colour::Yellow),
            double_quoted_text: plain.fg(Colour::Magenta),
            secondary_text: plain.add_modifier(DIM),
            inline_suggestion: plain.fg(Colour::Blue).add_modifier(ITALIC),
            tutorial_hint: plain.add_modifier(BOLD),
            matching_char: plain.fg(Colour::Green).add_modifier(BOLD).add_modifier(UNDERLINED),
            opening_and_closing_pair: plain.fg(Colour::Red).add_modifier(BOLD).add_modifier(UNDERLINED),
            normal_text: plain,
            comment: plain.fg(Colour::Red).add_modifier(ITALIC),
            env_var: plain.fg(Colour::Cyan),
            markdown_heading1: plain.fg(Colour::Cyan).add_modifier(BOLD),
            markdown_heading2: plain.fg(Colour::Red).add_modifier(BOLD),
            markdown_heading3: plain.fg(Colour::Magenta).add_modifier(BOLD),
            markdown_code: plain.add_modifier(DIM),
            key_sequence_style: plain.add_modifier(DIM),
            selected_text: plain.fg(Colour::White).bg(Colour::Rgb(255, 102, 102)),
            bash_reserved: plain.fg(Colour::Yellow).add_modifier(BOLD),
            rainbow_bracket1: plain.fg(Colour::Rgb(255, 215, 0)),
            rainbow_bracket2: plain.fg(Colour::Rgb(255, 100, 100)),
            rainbow_bracket3: plain.fg(Colour::Rgb(100, 200, 255)),
            rainbow_bracket4: plain.fg(Colour::Rgb(100, 230, 150)),
        }
    }

    /// The light-terminal preset.
    pub fn light() -> (p: Palette)
        ensures
            forall|k: PaletteStyleKind| #[trigger] p.slot(k) == light_slot(k),
    {
        let plain = TextStyle::new();
        Palette {
            recognised_command: plain.fg(Colour::Green).bold(),
            unrecognised_command: plain.fg(Colour::Red).bold(),
            single_quoted_text: plain.fg(Colour::Magenta),
            double_quoted_text: plain.fg(Colour::Magenta),
            secondary_text: plain.dim().bold(),
            inline_suggestion: plain.fg(Colour::Blue).add_modifier(ITALIC),
            tutorial_hint: plain.add_modifier(BOLD),
            matching_char: plain.fg(Colour::Blue).add_modifier(BOLD),
            opening_and_closing_pair: plain.fg(Colour::Blue).add_modifier(BOLD).add_modifier(UNDERLINED),
            normal_text: plain,
            comment: plain.fg(Colour::Gray).add_modifier(ITALIC),
            env_var: plain.fg(Colour::Blue),
            markdown_heading1: plain.fg(Colour::Cyan).add_modifier(BOLD),
            markdown_heading2: plain.fg(Colour::Red).add_modifier(BOLD),
            markdown_heading3: plain.fg(Colour::Magenta).add_modifier(BOLD),
            markdown_code: plain.add_modifier(DIM),
            key_sequence_style: plain.fg(Colour::DarkGray),
            selected_text: plain.fg(Colour::White).bg(Colour::Rgb(255, 102, 102)),
            bash_reserved: plain.fg(Colour::Blue).add_modifier(BOLD),
            rainbow_bracket1: plain.fg(Colour::Rgb(180, 120, 0)),
            rainbow_bracket2: plain.fg(Colour::Rgb(180, 30, 30)),
            rainbow_bracket3: plain.fg(Colour::Rgb(30, 100, 200)),
            rainbow_bracket4: plain.fg(Colour::Rgb(30, 130, 60)),
        }
    }

    /// Reset every slot to the preset of `mode`.
    pub fn apply_theme(&mut self, mode: ColourTheme)
        ensures
            *final(self) == theme_palette(mode),
            forall|k: PaletteStyleKind| #[trigger] final(self).slot(k) == theme_slot(mode, k),
    {
        *self = match mode {
            ColourTheme::Dark => Self::dark(),
            ColourTheme::Light => Self::light(),
        };
        proof {
            lemma_theme_palette(mode);
            self.lemma_slots_equal(theme_palette(mode));
        }
    }

    /// `style` in reverse video.
    pub fn convert_to_highlighted(style: TextStyle) -> (s: TextStyle)
        ensures
            s == with_modifier(style, REVERSED),
    {
        style.add_modifier(REVERSED)
    }

    /// `style` as a button in `state` shows it: unchanged when normal, in
    /// reverse video when hovered, and bold black on grey when pressed.
    pub fn apply_button_style(style: TextStyle, state: ButtonState) -> (s: TextStyle)
        ensures
            s == button_style(style, state),
    {
        match state {
            ButtonState::Normal => style,
            ButtonState::Hovered => style.add_modifier(REVERSED),
            ButtonState::Depressed => style.fg(Colour::Black).bg(Colour::Rgb(100, 100, 100)).add_modifier(BOLD),
        }
    }

    /// `style` with the selected-text style laid over it.
    pub fn convert_to_selected(&self, style: TextStyle) -> (s: TextStyle)
        ensures
            s == patched(style, self.slot(PaletteStyleKind::SelectedText)),
    {
        style.patch(self.selected_text())
    }

    /// The cursor cell's style for a grey level: that grey as background.
    pub fn cursor_style(intensity: u8) -> (s: TextStyle)
        ensures
            s == (TextStyle { bg: Some(Colour::Rgb(intensity, intensity, intensity)), ..plain_style() }),
    {
        TextStyle::new().bg(Colour::Rgb(intensity, intensity, intensity))
    }
}

/// The preset palette of theme `t`.
pub closed spec fn theme_palette(t: ColourTheme) -> Palette {
    Palette {
            recognised_command: theme_slot(t, PaletteStyleKind::RecognisedCommand),
            unrecognised_command: theme_slot(t, PaletteStyleKind::UnrecognisedCommand),
            single_quoted_text: theme_slot(t, PaletteStyleKind::SingleQuotedText),
            double_quoted_text: theme_slot(t, PaletteStyleKind::DoubleQuotedText),
            secondary_text: theme_slot(t, PaletteStyleKind::SecondaryText),
            inline_suggestion: theme_slot(t, PaletteStyleKind::InlineSuggestion),
            tutorial_hint: theme_slot(t, PaletteStyleKind::TutorialHint),
            matching_char: theme_slot(t, PaletteStyleKind::MatchingChar),
            opening_and_closing_pair: theme_slot(t, PaletteStyleKind::OpeningAndClosingPair),
            normal_text: theme_slot(t, PaletteStyleKind::NormalText),
            comment: theme_slot(t, PaletteStyleKind::Comment),
            env_var: theme_slot(t, PaletteStyleKind::EnvVar),
            markdown_heading1: theme_slot(t, PaletteStyleKind::MarkdownHeading1),
            markdown_heading2: theme_slot(t, PaletteStyleKind::MarkdownHeading2),
            markdown_heading3: theme_slot(t, PaletteStyleKind::MarkdownHeading3),
            markdown_code: theme_slot(t, PaletteStyleKind::MarkdownCode),
            key_sequence_style: theme_slot(t, PaletteStyleKind::KeySequenceStyle),
            selected_text: theme_slot(t, PaletteStyleKind::SelectedText),
            bash_reserved: theme_slot(t, PaletteStyleKind::BashReserved),
            rainbow_bracket1: theme_slot(t, PaletteStyleKind::RainbowBracket1),
            rainbow_bracket2: theme_slot(t, PaletteStyleKind::RainbowBracket2),
            rainbow_bracket3: theme_slot(t, PaletteStyleKind::RainbowBracket3),
            rainbow_bracket4: theme_slot(t, PaletteStyleKind::RainbowBracket4),
    }
}

/// The preset palette of a theme holds the theme's style in every slot.
pub proof fn lemma_theme_palette(t: ColourTheme)
    ensures
        forall|k: PaletteStyleKind| #[trigger] theme_palette(t).slot(k) == theme_slot(t, k),
{
}

impl Default for Palette {
    /// The dark-terminal preset.
    fn default() -> (p: Palette)
        ensures
            forall|k: PaletteStyleKind| #[trigger] p.slot(k) == dark_slot(k),
    {
        Self::dark()
    }
}

/// A colour as a rich-style string names it: the terminal's default, an
/// index into the 256-colour table, or an RGB triple.
#[derive(Debug, Clone, Copy, PartialEq, Eq, Structural)]
pub enum RichColour {
    Default,
    Indexed(u8),
    Rgb(u8, u8, u8),
}

/// What `parse_style::Style::from_str` gives for a text, as plain values:
/// on success the foreground, the background, and the codes of the
/// attributes the style enables and of those it disables (an attribute's
/// code is its bit: bold 1, dim 2, italic 4, underline 8, blink 16,
/// blink2 32, reverse 64, conceal 128, strike 256, and so on); on failure
/// the error's message.
pub uninterp spec fn rich_style_of(s: Seq<char>) -> Result<(Option<RichColour>, Option<RichColour>, Seq<u16>, Seq<u16>), Seq<char>>;

/// The message of the error `s.parse::<parse_style::Style>()` gives, if it
/// fails.
#[verifier::external_body]
fn rich_style_error(s: &str) -> (r: Option<String>)
    ensures
        match rich_style_of(s@) {
            Ok(_) => r is None,
            Err(e) => r matches Some(m) && m@ == e,
        },
{
    match s.parse::<parse_style::Style>() {
        Ok(_) => None,
        Err(e) => Some(format!("{e}")),
    }
}

/// The foreground (`get_foreground`) of the style `s` parses to, if any.
#[verifier::external_body]
fn rich_foreground(s: &str) -> (r: Option<RichColour>)
    ensures
        r == match rich_style_of(s@) {
            Ok(p) => p.0,
            Err(_) => None,
        },
{
    match s.parse::<parse_style::Style>().ok().and_then(|st| st.get_foreground()) {
        Some(parse_style::Color::Default) => Some(RichColour::Default),
        Some(parse_style::Color::Color256(c)) => Some(RichColour::Indexed(c.0)),
        Some(parse_style::Color::Rgb(c)) => Some(RichColour::Rgb(c.red(), c.green(), c.blue())),
        None => None,
    }
}

/// The background (`get_background`) of the style `s` parses to, if any.
#[verifier::external_body]
fn rich_background(s: &str) -> (r: Option<RichColour>)
    ensures
        r == match rich_style_of(s@) {
            Ok(p) => p.1,
            Err(_) => None,
        },
{
    match s.parse::<parse_style::Style>().ok().and_then(|st| st.get_background()) {
        Some(parse_style::Color::Default) => Some(RichColour::Default),
        Some(parse_style::Color::Color256(c)) => Some(RichColour::Indexed(c.0)),
        Some(parse_style::Color::Rgb(c)) => Some(RichColour::Rgb(c.red(), c.green(), c.blue())),
        None => None,
    }
}

/// The codes of the attributes (`get_enabled_attributes`) that the style
/// `s` parses to enables.
#[verifier::external_body]
fn rich_enabled_codes(s: &str) -> (r: Vec<u16>)
    ensures
        r@ == match rich_style_of(s@) {
            Ok(p) => p.2,
            Err(_) => Seq::empty(),
        },
{
    match s.parse::<parse_style::Style>() {
        Ok(st) => st.get_enabled_attributes().into_iter().map(|a| a as u16).collect(),
        Err(_) => Vec::new(),
    }
}

/// The codes of the attributes (`get_disabled_attributes`) that the style
/// `s` parses to disables.
#[verifier::external_body]
fn rich_disabled_codes(s: &str) -> (r: Vec<u16>)
    ensures
        r@ == match rich_style_of(s@) {
            Ok(p) => p.3,
            Err(_) => Seq::empty(),
        },
{
    match s.parse::<parse_style::Style>() {
        Ok(st) => st.get_disabled_attributes().into_iter().map(|a| a as u16).collect(),
        Err(_) => Vec::new(),
    }
}

/// The terminal colour of a rich-style colour.
pub open spec fn colour_of_rich(c: RichColour) -> Colour {
    match c {
        RichColour::Default => Colour::Reset,
        RichColour::Indexed(i) => Colour::Indexed(i),
        RichColour::Rgb(r, g, b) => Colour::Rgb(r, g, b),
    }
}

/// The terminal colour of a rich-style colour: the default becomes a reset.
pub fn parse_color_to_ratatui(c: RichColour) -> (r: Colour)
    ensures
        r == colour_of_rich(c),
{
    match c {
        RichColour::Default => Colour::Reset,
        RichColour::Indexed(i) => Colour::Indexed(i),
        RichColour::Rgb(r, g, b) => Colour::Rgb(r, g, b),
    }
}

/// The rich-style attributes that have a text modifier, by code, each
/// with its modifier, in the order they are applied.
pub open spec fn attribute_modifiers() -> Seq<(u16, u16)> {
    seq![
        (1u16, BOLD),
        (2u16, DIM),
        (4u16, ITALIC),
        (8u16, UNDERLINED),
        (16u16, SLOW_BLINK),
        (32u16, RAPID_BLINK),
        (64u16, REVERSED),
        (128u16, HIDDEN),
        (256u16, CROSSED_OUT),
    ]
}

/// Whether a parsed style has the attribute `code` on: enabled and not
/// disabled (`parse_style::Style::is_enabled`).
pub open spec fn rich_is_enabled(code: u16, enabled: Seq<u16>, disabled: Seq<u16>) -> bool {
    enabled.contains(code) && !disabled.contains(code)
}

/// `style` with the modifier of each pair in `pairs` whose attribute is on
/// turned on, in order.
pub open spec fn with_enabled(style: TextStyle, pairs: Seq<(u16, u16)>, enabled: Seq<u16>, disabled: Seq<u16>) -> TextStyle
    decreases pairs.len(),
{
    if pairs.len() == 0 {
        style
    } else {
        let next = if rich_is_enabled(pairs[0].0, enabled, disabled) {
            with_modifier(style, pairs[0].1)
        } else {
            style
        };
        with_enabled(next, pairs.drop_first(), enabled, disabled)
    }
}

/// The style a parsed rich style stands for: its colours as foreground and
/// background, with the modifiers of its attributes that are on.
pub open spec fn rich_text_style(fg: Option<RichColour>, bg: Option<RichColour>, enabled: Seq<u16>, disabled: Seq<u16>) -> TextStyle {
    let with_fg = match fg {
        Some(c) => TextStyle { fg: Some(colour_of_rich(c)), ..plain_style() },
        None => plain_style(),
    };
    let with_bg = match bg {
        Some(c) => TextStyle { bg: Some(colour_of_rich(c)), ..with_fg },
        None => with_fg,
    };
    with_enabled(with_bg, attribute_modifiers(), enabled, disabled)
}

/// The cursor style a parsed rich style stands for: as `rich_text_style`,
/// except that a lone colour with no background is the background.
pub open spec fn rich_cursor_style(fg: Option<RichColour>, bg: Option<RichColour>, enabled: Seq<u16>, disabled: Seq<u16>) -> TextStyle {
    let coloured = match (fg, bg) {
        (None, None) => plain_style(),
        (Some(f), None) => TextStyle { bg: Some(colour_of_rich(f)), ..plain_style() },
        (f, Some(b)) => {
            let with_fg = match f {
                Some(c) => TextStyle { fg: Some(colour_of_rich(c)), ..plain_style() },
                None => plain_style(),
            };
            TextStyle { bg: Some(colour_of_rich(b)), ..with_fg }
        },
    };
    with_enabled(coloured, attribute_modifiers(), enabled, disabled)
}

fn contains_code(v: &Vec<u16>, x: u16) -> (r: bool)
    ensures
        r == v@.contains(x),
{
    let mut i: usize = 0;
    while i < v.len()
        invariant
            i <= v.len(),
            forall|j: int| 0 <= j < i ==> v@[j] != x,
        decreases v.len() - i,
    {
        if v[i] == x {
            return true;
        }
        i = i + 1;
    }
    false
}

/// `style` with the modifiers of the attributes that are on turned on.
fn add_enabled_modifiers(style: TextStyle, enabled: &Vec<u16>, disabled: &Vec<u16>) -> (r: TextStyle)
    ensures
        r == with_enabled(style, attribute_modifiers(), enabled@, disabled@),
{
    let pairs: Vec<(u16, u16)> = vec![
        (1u16, BOLD),
        (2u16, DIM),
        (4u16, ITALIC),
        (8u16, UNDERLINED),
        (16u16, SLOW_BLINK),
        (32u16, RAPID_BLINK),
        (64u16, REVERSED),
        (128u16, HIDDEN),
        (256u16, CROSSED_OUT),
    ];
    assert(pairs@ =~= attribute_modifiers());
    assert(pairs@.skip(0) =~= pairs@);
    let mut s = style;
    let mut i: usize = 0;
    while i < pairs.len()
        invariant
            i <= pairs.len(),
            pairs@ == attribute_modifiers(),
            with_enabled(s, pairs@.skip(i as int), enabled@, disabled@) == with_enabled(
                style,
                attribute_modifiers(),
                enabled@,
                disabled@,
            ),
        decreases pairs.len() - i,
    {
        let (code, modifier) = pairs[i];
        assert(pairs@.skip(i as int).drop_first() =~= pairs@.skip(i + 1));
        assert(pairs@.skip(i as int)[0] == pairs@[i as int]);
        if contains_code(enabled, code) && !contains_code(disabled, code) {
            s = s.add_modifier(modifier);
        }
        i = i + 1;
    }
    assert(pairs@.skip(pairs.len() as int) =~= Seq::<(u16, u16)>::empty());
    s
}

/// The style a parsed rich style stands for (see `rich_text_style`).
pub fn rich_to_style(fg: Option<RichColour>, bg: Option<RichColour>, enabled: &Vec<u16>, disabled: &Vec<u16>) -> (s: TextStyle)
    ensures
        s == rich_text_style(fg, bg, enabled@, disabled@),
{
    let mut style = TextStyle::new();
    if let Some(c) = fg {
        style = style.fg(parse_color_to_ratatui(c));
    }
    if let Some(c) = bg {
        style = style.bg(parse_color_to_ratatui(c));
    }
    add_enabled_modifiers(style, enabled, disabled)
}

/// The cursor style a parsed rich style stands for (see
/// `rich_cursor_style`).
pub fn rich_to_cursor_style(fg: Option<RichColour>, bg: Option<RichColour>, enabled: &Vec<u16>, disabled: &Vec<u16>) -> (s: TextStyle)
    ensures
        s == rich_cursor_style(fg, bg, enabled@, disabled@),
{
    let mut style = TextStyle::new();
    match (fg, bg) {
        (None, None) => {},
        (Some(f), None) => {
            style = style.bg(parse_color_to_ratatui(f));
        },
        (f, Some(b)) => {
            if let Some(c) = f {
                style = style.fg(parse_color_to_ratatui(c));
            }
            style = style.bg(parse_color_to_ratatui(b));
        },
    }
    add_enabled_modifiers(style, enabled, disabled)
}

/// Parse a rich-style string (e.g. `"bold red"`) into a text style: the
/// parsed colours and the modifiers of its attributes that are on; the
/// parser's message when it refuses the string.
pub fn parse_str_to_style(s: &str) -> (r: Result<TextStyle, String>)
    ensures
        match rich_style_of(s@) {
            Ok(p) => r == Ok::<TextStyle, String>(rich_text_style(p.0, p.1, p.2, p.3)),
            Err(e) => r matches Err(m) && m@ == e,
        },
{
    match rich_style_error(s) {
        Some(m) => Err(m),
        None => {
            let fg = rich_foreground(s);
            let bg = rich_background(s);
            let en = rich_enabled_codes(s);
            let dis = rich_disabled_codes(s);
            Ok(rich_to_style(fg, bg, &en, &dis))
        },
    }
}

/// How the cursor cell is drawn.
#[derive(Debug, Clone, Copy, PartialEq, Eq, Structural)]
pub enum CursorStyleConfig {
    /// Reverse video.
    Reverse,
    /// The terminal's own cursor look.
    Default,
    /// A style of its own.
    Custom(TextStyle),
}

/// Parse a cursor style string. `"reverse"` and `"default"` (in any ASCII
/// case) name the two fixed looks; anything else is a rich-style string
/// read as `parse_str_to_style` reads it, except that a single colour with
/// no `on` is the background of the cursor cell.
pub fn parse_cursor_style_str(s: &str) -> (r: Result<CursorStyleConfig, String>)
    ensures
        crate::text_ops::eq_ignore_ascii_case(s@, "reverse"@) ==> r == Ok::<CursorStyleConfig, String>(CursorStyleConfig::Reverse),
        !crate::text_ops::eq_ignore_ascii_case(s@, "reverse"@) && crate::text_ops::eq_ignore_ascii_case(s@, "default"@)
            ==> r == Ok::<CursorStyleConfig, String>(CursorStyleConfig::Default),
        !crate::text_ops::eq_ignore_ascii_case(s@, "reverse"@) && !crate::text_ops::eq_ignore_ascii_case(s@, "default"@)
            ==> match rich_style_of(s@) {
                Ok(p) => r == Ok::<CursorStyleConfig, String>(CursorStyleConfig::Custom(rich_cursor_style(p.0, p.1, p.2, p.3))),
                Err(e) => r matches Err(m) && m@ == e,
            },
{
    let v = chars_of(s);
    if crate::text_ops::eq_ignore_ascii_case_exec(&v, &chars_of("reverse")) {
        return Ok(CursorStyleConfig::Reverse);
    }
    if crate::text_ops::eq_ignore_ascii_case_exec(&v, &chars_of("default")) {
        return Ok(CursorStyleConfig::Default);
    }
    match rich_style_error(s) {
        Some(m) => Err(m),
        None => {
            let fg = rich_foreground(s);
            let bg = rich_background(s);
            let en = rich_enabled_codes(s);
            let dis = rich_disabled_codes(s);
            Ok(CursorStyleConfig::Custom(rich_to_cursor_style(fg, bg, &en, &dis)))
        },
    }
}

} // verus!
