//! The screen under construction: a grid of styled, tagged cells that is
//! filled span by span, wrapping at the right edge (or at the edge of an
//! area), with wide graphemes covering the cells after them.

use crate::content_utils::{graphemes_of, graphemes_of_str, StyledLine, StyledSpan};
use crate::palette::{button_style, ButtonState, Palette};
use crate::style::{with_modifier, Colour, TextStyle, BOLD, REVERSED};
use crate::unicode::{chars_display_width, chars_of, display_width, string_of};
use vstd::prelude::*;

verus! {

/// Identifies which clipboard slot a `Tag::Clipboard` cell belongs to.
#[derive(Debug, Clone, Copy, PartialEq, Eq, Structural)]
pub enum ClipboardTypes {
    TutorialClickExample,
    TutorialRP1,
    TutorialMouseMode,
    TutorialRecommendedSettings,
    TutorialCursor0,
    TutorialCursor1,
    TutorialCursor2,
    TutorialCursor3,
    TutorialCursor4,
    TutorialCursor5,
    TutorialCursor6,
    TutorialFineGrainDeletion,
    TutorialSetColor1,
    TutorialSetColor2,
    TutorialSetColor3,
    TutorialSetColor4,
    TutorialSetColor5,
    TutorialRunHelp,
    TutorialAutoClose,
    TutorialAgentMode,
    TutorialGrep,
    TutorialBashCompletion,
    TutorialKeybindingsList,
    TutorialKeybindingsBind1,
    TutorialKeybindingsBind2,
    TutorialKeybindingsBind3,
}

/// What a cell of the screen belongs to, for mouse handling and redraws.
#[derive(Debug, Clone, Copy, PartialEq, Eq, Structural)]
pub enum Tag {
    Blank,
    Normal,
    Ps1Prompt,
    Ps1PromptCwdWidget(usize),
    Ps1PromptDynamicTime,
    Ps1PromptAnimation,
    PromptCopyBufferWidget,
    Ps2Prompt,
    Command(usize),
    TabSuggestion,
    Suggestion(usize),
    HistorySuggestion,
    FuzzySearch,
    HistoryResult(usize),
    Tooltip,
    AiResult(usize),
    TutorialPrev,
    TutorialNext,
    Tutorial,
    Clipboard(ClipboardTypes),
    MultiWidthContinuation,
}

/// How tags are given to the graphemes of a span.
#[derive(Debug, Clone, PartialEq, Eq)]
pub enum SpanTag {
    /// Every grapheme gets the same tag.
    Constant(Tag),
    /// One tag per grapheme, by position; `Tag::Normal` past the end.
    PerGrapheme(Vec<Tag>),
}

/// The tag of grapheme `idx` under a span tag.
pub open spec fn span_tag_at(t: SpanTag, idx: int) -> Tag {
    match t {
        SpanTag::Constant(tag) => tag,
        SpanTag::PerGrapheme(tags) => if 0 <= idx < tags.len() {
            tags@[idx]
        } else {
            Tag::Normal
        },
    }
}

impl SpanTag {
    /// The tag for the grapheme at `idx`.
    pub fn get(&self, idx: usize) -> (t: Tag)
        ensures
            t == span_tag_at(*self, idx as int),
    {
        match self {
            SpanTag::Constant(tag) => *tag,
            SpanTag::PerGrapheme(tags) => if idx < tags.len() {
                tags[idx]
            } else {
                Tag::Normal
            },
        }
    }
}

/// A span with a tag for each of its graphemes.
#[derive(Debug, Clone)]
pub struct TaggedSpan {
    pub span: StyledSpan,
    pub tag: SpanTag,
}

impl TaggedSpan {
    /// A span whose graphemes all get `tag`.
    pub fn new(span: StyledSpan, tag: Tag) -> (t: TaggedSpan)
        ensures
            t.span == span,
            t.tag == SpanTag::Constant(tag),
    {
        TaggedSpan { span, tag: SpanTag::Constant(tag) }
    }

    /// A span with one tag per grapheme.
    pub fn per_grapheme(span: StyledSpan, tags: Vec<Tag>) -> (t: TaggedSpan)
        ensures
            t.span == span,
            t.tag == SpanTag::PerGrapheme(tags),
    {
        TaggedSpan { span, tag: SpanTag::PerGrapheme(tags) }
    }

    /// This span styled as a button in `state` shows it (see
    /// `Palette::apply_button_style`), with the same tags.
    pub fn with_button_state(self, state: ButtonState) -> (t: TaggedSpan)
        ensures
            t.span.content == self.span.content,
            t.span.style == button_style(self.span.style, state),
            t.tag == self.tag,
    {
        let style = Palette::apply_button_style(self.span.style, state);
        TaggedSpan { span: StyledSpan { content: self.span.content, style }, tag: self.tag }
    }
}

/// A logical line of tagged spans.
#[derive(Debug, Clone)]
pub struct TaggedLine {
    pub spans: Vec<TaggedSpan>,
}

impl TaggedLine {
    /// A line of the spans of `line`, each tagged `tag` throughout.
    pub fn from_line(line: StyledLine, tag: Tag) -> (l: TaggedLine)
        ensures
            l.spans.len() == line.spans.len(),
            forall|i: int|
                0 <= i < l.spans.len() ==> (#[trigger] l.spans@[i]).span == line.spans@[i] && l.spans@[i].tag
                    == SpanTag::Constant(tag),
    {
        let mut spans: Vec<TaggedSpan> = Vec::new();
        let mut rest = line.spans;
        let ghost all = rest@;
        let mut i: usize = 0;
        while i < rest.len()
            invariant
                i <= rest.len(),
                rest@ == all,
                spans.len() == i,
                forall|j: int|
                    0 <= j < i ==> (#[trigger] spans@[j]).span == all[j] && spans@[j].tag == SpanTag::Constant(tag),
            decreases rest.len() - i,
        {
            let sp = StyledSpan { content: rest[i].content.clone(), style: rest[i].style };
            spans.push(TaggedSpan::new(sp, tag));
            i = i + 1;
        }
        TaggedLine { spans }
    }
}

/// A position on the screen.
#[derive(Debug, Clone, Copy, PartialEq, Eq, Structural)]
pub struct Coord {
    pub row: u16,
    pub col: u16,
}

impl Coord {
    pub fn new(row: u16, col: u16) -> (c: Coord)
        ensures
            c == (Coord { row, col }),
    {
        Coord { row, col }
    }

    /// The distance in cells between two positions: the column difference
    /// plus the row difference.
    pub fn abs_diff(&self, other: &Coord) -> (d: usize)
        ensures
            d == abs_int(self.col - other.col) + abs_int(self.row - other.row),
    {
        let dc: u16 = if self.col >= other.col { self.col - other.col } else { other.col - self.col };
        let dr: u16 = if self.row >= other.row { self.row - other.row } else { other.row - self.row };
        dc as usize + dr as usize
    }
}

/// The absolute value of `x`.
pub open spec fn abs_int(x: int) -> int {
    if x < 0 {
        -x
    } else {
        x
    }
}

/// A rectangle of the screen: its top-left corner and its size.
#[derive(Debug, Clone, Copy, PartialEq, Eq, Structural)]
pub struct Rect {
    pub x: u16,
    pub y: u16,
    pub width: u16,
    pub height: u16,
}

/// `a + b`, or the largest `u16` when that is too large.
pub open spec fn sat_add(a: u16, b: u16) -> int {
    if a + b > u16::MAX {
        u16::MAX as int
    } else {
        a + b
    }
}

impl Rect {
    pub fn new(x: u16, y: u16, width: u16, height: u16) -> (r: Rect)
        ensures
            r == (Rect { x, y, width, height }),
    {
        Rect { x, y, width, height }
    }

    pub fn left(&self) -> (v: u16)
        ensures
            v == self.x,
    {
        self.x
    }

    /// The first column right of the rectangle (saturating).
    pub fn right(&self) -> (v: u16)
        ensures
            v == sat_add(self.x, self.width),
    {
        self.x.saturating_add(self.width)
    }

    pub fn top(&self) -> (v: u16)
        ensures
            v == self.y,
    {
        self.y
    }

    /// The first row below the rectangle (saturating).
    pub fn bottom(&self) -> (v: u16)
        ensures
            v == sat_add(self.y, self.height),
    {
        self.y.saturating_add(self.height)
    }
}

/// A screen cell as the renderer keeps it: the symbol it shows (one space
/// when empty), its foreground, background and underline colours, and the
/// modifiers in effect.
#[derive(Debug, Clone, PartialEq, Eq)]
pub struct Cell {
    pub symbol: String,
    pub fg: Colour,
    pub bg: Colour,
    pub underline_color: Colour,
    pub modifier: u16,
}

/// A cell as plain values: symbol, foreground, background, underline
/// colour, modifiers and tag.
pub type CellView = (Seq<char>, Colour, Colour, Colour, u16, Tag);

/// The empty cell with tag `t`: one space, reset colours, no modifiers.
pub open spec fn blank_cell(t: Tag) -> CellView {
    (seq![' '], Colour::Reset, Colour::Reset, Colour::Reset, 0, t)
}

/// A cell with `style` merged into it (`Cell::set_style`): the colours the
/// style sets replace the cell's, its added modifiers are turned on and
/// then its removed ones off.
pub open spec fn styled_cell(c: CellView, style: TextStyle) -> CellView {
    (
        c.0,
        match style.fg {
            Some(x) => x,
            None => c.1,
        },
        match style.bg {
            Some(x) => x,
            None => c.2,
        },
        match style.underline_color {
            Some(x) => x,
            None => c.3,
        },
        (c.4 | style.add_modifier) & !style.sub_modifier,
        c.5,
    )
}

impl Cell {
    /// The empty cell.
    pub fn empty() -> (c: Cell)
        ensures
            c.symbol@ == seq![' '],
            c.fg == Colour::Reset,
            c.bg == Colour::Reset,
            c.underline_color == Colour::Reset,
            c.modifier == 0,
    {
        let mut v: Vec<char> = Vec::new();
        v.push(' ');
        Cell { symbol: string_of(&v), fg: Colour::Reset, bg: Colour::Reset, underline_color: Colour::Reset, modifier: 0 }
    }

    /// The symbol shown.
    pub fn symbol(&self) -> (s: &str)
        ensures
            s@ == self.symbol@,
    {
        self.symbol.as_str()
    }

    /// The cell's look as a style: every colour set, the modifiers in
    /// effect added and none removed.
    pub fn style(&self) -> (s: TextStyle)
        ensures
            s == (TextStyle {
                fg: Some(self.fg),
                bg: Some(self.bg),
                underline_color: Some(self.underline_color),
                add_modifier: self.modifier,
                sub_modifier: 0,
            }),
    {
        TextStyle {
            fg: Some(self.fg),
            bg: Some(self.bg),
            underline_color: Some(self.underline_color),
            add_modifier: self.modifier,
            sub_modifier: 0,
        }
    }
}

/// A cell with the tag of what it belongs to.
#[derive(Debug, Clone, PartialEq, Eq)]
pub struct TaggedCell {
    pub cell: Cell,
    pub tag: Tag,
}

/// A tagged cell as plain values.
pub open spec fn cell_view(c: TaggedCell) -> CellView {
    (c.cell.symbol@, c.cell.fg, c.cell.bg, c.cell.underline_color, c.cell.modifier, c.tag)
}

impl TaggedCell {
    /// The empty cell tagged `Blank`.
    pub fn blank() -> (c: TaggedCell)
        ensures
            cell_view(c) == blank_cell(Tag::Blank),
    {
        TaggedCell { cell: Cell::empty(), tag: Tag::Blank }
    }

    /// This cell showing `symbol` with `style` merged in, tagged `tag`.
    pub fn update(&mut self, symbol: &str, style: TextStyle, tag: Tag)
        ensures
            cell_view(*final(self)) == styled_cell(
                (symbol@, old(self).cell.fg, old(self).cell.bg, old(self).cell.underline_color, old(self).cell.modifier, tag),
                style,
            ),
    {
        self.cell.symbol = symbol.to_string();
        if let Some(c) = style.fg {
            self.cell.fg = c;
        }
        if let Some(c) = style.bg {
            self.cell.bg = c;
        }
        if let Some(c) = style.underline_color {
            self.cell.underline_color = c;
        }
        self.cell.modifier = (self.cell.modifier | style.add_modifier) & !style.sub_modifier;
        self.tag = tag;
    }
}

impl Default for TaggedCell {
    fn default() -> (c: TaggedCell)
        ensures
            cell_view(c) == blank_cell(Tag::Blank),
    {
        TaggedCell::blank()
    }
}

/// A row of `width` empty cells.
pub open spec fn blank_row(width: int) -> Seq<CellView> {
    Seq::new(width as nat, |i: int| blank_cell(Tag::Blank))
}

/// The text stored for clipboard slot `t` (the last entry for it wins).
pub open spec fn clipboard_of(v: Seq<(ClipboardTypes, String)>, t: ClipboardTypes) -> Seq<char>
    decreases v.len(),
{
    if v.len() == 0 {
        Seq::empty()
    } else if v.last().0 == t {
        v.last().1@
    } else {
        clipboard_of(v.drop_last(), t)
    }
}

/// The screen being built: rows of `width` tagged cells, a cursor where the
/// next grapheme goes, and bookkeeping for the terminal and the clipboard
/// buttons.
pub struct Contents {
    pub buf: Vec<Vec<TaggedCell>>,
    pub width: u16,
    /// Where the next grapheme goes.
    pub cursor_pos: Coord,
    /// Where the terminal emulator thinks the cursor is.
    pub term_cursor_pos: Option<Coord>,
    /// The row to keep visible when the content is taller than the terminal.
    pub focus_row: Option<u16>,
    pub prompt_start: Option<Coord>,
    pub prompt_end: Option<Coord>,
    /// Clipboard text for each clipboard slot: a list in which the last
    /// entry for a slot counts.
    pub clipboards: Vec<(ClipboardTypes, String)>,
}

impl Contents {
    /// The cells as plain values, row by row.
    pub open spec fn grid(&self) -> Seq<Seq<CellView>> {
        self.buf@.map_values(|r: Vec<TaggedCell>| r@.map_values(|c: TaggedCell| cell_view(c)))
    }

    /// The terminal cursor, focus row, prompt marks and clipboards of the two
    /// screens agree.
    pub open spec fn same_extras(&self, other: Contents) -> bool {
        &&& self.term_cursor_pos == other.term_cursor_pos
        &&& self.focus_row == other.focus_row
        &&& self.prompt_start == other.prompt_start
        &&& self.prompt_end == other.prompt_end
        &&& self.clipboards == other.clipboards
    }

    /// Every row is `width` cells long.
    pub open spec fn wf(&self) -> bool {
        forall|r: int| 0 <= r < self.buf.len() ==> (#[trigger] self.buf@[r]).len() == self.width
    }

    /// Where the next grapheme goes.
    pub open spec fn cursor(&self) -> Coord {
        self.cursor_pos
    }

    /// An empty screen `width` columns wide.
    pub fn new(width: u16) -> (c: Contents)
        ensures
            c.wf(),
            c.buf.len() == 0,
            c.width == width,
            c.cursor() == Coord::new_spec(0, 0),
            c.term_cursor_pos is None,
            c.focus_row is None,
            c.prompt_start is None,
            c.prompt_end is None,
            c.clipboards.len() == 0,
    {
        Contents {
            buf: Vec::new(),
            width,
            cursor_pos: Coord::new(0, 0),
            term_cursor_pos: None,
            focus_row: None,
            prompt_start: None,
            prompt_end: None,
            clipboards: Vec::new(),
        }
    }

    /// Append `text` to the clipboard text of slot `clipboard_type`; the
    /// other slots keep theirs.
    pub fn setup_clipboard(&mut self, clipboard_type: ClipboardTypes, text: String)
        ensures
            clipboard_of(final(self).clipboards@, clipboard_type) == clipboard_of(old(self).clipboards@, clipboard_type)
                + text@,
            forall|t: ClipboardTypes|
                t != clipboard_type ==> clipboard_of(final(self).clipboards@, t) == clipboard_of(
                    old(self).clipboards@,
                    t,
                ),
            final(self).buf == old(self).buf,
            final(self).width == old(self).width,
            final(self).cursor() == old(self).cursor(),
    {
        let ghost v = self.clipboards@;
        let mut i: usize = self.clipboards.len();
        while i > 0 && self.clipboards[i - 1].0 != clipboard_type
            invariant
                i <= self.clipboards.len(),
                self.clipboards@ == v,
                forall|j: int| i <= j < v.len() ==> v[j].0 != clipboard_type,
            decreases i,
        {
            i = i - 1;
        }
        if i == 0 {
            proof {
                lemma_clipboard_absent(v, clipboard_type);
            }
            self.clipboards.push((clipboard_type, text));
            assert(self.clipboards@.drop_last() =~= v);
            assert(Seq::<char>::empty() + text@ =~= text@);
        } else {
            let mut joined = chars_of(self.clipboards[i - 1].1.as_str());
            crate::unicode::append_chars(&mut joined, &chars_of(text.as_str()));
            let entry = (clipboard_type, string_of(&joined));
            self.clipboards.set(i - 1, entry);
            proof {
                lemma_clipboard_update(v, (i - 1) as int, entry);
            }
        }
    }

    /// Keep row `row` visible.
    pub fn set_focus_row(&mut self, row: u16)
        ensures
            final(self).focus_row == Some(row),
            final(self).buf == old(self).buf,
            final(self).width == old(self).width,
            final(self).cursor() == old(self).cursor(),
    {
        self.focus_row = Some(row);
    }

    /// Where the next grapheme goes.
    pub fn cursor_position(&self) -> (c: Coord)
        ensures
            c == self.cursor(),
    {
        self.cursor_pos
    }

    /// Add an empty row at the bottom.
    pub fn increase_buf_single_row(&mut self)
        requires
            old(self).wf(),
        ensures
            final(self).wf(),
            final(self).grid() == old(self).grid().push(blank_row(old(self).width as int)),
            final(self).buf.len() == old(self).buf.len() + 1,
            final(self).width == old(self).width,
            final(self).cursor() == old(self).cursor(),
            final(self).same_extras(*old(self)),
    {
        let mut row: Vec<TaggedCell> = Vec::new();
        let mut i: u16 = 0;
        while i < self.width
            invariant
                i <= self.width,
                row.len() == i,
                row@.map_values(|c: TaggedCell| cell_view(c)) == blank_row(i as int),
            decreases self.width - i,
        {
            let c = TaggedCell::blank();
            let ghost before = row@;
            row.push(c);
            assert(row@ == before.push(c));
            assert(row@.map_values(|c: TaggedCell| cell_view(c)) =~= before.map_values(|c: TaggedCell| cell_view(c)).push(
                cell_view(c),
            ));
            assert(row@.map_values(|c: TaggedCell| cell_view(c)) =~= blank_row(i + 1));
            i = i + 1;
        }
        let ghost g = self.grid();
        self.buf.push(row);
        assert(self.grid() =~= g.push(blank_row(self.width as int)));
    }

    /// Number of rows, as a `u16` (truncating).
    pub fn height(&self) -> (h: u16)
        ensures
            h == self.buf.len() as u16,
    {
        self.buf.len() as u16
    }
}

impl Coord {
    pub open spec fn new_spec(row: u16, col: u16) -> Coord {
        Coord { row, col }
    }
}

/// A slot with no entry has empty text.
proof fn lemma_clipboard_absent(v: Seq<(ClipboardTypes, String)>, t: ClipboardTypes)
    requires
        forall|j: int| 0 <= j < v.len() ==> v[j].0 != t,
    ensures
        clipboard_of(v, t) == Seq::<char>::empty(),
    decreases v.len(),
{
    if v.len() > 0 {
        lemma_clipboard_absent(v.drop_last(), t);
    }
}

/// Replacing the last entry for slot `e.0`, at `i`, by `e`: that slot now
/// has the text of `e` and the others keep theirs.
proof fn lemma_clipboard_update(v: Seq<(ClipboardTypes, String)>, i: int, e: (ClipboardTypes, String))
    requires
        0 <= i < v.len(),
        v[i].0 == e.0,
        forall|j: int| i < j < v.len() ==> v[j].0 != e.0,
    ensures
        clipboard_of(v, e.0) == v[i].1@,
        clipboard_of(v.update(i, e), e.0) == e.1@,
        forall|t: ClipboardTypes| t != e.0 ==> clipboard_of(v.update(i, e), t) == clipboard_of(v, t),
    decreases v.len(),
{
    let w = v.update(i, e);
    if i == v.len() - 1 {
        assert(w.drop_last() =~= v.drop_last());
        assert(w.last() == e);
        assert forall|t: ClipboardTypes| t != e.0 implies clipboard_of(w, t) == clipboard_of(v, t) by {
            assert(v.last().0 == e.0);
        }
    } else {
        lemma_clipboard_update(v.drop_last(), i, e);
        assert(w.drop_last() =~= v.drop_last().update(i, e));
        assert(w.last() == v.last());
        assert forall|t: ClipboardTypes| t != e.0 implies clipboard_of(w, t) == clipboard_of(v, t) by {
            if v.last().0 != t {
                assert(clipboard_of(w.drop_last(), t) == clipboard_of(v.drop_last(), t));
            }
        }
    }
}

/// A grapheme to draw and its style.
#[derive(Debug, Clone)]
pub struct StyledGrapheme {
    pub symbol: String,
    pub style: TextStyle,
}

/// The columns a grapheme takes, as a `u16`.
pub open spec fn grapheme_cols(s: Seq<char>) -> int {
    (display_width(s) as u16) as int
}

/// The columns and rows the cursor may use: from column `left` up to (not
/// including) `right`, and above row `bottom`.
pub type Bounds = (int, int, int);

/// The bounds of an area, or of the whole width with no bottom.
pub open spec fn bounds_of(area: Option<Rect>, width: int) -> Bounds {
    match area {
        Some(a) => (a.x as int, sat_add(a.x, a.width), sat_add(a.y, a.height)),
        None => (0, width, u16::MAX as int),
    }
}

/// Whether the cells `from..to` of a row are all tagged `Blank`.
pub open spec fn all_blank(row: Seq<CellView>, from: int, to: int) -> bool {
    forall|c: int| from <= c < to ==> (#[trigger] row[c]).5 == Tag::Blank
}

/// One step of the search for where a grapheme `w` columns wide goes,
/// from `cur`: a row past the end of the grid is added first (unless it is
/// at or below `bottom`, which fails); the cursor moves to `left` if it is
/// before it; a grapheme that would pass `right` goes to the start of the
/// next row (failing at `bottom`); when not overwriting, a place whose
/// cells are not all blank is skipped one column at a time. Gives the
/// outcome (`None` to go on), the grid and the cursor.
pub open spec fn insertion_step(g: Seq<Seq<CellView>>, cur: Coord, w: int, overwrite: bool, b: Bounds, width: int) -> (
    Option<bool>,
    Seq<Seq<CellView>>,
    Coord,
) {
    if cur.row >= (g.len() as u16) && cur.row >= b.2 {
        (Some(false), g, cur)
    } else {
        let g1 = if cur.row >= (g.len() as u16) {
            g.push(blank_row(width))
        } else {
            g
        };
        let c1 = if cur.col < b.0 {
            Coord { row: cur.row, col: b.0 as u16 }
        } else {
            cur
        };
        if c1.col + w > b.1 {
            if c1.row + 1 >= b.2 {
                (Some(false), g1, c1)
            } else {
                (None, g1, Coord { row: (c1.row + 1) as u16, col: b.0 as u16 })
            }
        } else if !overwrite && !all_blank(g1[c1.row as int], c1.col as int, c1.col + w) {
            (None, g1, Coord { row: c1.row, col: (c1.col + 1) as u16 })
        } else {
            (Some(true), g1, c1)
        }
    }
}

/// The search for where a grapheme `w` columns wide goes, from `cur`, with
/// at most `fuel` steps (see `insertion_step`); it fails when the steps run
/// out. Gives whether a place was found, the grid and the cursor.
pub open spec fn insertion(
    g: Seq<Seq<CellView>>,
    cur: Coord,
    w: int,
    overwrite: bool,
    b: Bounds,
    width: int,
    fuel: nat,
) -> (bool, Seq<Seq<CellView>>, Coord)
    decreases fuel,
{
    if fuel == 0 {
        (false, g, cur)
    } else {
        let st = insertion_step(g, cur, w, overwrite, b, width);
        match st.0 {
            Some(r) => (r, st.1, st.2),
            None => insertion(st.1, st.2, w, overwrite, b, width, (fuel - 1) as nat),
        }
    }
}

/// The number of search steps before giving up.
pub const MAX_ITERATIONS: usize = 1000;

impl Contents {
    /// The screen is well formed and the cursor is at most one row below
    /// the last.
    pub open spec fn ready(&self) -> bool {
        &&& self.wf()
        &&& self.cursor_pos.row <= self.buf.len()
    }

    /// Bounds of an area that lies within the screen's width.
    pub open spec fn area_ok(&self, area: Option<Rect>) -> bool {
        area matches Some(a) ==> a.x <= sat_add(a.x, a.width) <= self.width
    }

    /// One step of the search (see `insertion_step`).
    fn insertion_step_exec(&mut self, graph_w: u16, overwrite: bool, left: u16, right: u16, bottom: u16) -> (r: Option<
        bool,
    >)
        requires
            old(self).ready(),
            right <= old(self).width,
        ensures
            final(self).ready(),
            final(self).width == old(self).width,
            final(self).buf.len() >= old(self).buf.len(),
            final(self).same_extras(*old(self)),
            (r, final(self).grid(), final(self).cursor()) == insertion_step(
                old(self).grid(),
                old(self).cursor(),
                graph_w as int,
                overwrite,
                (left as int, right as int, bottom as int),
                old(self).width as int,
            ),
            r == Some(true) ==> final(self).cursor().row < final(self).buf.len() && final(self).cursor().col + graph_w
                <= right,
    {
        if self.cursor_pos.row >= self.buf.len() as u16 {
            if self.cursor_pos.row >= bottom {
                return Some(false);
            }
            self.increase_buf_single_row();
        }
        if self.cursor_pos.col < left {
            self.cursor_pos.col = left;
        }
        assert(self.buf.len() <= u16::MAX ==> self.buf.len() as u16 == self.buf.len());
        assert(self.cursor_pos.row < self.buf.len());
        if (self.cursor_pos.col as u32) + (graph_w as u32) > (right as u32) {
            if (self.cursor_pos.row as u32) + 1 >= (bottom as u32) {
                return Some(false);
            }
            self.cursor_pos.row = self.cursor_pos.row + 1;
            self.cursor_pos.col = left;
            return None;
        }
        if !overwrite {
            let r = self.cursor_pos.row as usize;
            let start = self.cursor_pos.col as usize;
            let end = start + graph_w as usize;
            let mut c = start;
            let mut blank = true;
            while c < end
                invariant
                    self.wf(),
                    r < self.buf.len(),
                    start <= c <= end <= self.width,
                    blank == all_blank(self.grid()[r as int], start as int, c as int),
                decreases end - c,
            {
                assert(self.grid()[r as int][c as int] == cell_view(self.buf@[r as int]@[c as int]));
                if self.buf[r][c].tag != Tag::Blank {
                    blank = false;
                }
                c = c + 1;
            }
            if blank {
                Some(true)
            } else {
                self.cursor_pos.col = self.cursor_pos.col + 1;
                None
            }
        } else {
            Some(true)
        }
    }

    /// Move the cursor to where `graph` can go (see `insertion`): at or after
    /// the cursor, within `area` (or the whole width), and when not
    /// overwriting on blank cells only; rows are added at the bottom as
    /// needed. Returns whether such a place was found.
    pub fn move_to_next_insertion_point(&mut self, graph: &StyledGrapheme, overwrite: bool, area: Option<Rect>) -> (ok: bool)
        requires
            old(self).ready(),
            old(self).area_ok(area),
        ensures
            final(self).ready(),
            final(self).width == old(self).width,
            final(self).buf.len() >= old(self).buf.len(),
            final(self).same_extras(*old(self)),
            (ok, final(self).grid(), final(self).cursor()) == insertion(
                old(self).grid(),
                old(self).cursor(),
                grapheme_cols(graph.symbol@),
                overwrite,
                bounds_of(area, old(self).width as int),
                old(self).width as int,
                MAX_ITERATIONS as nat,
            ),
            ok ==> final(self).cursor().row < final(self).buf.len(),
            ok ==> final(self).cursor().col + grapheme_cols(graph.symbol@) <= bounds_of(area, old(self).width as int).1,
    {
        let graph_w: u16 = chars_display_width(&chars_of(graph.symbol.as_str())) as u16;
        let (left, right, bottom) = match area {
            Some(a) => (a.left(), a.right(), a.bottom()),
            None => (0u16, self.width, u16::MAX),
        };
        let ghost b = bounds_of(area, self.width as int);
        let ghost w = grapheme_cols(graph.symbol@);
        let ghost width0 = self.width;
        let ghost target = insertion(self.grid(), self.cursor(), w, overwrite, b, self.width as int, MAX_ITERATIONS as nat);
        let mut iterations: usize = 0;
        loop
            invariant
                iterations <= MAX_ITERATIONS,
                self.ready(),
                self.width == width0,
                self.same_extras(*old(self)),
                self.buf.len() >= old(self).buf.len(),
                width0 == old(self).width,
                b == bounds_of(area, width0 as int),
                (left as int, right as int, bottom as int) == b,
                right <= width0,
                graph_w as int == w,
                w == grapheme_cols(graph.symbol@),
                target == insertion(old(self).grid(), old(self).cursor(), w, overwrite, b, width0 as int, MAX_ITERATIONS as nat),
                insertion(self.grid(), self.cursor(), w, overwrite, b, width0 as int, (MAX_ITERATIONS - iterations) as nat)
                    == target,
            decreases MAX_ITERATIONS - iterations,
        {
            if iterations >= MAX_ITERATIONS {
                return false;
            }
            iterations = iterations + 1;
            match self.insertion_step_exec(graph_w, overwrite, left, right, bottom) {
                Some(r) => {
                    return r;
                },
                None => {},
            }
        }
    }
}

/// Whether `c` is a control character (general category Cc).
pub open spec fn is_control(c: char) -> bool {
    (c as u32) <= 0x1f || (0x7f <= (c as u32) && (c as u32) <= 0x9f)
}

/// Whether a text holds a control character.
pub open spec fn has_control(s: Seq<char>) -> bool {
    exists|i: int| 0 <= i < s.len() && is_control(s[i])
}

/// The graphemes that can be drawn: those without control characters.
pub open spec fn drawable(gs: Seq<Seq<char>>) -> Seq<Seq<char>>
    decreases gs.len(),
{
    if gs.len() == 0 {
        gs
    } else {
        let r = drawable(gs.drop_last());
        if has_control(gs.last()) {
            r
        } else {
            r.push(gs.last())
        }
    }
}

/// The grid with grapheme `sym`, `w` columns wide, drawn at `cur`: its
/// first cell shows it with `style` merged in and tag `tag`, and the cells
/// it covers after that are emptied and tagged as continuations.
pub open spec fn place(g: Seq<Seq<CellView>>, cur: Coord, sym: Seq<char>, style: TextStyle, tag: Tag, w: int) -> Seq<Seq<CellView>> {
    let row = g[cur.row as int];
    let col = cur.col as int;
    let first = styled_cell((sym, row[col].1, row[col].2, row[col].3, row[col].4, tag), style);
    g.update(
        cur.row as int,
        Seq::new(
            row.len(),
            |c: int|
                if c == col {
                    first
                } else if col < c < col + w {
                    blank_cell(Tag::MultiWidthContinuation)
                } else {
                    row[c]
                },
        ),
    )
}

/// Drawing the graphemes `gs` from the `k`-th on, in `style`, tagged by
/// `tag` (by position among `gs`): a grapheme of no width is left out;
/// any other goes where `insertion` finds room and advances the cursor past
/// it. Fails as soon as no room is found. Gives whether all fitted, the
/// grid and the cursor.
pub open spec fn write_from(
    g: Seq<Seq<CellView>>,
    cur: Coord,
    gs: Seq<Seq<char>>,
    k: int,
    style: TextStyle,
    tag: SpanTag,
    overwrite: bool,
    b: Bounds,
    width: int,
) -> (bool, Seq<Seq<CellView>>, Coord)
    decreases gs.len() - k,
{
    if k >= gs.len() || k < 0 {
        (true, g, cur)
    } else {
        let w = grapheme_cols(gs[k]);
        if w == 0 {
            write_from(g, cur, gs, k + 1, style, tag, overwrite, b, width)
        } else {
            let ins = insertion(g, cur, w, overwrite, b, width, MAX_ITERATIONS as nat);
            if !ins.0 {
                (false, ins.1, ins.2)
            } else {
                write_from(
                    place(ins.1, ins.2, gs[k], style, span_tag_at(tag, k), w),
                    Coord { row: ins.2.row, col: (ins.2.col + w) as u16 },
                    gs,
                    k + 1,
                    style,
                    tag,
                    overwrite,
                    b,
                    width,
                )
            }
        }
    }
}

/// The clipboard slot a span fills, if it is tagged with one throughout.
pub open spec fn span_clipboard(t: SpanTag) -> Option<ClipboardTypes> {
    match t {
        SpanTag::Constant(Tag::Clipboard(cb)) => Some(cb),
        _ => None,
    }
}

fn is_control_exec(c: char) -> (b: bool)
    ensures
        b == is_control(c),
{
    let u = c as u32;
    u <= 0x1f || (0x7f <= u && u <= 0x9f)
}

fn has_control_exec(v: &Vec<char>) -> (b: bool)
    ensures
        b == has_control(v@),
{
    let mut i: usize = 0;
    while i < v.len()
        invariant
            i <= v.len(),
            forall|j: int| 0 <= j < i ==> !is_control(v@[j]),
        decreases v.len() - i,
    {
        if is_control_exec(v[i]) {
            return true;
        }
        i = i + 1;
    }
    false
}

/// The drawable graphemes of a text (`Span::styled_graphemes`).
fn drawable_graphemes(s: &String) -> (r: Vec<Vec<char>>)
    ensures
        r@.map_values(|x: Vec<char>| x@) == drawable(graphemes_of(s@)),
{
    let gs = graphemes_of_str(s);
    let ghost gv = gs@.map_values(|x: Vec<char>| x@);
    let mut out: Vec<Vec<char>> = Vec::new();
    let mut i: usize = 0;
    while i < gs.len()
        invariant
            i <= gs.len(),
            gv == gs@.map_values(|x: Vec<char>| x@),
            out@.map_values(|x: Vec<char>| x@) == drawable(gv.take(i as int)),
        decreases gs.len() - i,
    {
        assert(gv.take(i + 1).drop_last() =~= gv.take(i as int));
        assert(gv.take(i + 1).last() == gs@[i as int]@);
        if !has_control_exec(&gs[i]) {
            let ghost before = out@;
            out.push(gs[i].clone());
            assert(out@.map_values(|x: Vec<char>| x@) =~= before.map_values(|x: Vec<char>| x@).push(gs@[i as int]@));
        }
        i = i + 1;
    }
    assert(gv.take(gs.len() as int) =~= gv);
    out
}

impl Contents {
    /// Put `cell` at row `r`, column `c`.
    fn set_cell(&mut self, r: usize, c: usize, cell: TaggedCell)
        requires
            old(self).wf(),
            r < old(self).buf.len(),
            c < old(self).width,
        ensures
            final(self).wf(),
            final(self).grid() == old(self).grid().update(r as int, old(self).grid()[r as int].update(c as int, cell_view(cell))),
            final(self).buf.len() == old(self).buf.len(),
            final(self).width == old(self).width,
            final(self).cursor() == old(self).cursor(),
            final(self).same_extras(*old(self)),
    {
        let ghost g = self.grid();
        self.buf[r][c] = cell;
        assert(self.grid()[r as int] =~= g[r as int].update(c as int, cell_view(cell)));
        assert(self.grid() =~= g.update(r as int, g[r as int].update(c as int, cell_view(cell))));
    }

    /// Show `symbol` at row `r`, column `c` with `style` merged in, tagged `tag`.
    fn update_cell(&mut self, r: usize, c: usize, symbol: &str, style: TextStyle, tag: Tag)
        requires
            old(self).wf(),
            r < old(self).buf.len(),
            c < old(self).width,
        ensures
            final(self).wf(),
            final(self).grid() == old(self).grid().update(
                r as int,
                old(self).grid()[r as int].update(
                    c as int,
                    styled_cell(
                        (
                            symbol@,
                            old(self).grid()[r as int][c as int].1,
                            old(self).grid()[r as int][c as int].2,
                            old(self).grid()[r as int][c as int].3,
                            old(self).grid()[r as int][c as int].4,
                            tag,
                        ),
                        style,
                    ),
                ),
            ),
            final(self).buf.len() == old(self).buf.len(),
            final(self).width == old(self).width,
            final(self).cursor() == old(self).cursor(),
            final(self).same_extras(*old(self)),
    {
        let mut cell = TaggedCell {
            cell: Cell {
                symbol: self.buf[r][c].cell.symbol.clone(),
                fg: self.buf[r][c].cell.fg,
                bg: self.buf[r][c].cell.bg,
                underline_color: self.buf[r][c].cell.underline_color,
                modifier: self.buf[r][c].cell.modifier,
            },
            tag: self.buf[r][c].tag,
        };
        assert(self.grid()[r as int][c as int] == cell_view(self.buf@[r as int]@[c as int]));
        cell.update(symbol, style, tag);
        self.set_cell(r, c, cell);
    }

    /// Draw the span's drawable graphemes from the cursor (see
    /// `write_from`), within `area` when given, overwriting or skipping
    /// filled cells. A span tagged throughout with a clipboard slot first
    /// adds its text to that slot. Returns whether every grapheme fitted.
    fn write_span_internal(&mut self, tagged_span: &TaggedSpan, overwrite: bool, area: Option<Rect>) -> (ok: bool)
        requires
            old(self).ready(),
            old(self).area_ok(area),
        ensures
            final(self).ready(),
            final(self).width == old(self).width,
            final(self).buf.len() >= old(self).buf.len(),
            (ok, final(self).grid(), final(self).cursor()) == write_from(
                old(self).grid(),
                old(self).cursor(),
                drawable(graphemes_of(tagged_span.span.content@)),
                0,
                crate::style::patched(tagged_span.span.style, tagged_span.span.style),
                tagged_span.tag,
                overwrite,
                bounds_of(area, old(self).width as int),
                old(self).width as int,
            ),
            span_clipboard(tagged_span.tag) is None ==> final(self).same_extras(*old(self)),
            span_clipboard(tagged_span.tag) matches Some(cb) ==> {
                &&& clipboard_of(final(self).clipboards@, cb) == clipboard_of(old(self).clipboards@, cb)
                    + tagged_span.span.content@
                &&& forall|t: ClipboardTypes|
                    t != cb ==> clipboard_of(final(self).clipboards@, t) == clipboard_of(old(self).clipboards@, t)
            },
    {
        if let SpanTag::Constant(Tag::Clipboard(cb_type)) = &tagged_span.tag {
            self.setup_clipboard(*cb_type, tagged_span.span.content.clone());
        }
        let ghost g0 = self.grid();
        let ghost c0 = self.cursor();
        let style = tagged_span.span.style.patch(tagged_span.span.style);
        let gs = drawable_graphemes(&tagged_span.span.content);
        let ghost gv = gs@.map_values(|x: Vec<char>| x@);
        let ghost b = bounds_of(area, self.width as int);
        let ghost width0 = self.width as int;
        let ghost target = write_from(g0, c0, gv, 0, style, tagged_span.tag, overwrite, b, width0);
        let mut i: usize = 0;
        while i < gs.len()
            invariant
                i <= gs.len(),
                self.ready(),
                self.area_ok(area),
                self.width as int == width0,
                b == bounds_of(area, width0),
                gv == gs@.map_values(|x: Vec<char>| x@),
                write_from(self.grid(), self.cursor(), gv, i as int, style, tagged_span.tag, overwrite, b, width0)
                    == target,
                self.buf.len() >= old(self).buf.len(),
                width0 == old(self).width as int,
                style == crate::style::patched(tagged_span.span.style, tagged_span.span.style),
                gv == drawable(graphemes_of(tagged_span.span.content@)),
                target == write_from(old(self).grid(), old(self).cursor(), gv, 0, style, tagged_span.tag, overwrite, b, width0),
                span_clipboard(tagged_span.tag) is None ==> self.same_extras(*old(self)),
                span_clipboard(tagged_span.tag) matches Some(cb) ==> {
                    &&& clipboard_of(self.clipboards@, cb) == clipboard_of(old(self).clipboards@, cb)
                        + tagged_span.span.content@
                    &&& forall|t: ClipboardTypes|
                        t != cb ==> clipboard_of(self.clipboards@, t) == clipboard_of(old(self).clipboards@, t)
                },
            decreases gs.len() - i,
        {
            let w: u16 = chars_display_width(&gs[i]) as u16;
            assert(gv[i as int] == gs@[i as int]@);
            if w == 0 {
                i = i + 1;
                continue;
            }
            let graph = StyledGrapheme { symbol: string_of(&gs[i]), style };
            if !self.move_to_next_insertion_point(&graph, overwrite, area) {
                return false;
            }
            let row = self.cursor_pos.row as usize;
            let col = self.cursor_pos.col as usize;
            let next_x: u16 = self.cursor_pos.col + w;
            let tag = tagged_span.tag.get(i);
            let ghost g1 = self.grid();
            let ghost c1 = self.cursor();
            let ghost row0 = g1[row as int];
            let ghost snap = *self;
            self.update_cell(row, col, graph.symbol.as_str(), style, tag);
            let ghost first = styled_cell((gv[i as int], row0[col as int].1, row0[col as int].2, row0[col as int].3, row0[col as int].4, tag), style);
            let mut c: usize = col + 1;
            assert(graph.symbol@ == gv[i as int]);
            assert(self.grid()[row as int] =~= Seq::new(
                row0.len(),
                |x: int|
                    if x == col {
                        first
                    } else if col < x < c {
                        blank_cell(Tag::MultiWidthContinuation)
                    } else {
                        row0[x]
                    },
            ));
            assert(self.grid() =~= g1.update(
                row as int,
                Seq::new(
                    row0.len(),
                    |x: int|
                        if x == col {
                            first
                        } else if col < x < c {
                            blank_cell(Tag::MultiWidthContinuation)
                        } else {
                            row0[x]
                        },
                ),
            ));
            while c < next_x as usize
                invariant
                    self.wf(),
                    self.same_extras(snap),
                    self.cursor() == c1,
                    self.width as int == width0,
                    row < self.buf.len(),
                    col < c <= next_x,
                    next_x as int == col + w,
                    next_x <= self.width,
                    row0 == g1[row as int],
                    row0.len() == width0,
                    self.buf.len() == g1.len(),
                    self.grid() == g1.update(
                        row as int,
                        Seq::new(
                            row0.len(),
                            |x: int|
                                if x == col {
                                    first
                                } else if col < x < c {
                                    blank_cell(Tag::MultiWidthContinuation)
                                } else {
                                    row0[x]
                                },
                        ),
                    ),
                decreases next_x as usize - c,
            {
                let ghost before = self.grid();
                self.set_cell(row, c, TaggedCell { cell: Cell::empty(), tag: Tag::MultiWidthContinuation });
                assert(self.grid()[row as int] =~= Seq::new(
                    row0.len(),
                    |x: int|
                        if x == col {
                            first
                        } else if col < x < c + 1 {
                            blank_cell(Tag::MultiWidthContinuation)
                        } else {
                            row0[x]
                        },
                ));
                c = c + 1;
            }
            assert(self.grid() =~= place(g1, c1, gv[i as int], style, tag, w as int));
            self.cursor_pos.col = next_x;
            i = i + 1;
        }
        true
    }
}

/// The grid with empty rows added at the bottom until it has `n` rows.
pub open spec fn pad_rows(g: Seq<Seq<CellView>>, n: int, width: int) -> Seq<Seq<CellView>> {
    if g.len() >= n {
        g
    } else {
        g + Seq::new((n - g.len()) as nat, |i: int| blank_row(width))
    }
}

/// The text of the spans among `spans` that fill clipboard slot `t`, one
/// after another.
pub open spec fn clip_gain(spans: Seq<TaggedSpan>, t: ClipboardTypes) -> Seq<char>
    decreases spans.len(),
{
    if spans.len() == 0 {
        Seq::empty()
    } else if span_clipboard(spans.last().tag) == Some(t) {
        clip_gain(spans.drop_last(), t) + spans.last().span.content@
    } else {
        clip_gain(spans.drop_last(), t)
    }
}

/// Drawing the spans `spans` from the `j`-th on (see `write_from`): stops
/// at the first span that does not fit. Gives whether all fitted, the
/// grid, the cursor, and how many spans were started.
pub open spec fn write_spans_from(
    g: Seq<Seq<CellView>>,
    cur: Coord,
    spans: Seq<TaggedSpan>,
    j: int,
    overwrite: bool,
    b: Bounds,
    width: int,
) -> (bool, Seq<Seq<CellView>>, Coord, int)
    decreases spans.len() - j,
{
    if j >= spans.len() || j < 0 {
        (true, g, cur, spans.len() as int)
    } else {
        let sp = spans[j];
        let r = write_from(
            g,
            cur,
            drawable(graphemes_of(sp.span.content@)),
            0,
            crate::style::patched(sp.span.style, sp.span.style),
            sp.tag,
            overwrite,
            b,
            width,
        );
        if !r.0 {
            (false, r.1, r.2, j + 1)
        } else {
            write_spans_from(r.1, r.2, spans, j + 1, overwrite, b, width)
        }
    }
}

impl Contents {
    /// Add empty rows at the bottom until there are `n`.
    fn ensure_rows(&mut self, n: usize)
        requires
            old(self).wf(),
        ensures
            final(self).wf(),
            final(self).grid() == pad_rows(old(self).grid(), n as int, old(self).width as int),
            final(self).buf.len() == if old(self).buf.len() >= n { old(self).buf.len() as int } else { n as int },
            final(self).width == old(self).width,
            final(self).cursor() == old(self).cursor(),
            final(self).same_extras(*old(self)),
    {
        let ghost g0 = self.grid();
        let ghost width = self.width as int;
        while self.buf.len() < n
            invariant
                self.wf(),
                self.width as int == width,
                self.buf.len() <= (if g0.len() >= n { g0.len() as int } else { n as int }),
                self.cursor() == old(self).cursor(),
                self.same_extras(*old(self)),
                g0 == old(self).grid(),
                g0.len() <= self.buf.len(),
                self.grid() == pad_rows(g0, self.buf.len() as int, width),
            decreases n - self.buf.len(),
        {
            let ghost before = self.grid();
            self.increase_buf_single_row();
            assert(pad_rows(g0, self.buf.len() as int, width) =~= before.push(blank_row(width)));
        }
        assert(pad_rows(g0, n as int, width) =~= pad_rows(g0, self.buf.len() as int, width));
    }

    /// Move to the start of the next row, adding it if needed.
    pub fn newline(&mut self)
        requires
            old(self).ready(),
            old(self).cursor().row < u16::MAX,
        ensures
            final(self).ready(),
            final(self).cursor() == (Coord { row: (old(self).cursor().row + 1) as u16, col: 0 }),
            final(self).grid() == pad_rows(old(self).grid(), old(self).cursor().row + 2, old(self).width as int),
            final(self).width == old(self).width,
            final(self).same_extras(*old(self)),
    {
        self.cursor_pos.row = self.cursor_pos.row + 1;
        self.cursor_pos.col = 0;
        self.ensure_rows(self.cursor_pos.row as usize + 1);
    }

    /// Put the cursor at column `col` of its row (at most the width).
    pub fn set_cursor_col(&mut self, col: u16)
        requires
            old(self).ready(),
        ensures
            final(self).ready(),
            final(self).cursor() == (Coord { row: old(self).cursor().row, col: if col < old(self).width { col } else { old(self).width } }),
            final(self).grid() == old(self).grid(),
            final(self).buf == old(self).buf,
            final(self).width == old(self).width,
            final(self).same_extras(*old(self)),
    {
        self.cursor_pos.col = if col < self.width { col } else { self.width };
    }

    /// Put the cursor at the start of the last row (the first when empty).
    pub fn move_to_final_line(&mut self)
        requires
            old(self).ready(),
        ensures
            final(self).ready(),
            final(self).cursor() == (Coord {
                row: (if old(self).buf.len() == 0 { 0 } else { old(self).buf.len() - 1 }) as u16,
                col: 0,
            }),
            final(self).buf == old(self).buf,
            final(self).width == old(self).width,
            final(self).same_extras(*old(self)),
    {
        let last = if self.buf.len() == 0 { 0 } else { self.buf.len() - 1 };
        self.cursor_pos.row = last as u16;
        self.cursor_pos.col = 0;
        assert(last <= u16::MAX ==> last as u16 == last);
    }

    /// Put the cursor at `row` (at most the last row) and `col` (at most
    /// the width).
    pub fn move_cursor_to(&mut self, row: u16, col: u16)
        requires
            old(self).ready(),
        ensures
            final(self).ready(),
            final(self).cursor() == (Coord {
                row: if row < ((if old(self).buf.len() == 0 { 0 } else { old(self).buf.len() - 1 }) as u16) {
                    row
                } else {
                    (if old(self).buf.len() == 0 { 0 } else { old(self).buf.len() - 1 }) as u16
                },
                col: if col < old(self).width { col } else { old(self).width },
            }),
            final(self).buf == old(self).buf,
            final(self).width == old(self).width,
            final(self).same_extras(*old(self)),
    {
        let last = (if self.buf.len() == 0 { 0 } else { self.buf.len() - 1 }) as u16;
        self.cursor_pos.row = if row < last { row } else { last };
        self.cursor_pos.col = if col < self.width { col } else { self.width };
        assert(self.buf.len() <= u16::MAX + 1 ==> last as int == (if self.buf.len() == 0 { 0 } else { self.buf.len() - 1 }));
    }

    /// Draw a span from the cursor, overwriting what is there.
    pub fn write_tagged_span(&mut self, tagged_span: &TaggedSpan) -> (ok: bool)
        requires
            old(self).ready(),
        ensures
            final(self).ready(),
            final(self).width == old(self).width,
            final(self).buf.len() >= old(self).buf.len(),
            (ok, final(self).grid(), final(self).cursor()) == write_from(
                old(self).grid(),
                old(self).cursor(),
                drawable(graphemes_of(tagged_span.span.content@)),
                0,
                crate::style::patched(tagged_span.span.style, tagged_span.span.style),
                tagged_span.tag,
                true,
                bounds_of(None, old(self).width as int),
                old(self).width as int,
            ),
            forall|t: ClipboardTypes|
                clipboard_of(final(self).clipboards@, t) == clipboard_of(old(self).clipboards@, t) + clip_gain(
                    seq![*tagged_span],
                    t,
                ),
    {
        let ok = self.write_span_internal(tagged_span, true, None);
        proof {
            lemma_clip_gain_one(*tagged_span);
        }
        ok
    }

    /// Draw a span from the cursor on blank cells only, skipping filled ones.
    pub fn write_tagged_span_dont_overwrite(&mut self, tagged_span: &TaggedSpan) -> (ok: bool)
        requires
            old(self).ready(),
        ensures
            final(self).ready(),
            final(self).width == old(self).width,
            final(self).buf.len() >= old(self).buf.len(),
            (ok, final(self).grid(), final(self).cursor()) == write_from(
                old(self).grid(),
                old(self).cursor(),
                drawable(graphemes_of(tagged_span.span.content@)),
                0,
                crate::style::patched(tagged_span.span.style, tagged_span.span.style),
                tagged_span.tag,
                false,
                bounds_of(None, old(self).width as int),
                old(self).width as int,
            ),
            forall|t: ClipboardTypes|
                clipboard_of(final(self).clipboards@, t) == clipboard_of(old(self).clipboards@, t) + clip_gain(
                    seq![*tagged_span],
                    t,
                ),
    {
        let ok = self.write_span_internal(tagged_span, false, None);
        proof {
            lemma_clip_gain_one(*tagged_span);
        }
        ok
    }

    /// Draw a span from the cursor within `area`, overwriting what is there.
    pub fn write_tagged_span_area(&mut self, tagged_span: &TaggedSpan, area: Rect) -> (ok: bool)
        requires
            old(self).ready(),
            old(self).area_ok(Some(area)),
        ensures
            final(self).ready(),
            final(self).width == old(self).width,
            final(self).buf.len() >= old(self).buf.len(),
            (ok, final(self).grid(), final(self).cursor()) == write_from(
                old(self).grid(),
                old(self).cursor(),
                drawable(graphemes_of(tagged_span.span.content@)),
                0,
                crate::style::patched(tagged_span.span.style, tagged_span.span.style),
                tagged_span.tag,
                true,
                bounds_of(Some(area), old(self).width as int),
                old(self).width as int,
            ),
            forall|t: ClipboardTypes|
                clipboard_of(final(self).clipboards@, t) == clipboard_of(old(self).clipboards@, t) + clip_gain(
                    seq![*tagged_span],
                    t,
                ),
    {
        let ok = self.write_span_internal(tagged_span, true, Some(area));
        proof {
            lemma_clip_gain_one(*tagged_span);
        }
        ok
    }

    /// Draw the spans of a line one after another (overwriting), within
    /// `area` when given; stops at the first span that does not fit.
    fn write_spans(&mut self, spans: &Vec<TaggedSpan>, area: Option<Rect>) -> (ok: bool)
        requires
            old(self).ready(),
            old(self).area_ok(area),
        ensures
            final(self).ready(),
            final(self).width == old(self).width,
            final(self).buf.len() >= old(self).buf.len(),
            ({
                let r = write_spans_from(
                    old(self).grid(),
                    old(self).cursor(),
                    spans@,
                    0,
                    true,
                    bounds_of(area, old(self).width as int),
                    old(self).width as int,
                );
                &&& ok == r.0
                &&& final(self).grid() == r.1
                &&& final(self).cursor() == r.2
                &&& forall|t: ClipboardTypes|
                    clipboard_of(final(self).clipboards@, t) == clipboard_of(old(self).clipboards@, t) + clip_gain(
                        spans@.take(r.3),
                        t,
                    )
            }),
    {
        let ghost width0 = self.width as int;
        let ghost b = bounds_of(area, width0);
        let ghost target = write_spans_from(self.grid(), self.cursor(), spans@, 0, true, b, width0);
        let mut j: usize = 0;
        assert(spans@.take(0) =~= Seq::<TaggedSpan>::empty());
        while j < spans.len()
            invariant
                j <= spans.len(),
                self.ready(),
                self.area_ok(area),
                self.width as int == width0,
                self.buf.len() >= old(self).buf.len(),
                width0 == old(self).width as int,
                b == bounds_of(area, width0),
                target == write_spans_from(old(self).grid(), old(self).cursor(), spans@, 0, true, b, width0),
                write_spans_from(self.grid(), self.cursor(), spans@, j as int, true, b, width0) == target,
                forall|t: ClipboardTypes|
                    clipboard_of(self.clipboards@, t) == clipboard_of(old(self).clipboards@, t) + clip_gain(
                        spans@.take(j as int),
                        t,
                    ),
            decreases spans.len() - j,
        {
            let ghost clips = self.clipboards@;
            let ok = self.write_span_internal(&spans[j], true, area);
            proof {
                assert(spans@.take(j + 1).drop_last() =~= spans@.take(j as int));
                assert(spans@.take(j + 1).last() == spans@[j as int]);
                assert forall|t: ClipboardTypes|
                    clipboard_of(self.clipboards@, t) == clipboard_of(old(self).clipboards@, t) + clip_gain(
                        spans@.take(j + 1),
                        t,
                    ) by {
                    let base = clipboard_of(old(self).clipboards@, t);
                    let before = clip_gain(spans@.take(j as int), t);
                    if span_clipboard(spans@[j as int].tag) == Some(t) {
                        assert(base + before + spans@[j as int].span.content@ =~= base + (before
                            + spans@[j as int].span.content@));
                    } else {
                        assert(clipboard_of(self.clipboards@, t) == clipboard_of(clips, t));
                    }
                }
            }
            if !ok {
                return false;
            }
            j = j + 1;
        }
        assert(spans@.take(spans.len() as int) =~= spans@);
        true
    }

    /// Draw a line from the cursor (overwriting), then move to the next row
    /// when `insert_new_line` holds; stops at the first span that does not
    /// fit, returning false.
    pub fn write_tagged_line(&mut self, line: &TaggedLine, insert_new_line: bool) -> (ok: bool)
        requires
            old(self).ready(),
            insert_new_line ==> write_spans_from(
                old(self).grid(),
                old(self).cursor(),
                line.spans@,
                0,
                true,
                bounds_of(None, old(self).width as int),
                old(self).width as int,
            ).2.row < u16::MAX,
        ensures
            final(self).ready(),
            final(self).width == old(self).width,
            ({
                let r = write_spans_from(
                    old(self).grid(),
                    old(self).cursor(),
                    line.spans@,
                    0,
                    true,
                    bounds_of(None, old(self).width as int),
                    old(self).width as int,
                );
                &&& ok == r.0
                &&& (!r.0 || !insert_new_line) ==> final(self).grid() == r.1 && final(self).cursor() == r.2
                &&& (r.0 && insert_new_line) ==> final(self).grid() == pad_rows(r.1, r.2.row + 2, old(self).width as int)
                    && final(self).cursor() == (Coord { row: (r.2.row + 1) as u16, col: 0 })
                &&& forall|t: ClipboardTypes|
                    clipboard_of(final(self).clipboards@, t) == clipboard_of(old(self).clipboards@, t) + clip_gain(
                        line.spans@.take(r.3),
                        t,
                    )
            }),
    {
        if !self.write_spans(&line.spans, None) {
            return false;
        }
        if insert_new_line {
            self.newline();
        }
        true
    }

    /// Draw a line from the cursor within `area` (overwriting); stops at the
    /// first span that does not fit, returning false.
    pub fn write_tagged_line_area(&mut self, line: &TaggedLine, area: Rect) -> (ok: bool)
        requires
            old(self).ready(),
            old(self).area_ok(Some(area)),
        ensures
            final(self).ready(),
            final(self).width == old(self).width,
            ({
                let r = write_spans_from(
                    old(self).grid(),
                    old(self).cursor(),
                    line.spans@,
                    0,
                    true,
                    bounds_of(Some(area), old(self).width as int),
                    old(self).width as int,
                );
                &&& ok == r.0
                &&& final(self).grid() == r.1
                &&& final(self).cursor() == r.2
                &&& forall|t: ClipboardTypes|
                    clipboard_of(final(self).clipboards@, t) == clipboard_of(old(self).clipboards@, t) + clip_gain(
                        line.spans@.take(r.3),
                        t,
                    )
            }),
    {
        self.write_spans(&line.spans, Some(area))
    }
}

/// The clipboard gain of a single span.
proof fn lemma_clip_gain_one(sp: TaggedSpan)
    ensures
        forall|t: ClipboardTypes| span_clipboard(sp.tag) == Some(t) ==> clip_gain(seq![sp], t) == sp.span.content@,
        forall|t: ClipboardTypes| span_clipboard(sp.tag) != Some(t) ==> clip_gain(seq![sp], t) == Seq::<char>::empty(),
{
    let one = seq![sp];
    assert(one.drop_last() =~= Seq::<TaggedSpan>::empty());
    assert(one.last() == sp);
    assert(Seq::<char>::empty() + sp.span.content@ =~= sp.span.content@);
    assert forall|t: ClipboardTypes| #[trigger] clip_gain(one, t) == (if span_clipboard(sp.tag) == Some(t) {
        sp.span.content@
    } else {
        Seq::<char>::empty()
    }) by {
        assert(clip_gain(one.drop_last(), t) == Seq::<char>::empty());
    }
}

/// The first column of the wide grapheme covering column `col` of a row:
/// from `col`, back over continuation cells (not past the first column).
pub open spec fn covering_start(row: Seq<CellView>, col: int) -> int
    decreases col,
{
    if col > 0 && row[col].5 == Tag::MultiWidthContinuation {
        covering_start(row, col - 1)
    } else {
        col
    }
}

/// The last column of the grapheme starting at `start`: forward over the
/// continuation cells after it (within `width` columns).
pub open spec fn covering_end(row: Seq<CellView>, start: int, width: int) -> int
    decreases width - start,
{
    if start + 1 < width && row[start + 1].5 == Tag::MultiWidthContinuation {
        covering_end(row, start + 1, width)
    } else {
        start
    }
}

/// A row with the cells `from..=to` emptied and tagged `Blank`.
pub open spec fn cleared(row: Seq<CellView>, from: int, to: int) -> Seq<CellView> {
    Seq::new(row.len(), |c: int| if from <= c <= to { blank_cell(Tag::Blank) } else { row[c] })
}

/// Display width of a span's text as a `u16`.
pub open spec fn span_cols(sp: TaggedSpan) -> int {
    (display_width(sp.span.content@) as u16) as int
}

/// Sum of the widths of the spans of a line.
pub open spec fn line_cols(spans: Seq<TaggedSpan>) -> int
    decreases spans.len(),
{
    if spans.len() == 0 {
        0
    } else {
        line_cols(spans.drop_last()) + span_cols(spans.last())
    }
}

impl TaggedLine {
    /// Total display width of the spans, in columns.
    pub fn width(&self) -> (w: u16)
        requires
            line_cols(self.spans@) <= u16::MAX,
        ensures
            w == line_cols(self.spans@),
    {
        let mut total: u16 = 0;
        let mut i: usize = 0;
        while i < self.spans.len()
            invariant
                i <= self.spans.len(),
                line_cols(self.spans@) <= u16::MAX,
                total == line_cols(self.spans@.take(i as int)),
            decreases self.spans.len() - i,
        {
            assert(self.spans@.take(i + 1).drop_last() =~= self.spans@.take(i as int));
            proof {
                lemma_line_cols_prefix(self.spans@, i + 1);
            }
            let w = chars_display_width(&chars_of(self.spans[i].span.content.as_str())) as u16;
            total = total + w;
            i = i + 1;
        }
        assert(self.spans@.take(self.spans.len() as int) =~= self.spans@);
        total
    }
}

proof fn lemma_line_cols_prefix(spans: Seq<TaggedSpan>, k: int)
    requires
        0 <= k <= spans.len(),
    ensures
        line_cols(spans.take(k)) <= line_cols(spans),
    decreases spans.len() - k,
{
    if k < spans.len() {
        lemma_line_cols_prefix(spans, k + 1);
        assert(spans.take(k + 1).drop_last() =~= spans.take(k));
    } else {
        assert(spans.take(k) =~= spans);
    }
}

/// A text of `n` spaces.
pub open spec fn spaces(n: nat) -> Seq<char> {
    Seq::new(n, |i: int| ' ')
}

impl Contents {
    /// Fill the rest of the cursor's row with spaces tagged `tag` (a span of
    /// that many spaces, drawn as `write_tagged_span` draws).
    pub fn fill_line(&mut self, tag: Tag)
        requires
            old(self).ready(),
        ensures
            final(self).ready(),
            final(self).width == old(self).width,
            old(self).cursor().col >= old(self).width ==> final(self).grid() == old(self).grid() && final(self).cursor()
                == old(self).cursor(),
            old(self).cursor().col < old(self).width ==> ({
                let r = write_from(
                    old(self).grid(),
                    old(self).cursor(),
                    drawable(graphemes_of(spaces((old(self).width - old(self).cursor().col) as nat))),
                    0,
                    crate::style::patched(crate::style::plain_style(), crate::style::plain_style()),
                    SpanTag::Constant(tag),
                    true,
                    bounds_of(None, old(self).width as int),
                    old(self).width as int,
                );
                final(self).grid() == r.1 && final(self).cursor() == r.2
            }),
    {
        if self.cursor_pos.col < self.width {
            let remaining = self.width - self.cursor_pos.col;
            let mut v: Vec<char> = Vec::new();
            let mut i: u16 = 0;
            while i < remaining
                invariant
                    i <= remaining,
                    v@ == spaces(i as nat),
                decreases remaining - i,
            {
                v.push(' ');
                assert(v@ =~= spaces((i + 1) as nat));
                i = i + 1;
            }
            let span = StyledSpan { content: string_of(&v), style: TextStyle::new() };
            self.write_tagged_span(&TaggedSpan::new(span, tag));
        }
    }

    /// Empty the wide grapheme covering `row`, `col` (and any cells it
    /// covers) and draw `symbol` in its place with `style` and `tag`, leaving
    /// the cursor where it was; nothing happens outside the grid.
    pub fn overwrite_with_char(&mut self, row: usize, col: usize, symbol: &str, style: TextStyle, tag: Tag)
        requires
            old(self).ready(),
        ensures
            final(self).ready(),
            final(self).width == old(self).width,
            final(self).cursor() == old(self).cursor(),
            (row >= old(self).buf.len() || col >= old(self).width) ==> final(self).grid() == old(self).grid(),
            (row < old(self).buf.len() && col < old(self).width) ==> ({
                let r0 = old(self).grid()[row as int];
                let start = covering_start(r0, col as int);
                let end = covering_end(r0, start, old(self).width as int);
                let g1 = old(self).grid().update(row as int, cleared(r0, start, end));
                final(self).grid() == write_from(
                    g1,
                    Coord { row: row as u16, col: start as u16 },
                    drawable(graphemes_of(symbol@)),
                    0,
                    crate::style::patched(style, style),
                    SpanTag::Constant(tag),
                    true,
                    bounds_of(None, old(self).width as int),
                    old(self).width as int,
                ).1
            }),
    {
        if row >= self.buf.len() {
            return;
        }
        let width = self.width as usize;
        if col >= width {
            return;
        }
        let ghost r0 = self.grid()[row as int];
        let mut start_col = col;
        if self.buf[row][start_col].tag == Tag::MultiWidthContinuation {
            while start_col > 0 && self.buf[row][start_col].tag == Tag::MultiWidthContinuation
                invariant
                    self.wf(),
                    row < self.buf.len(),
                    width == self.width,
                    start_col <= col < width,
                    r0 == self.grid()[row as int],
                    covering_start(r0, start_col as int) == covering_start(r0, col as int),
                decreases start_col,
            {
                assert(r0[start_col as int] == cell_view(self.buf@[row as int]@[start_col as int]));
                start_col = start_col - 1;
            }
        }
        assert(r0[start_col as int] == cell_view(self.buf@[row as int]@[start_col as int]));
        assert(covering_start(r0, start_col as int) == start_col);
        let mut end_col = start_col;
        while end_col + 1 < width && self.buf[row][end_col + 1].tag == Tag::MultiWidthContinuation
            invariant
                self.wf(),
                row < self.buf.len(),
                width == self.width,
                start_col <= end_col < width,
                r0 == self.grid()[row as int],
                covering_end(r0, end_col as int, width as int) == covering_end(r0, start_col as int, width as int),
            decreases width - end_col,
        {
            assert(r0[end_col + 1] == cell_view(self.buf@[row as int]@[end_col + 1]));
            end_col = end_col + 1;
        }
        if end_col + 1 < width {
            assert(r0[end_col + 1] == cell_view(self.buf@[row as int]@[end_col + 1]));
        }
        assert(covering_end(r0, end_col as int, width as int) == end_col);
        let ghost g0 = self.grid();
        let ghost c0 = self.cursor();
        let mut c = start_col;
        assert(Seq::new(r0.len(), |x: int| if start_col <= x < c { blank_cell(Tag::Blank) } else { r0[x] }) =~= r0);
        assert(g0.update(row as int, r0) =~= g0);
        while c <= end_col
            invariant
                self.ready(),
                self.cursor() == c0,
                row < self.buf.len(),
                width == self.width,
                start_col <= c <= end_col + 1,
                end_col < width,
                g0.len() == self.buf.len(),
                r0 == g0[row as int],
                r0.len() == width,
                self.grid() == g0.update(row as int, Seq::new(r0.len(), |x: int| if start_col <= x < c { blank_cell(Tag::Blank) } else { r0[x] })),
            decreases end_col + 1 - c,
        {
            self.set_cell(row, c, TaggedCell::blank());
            assert(self.grid()[row as int] =~= Seq::new(r0.len(), |x: int| if start_col <= x < c + 1 { blank_cell(Tag::Blank) } else { r0[x] }));
            assert(self.grid() =~= g0.update(row as int, Seq::new(r0.len(), |x: int| if start_col <= x < c + 1 { blank_cell(Tag::Blank) } else { r0[x] })));
            c = c + 1;
        }
        assert(Seq::new(r0.len(), |x: int| if start_col <= x < c { blank_cell(Tag::Blank) } else { r0[x] }) =~= cleared(r0, start_col as int, end_col as int));
        let old_cursor = self.cursor_pos;
        self.cursor_pos = Coord::new(row as u16, start_col as u16);
        let mut text = chars_of(symbol);
        let span = TaggedSpan::new(StyledSpan { content: string_of(&text), style }, tag);
        assert(row <= u16::MAX ==> row as u16 == row);
        self.write_span_internal(&span, true, None);
        self.cursor_pos = old_cursor;
    }
}

/// The character drawn at `x`, `y` of the frame of `area`: rounded corners,
/// horizontal and vertical lines, a space inside; doubled lines when
/// selected.
pub open spec fn frame_char(x: int, y: int, area: Rect, is_selected: bool) -> char {
    let left = area.x as int;
    let right = sat_add(area.x, area.width);
    let top = area.y as int;
    let bottom = sat_add(area.y, area.height);
    let c = if x == left && y == top {
        '╭'
    } else if x == right - 1 && y == top {
        '╮'
    } else if x == left && y == bottom - 1 {
        '╰'
    } else if x == right - 1 && y == bottom - 1 {
        '╯'
    } else if y == bottom - 1 || y == top {
        '─'
    } else if x == left || x == right - 1 {
        '│'
    } else {
        ' '
    };
    if !is_selected {
        c
    } else if c == '╭' {
        '╔'
    } else if c == '╮' {
        '╗'
    } else if c == '╰' {
        '╚'
    } else if c == '╯' {
        '╝'
    } else if c == '─' {
        '═'
    } else if c == '│' {
        '║'
    } else {
        c
    }
}

/// Whether `r`, `c` lies in `area` (using its saturating edges).
pub open spec fn in_area(area: Rect, r: int, c: int) -> bool {
    area.y <= r < sat_add(area.y, area.height) && area.x <= c < sat_add(area.x, area.width)
}

/// The grid with the cells of `area` that exist changed by `f`.
pub open spec fn map_area(g: Seq<Seq<CellView>>, area: Rect, f: spec_fn(int, int, CellView) -> CellView) -> Seq<Seq<CellView>> {
    Seq::new(g.len(), |r: int| Seq::new(g[r].len(), |c: int| if in_area(area, r, c) { f(r, c, g[r][c]) } else { g[r][c] }))
}

/// What an area operation does to each cell of the area.
#[derive(Clone, Copy)]
pub enum AreaChange {
    /// Set the tag.
    SetTag(Tag),
    /// Merge a style into the cell.
    MergeStyle(TextStyle),
    /// Draw the block frame character of `area` (doubled when selected)
    /// with a style merged in, and set the tag.
    Block(Rect, bool, TextStyle, Tag),
    /// On the frame of `area` only: empty the cell, then draw the frame
    /// character (doubled when selected) with a style, and set the tag.
    Border(Rect, bool, TextStyle, Tag),
}

/// Whether `r`, `c` is on the frame of `area`.
pub open spec fn on_frame(area: Rect, r: int, c: int) -> bool {
    r == area.y || r == sat_add(area.y, area.height) - 1 || c == area.x || c == sat_add(area.x, area.width) - 1
}

/// The cell an area change makes of cell `cv` at `r`, `c`.
pub open spec fn changed_cell(ch: AreaChange, r: int, c: int, cv: CellView) -> CellView {
    match ch {
        AreaChange::SetTag(t) => (cv.0, cv.1, cv.2, cv.3, cv.4, t),
        AreaChange::MergeStyle(st) => styled_cell(cv, st),
        AreaChange::Block(a, sel, st, t) => styled_cell((seq![frame_char(c, r, a, sel)], cv.1, cv.2, cv.3, cv.4, t), st),
        AreaChange::Border(a, sel, st, t) => if on_frame(a, r, c) {
            styled_cell((seq![frame_char(c, r, a, sel)], Colour::Reset, Colour::Reset, Colour::Reset, 0, t), st)
        } else {
            cv
        },
    }
}

/// An area change as a function of position and cell.
pub open spec fn area_change(ch: AreaChange) -> spec_fn(int, int, CellView) -> CellView {
    |r: int, c: int, cv: CellView| changed_cell(ch, r, c, cv)
}

/// The grid with the cells of `area` before row `y`, and those of row `y`
/// before column `x`, changed by `f`.
pub open spec fn area_done(g: Seq<Seq<CellView>>, area: Rect, f: spec_fn(int, int, CellView) -> CellView, y: int, x: int) -> Seq<Seq<CellView>> {
    Seq::new(
        g.len(),
        |r: int|
            Seq::new(
                g[r].len(),
                |c: int| if in_area(area, r, c) && (r < y || (r == y && c < x)) { f(r, c, g[r][c]) } else { g[r][c] },
            ),
    )
}

/// A copy of a tagged cell.
fn copy_cell(c: &TaggedCell) -> (r: TaggedCell)
    ensures
        cell_view(r) == cell_view(*c),
{
    TaggedCell {
        cell: Cell {
            symbol: c.cell.symbol.clone(),
            fg: c.cell.fg,
            bg: c.cell.bg,
            underline_color: c.cell.underline_color,
            modifier: c.cell.modifier,
        },
        tag: c.tag,
    }
}

/// The text of one character.
fn char_string(c: char) -> (s: String)
    ensures
        s@ == seq![c],
{
    let mut v: Vec<char> = Vec::new();
    v.push(c);
    assert(v@ =~= seq![c]);
    string_of(&v)
}

/// The cell `ch` makes of `old` at row `y`, column `x`.
fn changed_cell_exec(old: &TaggedCell, ch: AreaChange, y: u16, x: u16) -> (r: TaggedCell)
    ensures
        cell_view(r) == changed_cell(ch, y as int, x as int, cell_view(*old)),
{
    let mut cell = copy_cell(old);
    match ch {
        AreaChange::SetTag(t) => {
            cell.tag = t;
        },
        AreaChange::MergeStyle(st) => {
            let sym = cell.cell.symbol.clone();
            let t0 = cell.tag;
            cell.update(sym.as_str(), st, t0);
        },
        AreaChange::Block(a, sel, st, t) => {
            let sym = char_string(Contents::get_char(x, y, a, sel));
            cell.update(sym.as_str(), st, t);
        },
        AreaChange::Border(a, sel, st, t) => {
            let top = a.top() as u32;
            let bottom = a.bottom() as u32;
            let left = a.left() as u32;
            let right = a.right() as u32;
            let yy = y as u32;
            let xx = x as u32;
            if yy == top || yy + 1 == bottom || xx == left || xx + 1 == right {
                let sym = char_string(Contents::get_char(x, y, a, sel));
                cell = TaggedCell { cell: Cell::empty(), tag: t };
                cell.update(sym.as_str(), st, t);
            }
        },
    }
    cell
}

proof fn lemma_area_done_start(g: Seq<Seq<CellView>>, area: Rect, f: spec_fn(int, int, CellView) -> CellView)
    ensures
        area_done(g, area, f, area.y as int, area.x as int) == g,
{
    let d = area_done(g, area, f, area.y as int, area.x as int);
    assert forall|r: int| 0 <= r < g.len() implies d[r] =~= g[r] by {}
    assert(d =~= g);
}

proof fn lemma_area_done_untouched(g: Seq<Seq<CellView>>, area: Rect, f: spec_fn(int, int, CellView) -> CellView, y: int, x: int)
    requires
        0 <= y < g.len(),
        0 <= x < g[y].len(),
    ensures
        area_done(g, area, f, y, x)[y][x] == g[y][x],
        area_done(g, area, f, y, x)[y].len() == g[y].len(),
{
}

proof fn lemma_area_done_step(g: Seq<Seq<CellView>>, area: Rect, f: spec_fn(int, int, CellView) -> CellView, y: int, x: int)
    requires
        0 <= y < g.len(),
        0 <= x < g[y].len(),
        in_area(area, y, x),
    ensures
        area_done(g, area, f, y, x).update(y, area_done(g, area, f, y, x)[y].update(x, f(y, x, g[y][x]))) == area_done(
            g,
            area,
            f,
            y,
            x + 1,
        ),
{
    let a = area_done(g, area, f, y, x);
    let b = area_done(g, area, f, y, x + 1);
    let u = a.update(y, a[y].update(x, f(y, x, g[y][x])));
    assert forall|r: int| 0 <= r < g.len() implies u[r] =~= b[r] by {}
    assert(u =~= b);
}

proof fn lemma_area_done_skip(g: Seq<Seq<CellView>>, area: Rect, f: spec_fn(int, int, CellView) -> CellView, y: int, x: int)
    requires
        0 <= y < g.len(),
        x >= g[y].len(),
    ensures
        area_done(g, area, f, y, x) == area_done(g, area, f, y, x + 1),
{
    let a = area_done(g, area, f, y, x);
    let b = area_done(g, area, f, y, x + 1);
    assert forall|r: int| 0 <= r < g.len() implies a[r] =~= b[r] by {}
    assert(a =~= b);
}

proof fn lemma_area_done_row(g: Seq<Seq<CellView>>, area: Rect, f: spec_fn(int, int, CellView) -> CellView, y: int)
    requires
        area.y <= y < sat_add(area.y, area.height),
    ensures
        area_done(g, area, f, y, sat_add(area.x, area.width)) == area_done(g, area, f, y + 1, area.x as int),
{
    let a = area_done(g, area, f, y, sat_add(area.x, area.width));
    let b = area_done(g, area, f, y + 1, area.x as int);
    assert forall|r: int| 0 <= r < g.len() implies a[r] =~= b[r] by {}
    assert(a =~= b);
}

proof fn lemma_area_done_end(g: Seq<Seq<CellView>>, area: Rect, f: spec_fn(int, int, CellView) -> CellView, y: int)
    requires
        y >= sat_add(area.y, area.height),
    ensures
        area_done(g, area, f, y, area.x as int) == map_area(g, area, f),
{
    let a = area_done(g, area, f, y, area.x as int);
    let b = map_area(g, area, f);
    assert forall|r: int| 0 <= r < g.len() implies a[r] =~= b[r] by {}
    assert(a =~= b);
}

impl Contents {
    /// The frame character for `x`, `y` of `area` (see `frame_char`).
    pub fn get_char(x: u16, y: u16, area: Rect, is_selected: bool) -> (c: char)
        ensures
            c == frame_char(x as int, y as int, area, is_selected),
    {
        let right = area.right() as i32;
        let bottom = area.bottom() as i32;
        let xi = x as i32;
        let yi = y as i32;
        let left = area.left() as i32;
        let top = area.top() as i32;
        let c = if xi == left && yi == top {
            '╭'
        } else if xi == right - 1 && yi == top {
            '╮'
        } else if xi == left && yi == bottom - 1 {
            '╰'
        } else if xi == right - 1 && yi == bottom - 1 {
            '╯'
        } else if yi == bottom - 1 || yi == top {
            '─'
        } else if xi == left || xi == right - 1 {
            '│'
        } else {
            ' '
        };
        if !is_selected {
            c
        } else if c == '╭' {
            '╔'
        } else if c == '╮' {
            '╗'
        } else if c == '╰' {
            '╚'
        } else if c == '╯' {
            '╝'
        } else if c == '─' {
            '═'
        } else if c == '│' {
            '║'
        } else {
            c
        }
    }

    /// Change the cells of `area` that exist by `ch`, after adding rows down
    /// to the bottom of `area`; shared by the area operations below.
    fn change_area(&mut self, area: Rect, ch: AreaChange)
        requires
            old(self).wf(),
        ensures
            final(self).wf(),
            final(self).width == old(self).width,
            final(self).cursor() == old(self).cursor(),
            final(self).same_extras(*old(self)),
            final(self).buf.len() >= old(self).buf.len(),
            final(self).grid() == map_area(
                pad_rows(old(self).grid(), sat_add(area.y, area.height), old(self).width as int),
                area,
                area_change(ch),
            ),
    {
        let bottom = area.bottom();
        let right = area.right();
        self.ensure_rows(bottom as usize);
        let ghost g0 = self.grid();
        let ghost f = area_change(ch);
        proof {
            lemma_area_done_start(g0, area, f);
        }
        let mut y = area.y;
        while y < bottom
            invariant
                self.wf(),
                self.width == old(self).width,
                self.cursor() == old(self).cursor(),
                self.same_extras(*old(self)),
                self.buf.len() == g0.len(),
                g0.len() >= bottom,
                g0.len() >= old(self).buf.len(),
                forall|r: int| 0 <= r < g0.len() ==> (#[trigger] g0[r]).len() == self.width,
                g0 == pad_rows(old(self).grid(), sat_add(area.y, area.height), old(self).width as int),
                f == area_change(ch),
                bottom == sat_add(area.y, area.height),
                right == sat_add(area.x, area.width),
                area.y <= y <= bottom,
                self.grid() == area_done(g0, area, f, y as int, area.x as int),
            decreases bottom - y,
        {
            let mut x = area.x;
            let yy = y as usize;
            while x < right
                invariant
                    self.wf(),
                    self.width == old(self).width,
                    self.cursor() == old(self).cursor(),
                    self.same_extras(*old(self)),
                    self.buf.len() == g0.len(),
                    forall|r: int| 0 <= r < g0.len() ==> (#[trigger] g0[r]).len() == self.width,
                    f == area_change(ch),
                    yy == y,
                    y < bottom,
                    bottom <= g0.len(),
                    area.y <= y,
                    right == sat_add(area.x, area.width),
                    bottom == sat_add(area.y, area.height),
                    area.x <= x <= right,
                    self.grid() == area_done(g0, area, f, y as int, x as int),
                decreases right - x,
            {
                let xx = x as usize;
                if xx < self.buf[yy].len() {
                    let ghost before = self.grid();
                    proof {
                        lemma_area_done_untouched(g0, area, f, y as int, x as int);
                    }
                    assert(before[yy as int][xx as int] == cell_view(self.buf@[yy as int]@[xx as int]));
                    let cell = changed_cell_exec(&self.buf[yy][xx], ch, y, x);
                    assert(cell_view(cell) == f(yy as int, xx as int, g0[yy as int][xx as int]));
                    self.set_cell(yy, xx, cell);
                    proof {
                        lemma_area_done_step(g0, area, f, y as int, x as int);
                    }
                } else {
                    proof {
                        lemma_area_done_skip(g0, area, f, y as int, x as int);
                    }
                }
                x = x + 1;
            }
            proof {
                lemma_area_done_row(g0, area, f, y as int);
            }
            y = y + 1;
        }
        proof {
            lemma_area_done_end(g0, area, f, y as int);
        }
    }

    /// Tag every cell of `area` that exists `tag`, adding rows down to the
    /// bottom of `area` first.
    pub fn tag_rect(&mut self, area: Rect, tag: Tag)
        requires
            old(self).ready(),
        ensures
            final(self).ready(),
            final(self).width == old(self).width,
            final(self).cursor() == old(self).cursor(),
            final(self).grid() == map_area(
                pad_rows(old(self).grid(), sat_add(area.y, area.height), old(self).width as int),
                area,
                area_change(AreaChange::SetTag(tag)),
            ),
    {
        self.change_area(area, AreaChange::SetTag(tag));
    }

    /// Merge `style` into every cell of `area` that exists, adding rows down
    /// to the bottom of `area` first.
    fn set_style(&mut self, area: Rect, style: TextStyle)
        requires
            old(self).ready(),
        ensures
            final(self).ready(),
            final(self).width == old(self).width,
            final(self).cursor() == old(self).cursor(),
            final(self).same_extras(*old(self)),
            final(self).grid() == map_area(
                pad_rows(old(self).grid(), sat_add(area.y, area.height), old(self).width as int),
                area,
                area_change(AreaChange::MergeStyle(style)),
            ),
    {
        self.change_area(area, AreaChange::MergeStyle(style));
    }

    /// Record where the terminal cursor is, merging `style` into its cell
    /// (adding rows down to it) when given.
    pub fn set_term_cursor_pos(&mut self, cursor: Coord, style: Option<TextStyle>)
        requires
            old(self).ready(),
        ensures
            final(self).ready(),
            final(self).width == old(self).width,
            final(self).cursor() == old(self).cursor(),
            final(self).term_cursor_pos == Some(cursor),
            style is None ==> final(self).grid() == old(self).grid(),
            style is Some ==> final(self).grid() == map_area(
                pad_rows(old(self).grid(), sat_add(cursor.row, 1), old(self).width as int),
                Rect { x: cursor.col, y: cursor.row, width: 1, height: 1 },
                area_change(AreaChange::MergeStyle(style->0)),
            ),
    {
        self.term_cursor_pos = Some(cursor);
        if let Some(st) = style {
            let area = Rect::new(cursor.col, cursor.row, 1, 1);
            self.set_style(area, st);
        }
    }

    /// Remove the rows `start_row..end_row` (the end cut to the height),
    /// moving the rows below up; nothing happens for an empty range or a
    /// start past the height.
    pub fn delete_rows(&mut self, start_row: u16, end_row: u16)
        requires
            old(self).wf(),
        ensures
            final(self).wf(),
            final(self).width == old(self).width,
            final(self).cursor() == old(self).cursor(),
            final(self).same_extras(*old(self)),
            (start_row >= end_row || start_row >= (old(self).buf.len() as u16)) ==> final(self).grid() == old(self).grid(),
            !(start_row >= end_row || start_row >= (old(self).buf.len() as u16)) ==> ({
                let end = if end_row < (old(self).buf.len() as u16) { end_row as int } else { (old(self).buf.len() as u16) as int };
                final(self).grid() == old(self).grid().subrange(0, start_row as int) + old(self).grid().subrange(
                    end,
                    old(self).grid().len() as int,
                )
            }),
    {
        let height = self.height();
        if start_row >= end_row || start_row >= height {
            return;
        }
        let end = if end_row < height { end_row } else { height };
        assert(self.buf.len() <= u16::MAX ==> height as int == self.buf.len());
        let ghost g0 = self.grid();
        let mut k: u16 = start_row;
        while k < end
            invariant
                self.wf(),
                self.width == old(self).width,
                self.cursor() == old(self).cursor(),
                self.same_extras(*old(self)),
                start_row <= k <= end,
                self.buf.len() == g0.len() - (k - start_row),
                end as int <= g0.len(),
                g0 == old(self).grid(),
                self.grid() == g0.subrange(0, start_row as int) + g0.subrange(k as int, g0.len() as int),
            decreases end - k,
        {
            let ghost before = self.buf@;
            let ghost gb = self.grid();
            self.buf.remove(start_row as usize);
            assert(self.buf@ == before.remove(start_row as int));
            assert(self.grid() =~= gb.remove(start_row as int));
            assert(gb.remove(start_row as int) =~= g0.subrange(0, start_row as int) + g0.subrange(k + 1, g0.len() as int));
            k = k + 1;
        }
    }
}

/// A sum of two `u16` values as `wrapping_add` gives it.
pub open spec fn wrap16(v: int) -> int {
    if v > u16::MAX {
        v - 65536
    } else {
        v
    }
}

/// The style of a block's frame and label in a button state.
pub open spec fn block_style(state: ButtonState) -> TextStyle {
    button_style(crate::style::plain_style(), state)
}

/// Writing a block's label centred in `area` (when it is narrower than the
/// area): the cursor goes to the label's column (at most the width) on the
/// middle row and the label is drawn as `write_tagged_span` draws it.
pub open spec fn block_label(
    g: Seq<Seq<CellView>>,
    cur: Coord,
    area: Rect,
    label: Seq<char>,
    tag: Tag,
    style: TextStyle,
    width: int,
) -> (Seq<Seq<CellView>>, Coord) {
    let lw = (display_width(label) as u16) as int;
    if lw < area.width {
        let lx = wrap16(area.x + (area.width - lw) / 2);
        let ly = wrap16(area.y + (area.height - 1) / 2) as u16;
        let c = Coord { row: ly, col: if lx < width { lx as u16 } else { width as u16 } };
        let w = write_from(
            g,
            c,
            drawable(graphemes_of(label)),
            0,
            crate::style::patched(style, style),
            SpanTag::Constant(tag),
            true,
            bounds_of(None, width),
            width,
        );
        (w.1, w.2)
    } else {
        (g, cur)
    }
}

/// The rows `area.y..y` of a block drawn: each row's frame cells, then the
/// label.
pub open spec fn block_rows(
    g: Seq<Seq<CellView>>,
    cur: Coord,
    area: Rect,
    label: Seq<char>,
    tag: Tag,
    state: ButtonState,
    width: int,
    y: int,
) -> (Seq<Seq<CellView>>, Coord)
    decreases y - area.y,
{
    if y <= area.y {
        (g, cur)
    } else {
        let prev = block_rows(g, cur, area, label, tag, state, width, y - 1);
        let sel = state != ButtonState::Normal;
        let g2 = map_area(
            prev.0,
            Rect { x: area.x, y: (y - 1) as u16, width: area.width, height: 1 },
            area_change(AreaChange::Block(area, sel, block_style(state), tag)),
        );
        block_label(g2, prev.1, area, label, tag, block_style(state), width)
    }
}

impl Contents {
    /// Draw a button-like block over `area`: a rounded frame (doubled when
    /// the button is hovered or pressed) in the button's style, tagged
    /// `tag`, with `label` centred on its middle row when it fits. Rows
    /// are added down to the bottom of the area. See `block_rows`.
    pub fn render_block(&mut self, area: Rect, label: &str, tag: Tag, state: ButtonState)
        requires
            old(self).ready(),
        ensures
            final(self).ready(),
            final(self).width == old(self).width,
            (final(self).grid(), final(self).cursor()) == block_rows(
                pad_rows(old(self).grid(), sat_add(area.y, area.height), old(self).width as int),
                old(self).cursor(),
                area,
                label@,
                tag,
                state,
                old(self).width as int,
                sat_add(area.y, area.height),
            ),
    {
        let bottom = area.bottom();
        self.ensure_rows(bottom as usize);
        let is_selected = match state {
            ButtonState::Normal => false,
            _ => true,
        };
        let style = Palette::apply_button_style(TextStyle::new(), state);
        let label_chars = chars_of(label);
        let label_width = chars_display_width(&label_chars) as u16;
        let ghost g0 = self.grid();
        let ghost c0 = self.cursor();
        let ghost width = self.width as int;
        let mut y = area.y;
        while y < bottom
            invariant
                self.ready(),
                self.width as int == width,
                width == old(self).width as int,
                g0 == pad_rows(old(self).grid(), sat_add(area.y, area.height), width),
                c0 == old(self).cursor(),
                bottom == sat_add(area.y, area.height),
                self.buf.len() >= bottom,
                area.y <= y <= bottom,
                is_selected == (state != ButtonState::Normal),
                style == block_style(state),
                label_chars@ == label@,
                label_width as int == (display_width(label@) as u16) as int,
                (self.grid(), self.cursor()) == block_rows(g0, c0, area, label@, tag, state, width, y as int),
            decreases bottom - y,
        {
            let row_area = Rect::new(area.x, y, area.width, 1);
            let ghost before = self.grid();
            self.change_area(row_area, AreaChange::Block(area, is_selected, style, tag));
            assert(pad_rows(before, sat_add(y, 1), width) == before);
            if label_width < area.width {
                let label_x = area.left().wrapping_add((area.width - label_width) / 2);
                let label_y = area.top().wrapping_add((area.height - 1) / 2);
                assert(label_x as int == wrap16(area.x + (area.width - label_width) / 2));
                assert(label_y as int == wrap16(area.y + (area.height - 1) / 2));
                self.set_cursor_col(label_x);
                self.cursor_pos.row = label_y;
                assert(label_y <= self.buf.len());
                let span = TaggedSpan::new(StyledSpan { content: string_of(&label_chars), style }, tag);
                self.write_tagged_span(&span);
            }
            y = y + 1;
        }
    }
}

/// `v - 1`, or 0 for 0 (`saturating_sub(1)`).
pub open spec fn sat_sub1(v: int) -> int {
    if v > 0 {
        v - 1
    } else {
        0
    }
}

/// Where `move_cursor_to(row, col)` puts the cursor on grid `g`.
pub open spec fn moved_to(g: Seq<Seq<CellView>>, row: int, col: int, width: int) -> Coord {
    let last = (if g.len() == 0 { 0 } else { g.len() - 1 }) as u16;
    Coord { row: if row < last { row as u16 } else { last }, col: if col < width { col as u16 } else { width as u16 } }
}

/// The column at which a connector from `cp` meets the top of `area`:
/// the cursor's column when it lies over the box, else one in from the
/// left edge (but left of the right edge).
pub open spec fn connector_col(area: Rect, cp: Coord) -> int {
    let box_left = area.x as int;
    let box_right = sat_sub1(sat_add(area.x, area.width));
    if box_left <= cp.col && cp.col <= box_right {
        cp.col as int
    } else {
        let a = wrap16(box_left + 1);
        let b = sat_sub1(box_right);
        if a < b {
            a
        } else {
            b
        }
    }
}

/// The junction drawn where the connector meets the box.
pub open spec fn join_char(area: Rect, col: int) -> char {
    if col == area.x {
        '├'
    } else if col == sat_sub1(sat_add(area.x, area.width)) {
        '┤'
    } else {
        '┴'
    }
}

/// Drawing one character `ch` with `style` and `tag` at `row`, `col` (as
/// `move_cursor_to` then `write_tagged_span` do).
pub open spec fn draw_char_at(
    g: Seq<Seq<CellView>>,
    row: int,
    col: int,
    ch: char,
    style: TextStyle,
    tag: Tag,
    width: int,
) -> (bool, Seq<Seq<CellView>>, Coord) {
    write_from(
        g,
        moved_to(g, row, col, width),
        drawable(graphemes_of(seq![ch])),
        0,
        crate::style::patched(style, style),
        SpanTag::Constant(tag),
        true,
        bounds_of(None, width),
        width,
    )
}

/// The vertical connector drawn on the rows `from..to` at `col`.
pub open spec fn connector_rows(g: Seq<Seq<CellView>>, from: int, to: int, col: int, style: TextStyle, tag: Tag, width: int) -> Seq<
    Seq<CellView>,
>
    decreases to - from,
{
    if from >= to {
        g
    } else {
        connector_rows(draw_char_at(g, from, col, '│', style, tag, width).1, from + 1, to, col, style, tag, width)
    }
}

/// A bordered box over `area` with an optional connector from a point
/// above it: the frame drawn, then the connector down to the box's top
/// row, then the junction on it.
pub open spec fn bordered(
    g: Seq<Seq<CellView>>,
    area: Rect,
    tag: Tag,
    style: TextStyle,
    is_selected: bool,
    connector_from: Option<Coord>,
    width: int,
) -> Seq<Seq<CellView>> {
    let framed = map_area(
        pad_rows(g, sat_add(area.y, area.height), width),
        area,
        area_change(AreaChange::Border(area, is_selected, style, tag)),
    );
    match connector_from {
        Some(cp) => if cp.row < area.y {
            let col = connector_col(area, cp);
            let from = if cp.row + 1 > u16::MAX { u16::MAX as int } else { cp.row + 1 };
            let down = connector_rows(framed, from, area.y as int, col, style, tag, width);
            draw_char_at(down, area.y as int, col, join_char(area, col), style, tag, width).1
        } else {
            framed
        },
        None => framed,
    }
}

impl Contents {
    /// Draw one character at `row`, `col` (moving the cursor there first).
    fn draw_char(&mut self, row: u16, col: u16, ch: char, style: TextStyle, tag: Tag)
        requires
            old(self).ready(),
        ensures
            final(self).ready(),
            final(self).width == old(self).width,
            final(self).buf.len() >= old(self).buf.len(),
            final(self).grid() == draw_char_at(old(self).grid(), row as int, col as int, ch, style, tag, old(self).width as int).1,
    {
        self.move_cursor_to(row, col);
        assert(self.cursor() == moved_to(old(self).grid(), row as int, col as int, old(self).width as int));
        let span = TaggedSpan::new(StyledSpan { content: char_string(ch), style }, tag);
        self.write_tagged_span(&span);
    }

    /// Draw the frame of `area` (see `frame_char`) in `style`, tagged
    /// `tag`, emptying each frame cell first; with `connector_from` above
    /// the box, also a vertical line from below it down to the box, ending
    /// in a junction on the top edge. The cursor stays where it was; a box
    /// narrower or lower than two cells draws nothing. See `bordered`.
    pub fn render_border(&mut self, area: Rect, tag: Tag, style: TextStyle, is_selected: bool, connector_from: Option<Coord>)
        requires
            old(self).ready(),
        ensures
            final(self).ready(),
            final(self).width == old(self).width,
            final(self).cursor() == old(self).cursor(),
            (area.width < 2 || area.height < 2) ==> final(self).grid() == old(self).grid(),
            !(area.width < 2 || area.height < 2) ==> final(self).grid() == bordered(
                old(self).grid(),
                area,
                tag,
                style,
                is_selected,
                connector_from,
                old(self).width as int,
            ),
    {
        if area.width < 2 || area.height < 2 {
            return;
        }
        let saved = self.cursor_pos;
        let ghost width = self.width as int;
        self.change_area(area, AreaChange::Border(area, is_selected, style, tag));
        if let Some(cp) = connector_from {
            if cp.row < area.y {
                let box_left = area.x;
                let box_right = area.right().saturating_sub(1);
                let col = if cp.col >= box_left && cp.col <= box_right {
                    cp.col
                } else {
                    let a = box_left.wrapping_add(1);
                    let b = box_right.saturating_sub(1);
                    if a < b {
                        a
                    } else {
                        b
                    }
                };
                assert(col as int == connector_col(area, cp));
                let join = if col == box_left {
                    '├'
                } else if col == box_right {
                    '┤'
                } else {
                    '┴'
                };
                let from = cp.row.saturating_add(1);
                let ghost framed = self.grid();
                let mut row = from;
                while row < area.y
                    invariant
                        self.ready(),
                        self.width as int == width,
                        from <= row,
                        row <= area.y || row == from,
                        connector_rows(framed, from as int, area.y as int, col as int, style, tag, width) == connector_rows(
                            self.grid(),
                            row as int,
                            area.y as int,
                            col as int,
                            style,
                            tag,
                            width,
                        ),
                        saved.row <= self.buf.len(),
                    decreases area.y - row,
                {
                    self.draw_char(row, col, '│', style, tag);
                    row = row + 1;
                }
                self.draw_char(area.y, col, join, style, tag);
            }
        }
        self.cursor_pos = saved;
    }
}

/// The drawable graphemes of the spans, one after another, each with its
/// span's drawing style.
pub open spec fn fill_graphemes_of(spans: Seq<TaggedSpan>) -> Seq<(Seq<char>, TextStyle)>
    decreases spans.len(),
{
    if spans.len() == 0 {
        Seq::empty()
    } else {
        let sp = spans.last();
        let st = crate::style::patched(sp.span.style, sp.span.style);
        fill_graphemes_of(spans.drop_last()) + drawable(graphemes_of(sp.span.content@)).map_values(
            |g: Seq<char>| (g, st),
        )
    }
}

/// The tags of all graphemes of the spans (drawable or not), one after
/// another.
pub open spec fn fill_tags_of(spans: Seq<TaggedSpan>) -> Seq<Tag>
    decreases spans.len(),
{
    if spans.len() == 0 {
        Seq::empty()
    } else {
        let sp = spans.last();
        fill_tags_of(spans.drop_last()) + Seq::new(
            graphemes_of(sp.span.content@).len(),
            |i: int| span_tag_at(sp.tag, i),
        )
    }
}

/// Whether some fill grapheme takes columns.
pub open spec fn has_width(f: Seq<(Seq<char>, TextStyle)>) -> bool {
    exists|i: int| 0 <= i < f.len() && grapheme_cols(f[i].0) > 0
}

/// The position after `p` among `n` in turn.
pub open spec fn next_pos(p: int, n: int) -> int {
    if p + 1 >= n {
        0
    } else {
        p + 1
    }
}

/// The fill drawn after the left part, one grapheme at a time in turn
/// from position `pg` (its tag in turn from position `pt`), until the next
/// one would pass `target`: a grapheme of no width is passed over (giving
/// up after a whole round of such), and the fill stops if drawing one did
/// not move the cursor right on its row.
pub open spec fn fill_from(
    g: Seq<Seq<CellView>>,
    cur: Coord,
    fill: Seq<(Seq<char>, TextStyle)>,
    tags: Seq<Tag>,
    pg: int,
    pt: int,
    skipped: int,
    target: int,
    width: int,
) -> (Seq<Seq<CellView>>, Coord)
    decreases (if cur.col > target { 0 } else { target - cur.col }), fill.len() - skipped,
{
    if !(0 <= pg < fill.len()) || !(0 <= pt < tags.len()) || skipped < 0 {
        (g, cur)
    } else {
        let gr = fill[pg];
        let w = grapheme_cols(gr.0);
        if w == 0 {
            if skipped >= fill.len() {
                (g, cur)
            } else {
                fill_from(g, cur, fill, tags, next_pos(pg, fill.len() as int), next_pos(pt, tags.len() as int), skipped + 1, target, width)
            }
        } else if cur.col + w > target {
            (g, cur)
        } else {
            let r = write_from(
                g,
                cur,
                drawable(graphemes_of(gr.0)),
                0,
                crate::style::patched(gr.1, gr.1),
                SpanTag::Constant(tags[pt]),
                true,
                bounds_of(None, width),
                width,
            );
            if r.2.row == cur.row && r.2.col > cur.col {
                fill_from(r.1, r.2, fill, tags, next_pos(pg, fill.len() as int), next_pos(pt, tags.len() as int), 0, target, width)
            } else {
                (r.1, r.2)
            }
        }
    }
}

/// The fill between the left part and the right part: the cursor just
/// moves to `target` when the fill has no width or is a single unstyled
/// space; otherwise the fill is drawn (see `fill_from`) and the cursor then
/// moves to `target` on its row.
pub open spec fn lr_fill(g: Seq<Seq<CellView>>, cur: Coord, fill: Seq<TaggedSpan>, target: int, width: int) -> (
    Seq<Seq<CellView>>,
    Coord,
) {
    let f = fill_graphemes_of(fill);
    let t = fill_tags_of(fill);
    if !has_width(f) || (f.len() == 1 && f[0].0 == seq![' '] && f[0].1 == crate::style::plain_style()) {
        (g, Coord { row: cur.row, col: target as u16 })
    } else {
        let r = fill_from(g, cur, f, t, 0, 0, 0, target, width);
        (r.0, Coord { row: r.1.row, col: target as u16 })
    }
}

/// A row with a left part, a fill and a right-aligned right part: the
/// left line is drawn; if it stayed on its row, the fill runs up to the
/// column where the right part starts (the width less the right part's
/// width); the right line is drawn when it has width; with
/// `leave_cursor_after_l_line` the cursor ends just after the left part.
pub open spec fn lr_justified(
    g: Seq<Seq<CellView>>,
    cur: Coord,
    l: Seq<TaggedSpan>,
    fill: Seq<TaggedSpan>,
    r: Seq<TaggedSpan>,
    leave: bool,
    width: int,
) -> (Seq<Seq<CellView>>, Coord) {
    let r_width = line_cols(r);
    let a = write_spans_from(g, cur, l, 0, true, bounds_of(None, width), width);
    let b = if a.2.row == cur.row {
        lr_fill(a.1, a.2, fill, if width > r_width { width - r_width } else { 0 }, width)
    } else {
        (a.1, a.2)
    };
    let c = if r_width > 0 {
        let w = write_spans_from(b.0, b.1, r, 0, true, bounds_of(None, width), width);
        (w.1, w.2)
    } else {
        b
    };
    if leave {
        (c.0, Coord { row: cur.row, col: a.2.col })
    } else {
        c
    }
}

/// The fill graphemes of the spans, with their styles.
fn collect_fill(spans: &Vec<TaggedSpan>) -> (r: (Vec<(Vec<char>, TextStyle)>, Vec<Tag>))
    ensures
        r.0@.map_values(|x: (Vec<char>, TextStyle)| (x.0@, x.1)) == fill_graphemes_of(spans@),
        r.1@ == fill_tags_of(spans@),
{
    let mut fill: Vec<(Vec<char>, TextStyle)> = Vec::new();
    let mut tags: Vec<Tag> = Vec::new();
    let mut k: usize = 0;
    while k < spans.len()
        invariant
            k <= spans.len(),
            fill@.map_values(|x: (Vec<char>, TextStyle)| (x.0@, x.1)) == fill_graphemes_of(spans@.take(k as int)),
            tags@ == fill_tags_of(spans@.take(k as int)),
        decreases spans.len() - k,
    {
        let sp = &spans[k];
        let st = sp.span.style.patch(sp.span.style);
        let d = drawable_graphemes(&sp.span.content);
        let ghost dv = d@.map_values(|x: Vec<char>| x@);
        let ghost base = fill@.map_values(|x: (Vec<char>, TextStyle)| (x.0@, x.1));
        let mut j: usize = 0;
        while j < d.len()
            invariant
                j <= d.len(),
                dv == d@.map_values(|x: Vec<char>| x@),
                fill@.map_values(|x: (Vec<char>, TextStyle)| (x.0@, x.1)) == base + dv.take(j as int).map_values(
                    |g: Seq<char>| (g, st),
                ),
            decreases d.len() - j,
        {
            let ghost before = fill@.map_values(|x: (Vec<char>, TextStyle)| (x.0@, x.1));
            fill.push((d[j].clone(), st));
            assert(fill@.map_values(|x: (Vec<char>, TextStyle)| (x.0@, x.1)) =~= before.push((d@[j as int]@, st)));
            assert(dv.take(j + 1).map_values(|g: Seq<char>| (g, st)) =~= dv.take(j as int).map_values(
                |g: Seq<char>| (g, st),
            ).push((dv[j as int], st)));
            j = j + 1;
        }
        assert(dv.take(d.len() as int) =~= dv);
        let all = graphemes_of_str(&sp.span.content);
        let ghost tbase = tags@;
        let mut i: usize = 0;
        while i < all.len()
            invariant
                i <= all.len(),
                all@.len() == graphemes_of(sp.span.content@).len(),
                tags@ == tbase + Seq::new(i as nat, |x: int| span_tag_at(sp.tag, x)),
            decreases all.len() - i,
        {
            tags.push(sp.tag.get(i));
            assert(tags@ =~= tbase + Seq::new((i + 1) as nat, |x: int| span_tag_at(sp.tag, x)));
            i = i + 1;
        }
        assert(spans@.take(k + 1).drop_last() =~= spans@.take(k as int));
        assert(spans@.take(k + 1).last() == *sp);
        k = k + 1;
    }
    assert(spans@.take(spans.len() as int) =~= spans@);
    (fill, tags)
}

impl Contents {
    /// Draw `l_line` from the cursor, then (if it stayed on the row) fill up
    /// to where `r_line` must start to end at the right edge, then draw
    /// `r_line` when it has width; with `leave_cursor_after_l_line` the
    /// cursor ends just after the left line. See `lr_justified`.
    pub fn write_tagged_line_lrjustified(&mut self, l_line: &TaggedLine, fill_line: &TaggedLine, r_line: &TaggedLine, leave_cursor_after_l_line: bool)
        requires
            old(self).ready(),
            line_cols(r_line.spans@) <= u16::MAX,
        ensures
            final(self).ready(),
            final(self).width == old(self).width,
            (final(self).grid(), final(self).cursor()) == lr_justified(
                old(self).grid(),
                old(self).cursor(),
                l_line.spans@,
                fill_line.spans@,
                r_line.spans@,
                leave_cursor_after_l_line,
                old(self).width as int,
            ),
    {
        let r_width = r_line.width();
        let starting_row = self.cursor_pos.row;
        let ghost width = self.width as int;
        self.write_spans(&l_line.spans, None);
        let cursor_after_l_line = self.cursor_pos.col;
        let ghost a_grid = self.grid();
        let ghost a_cur = self.cursor();
        if self.cursor_pos.row == starting_row {
            let target_col = if self.width > r_width { self.width - r_width } else { 0 };
            let (fill, tags) = collect_fill(&fill_line.spans);
            let ghost fv = fill@.map_values(|x: (Vec<char>, TextStyle)| (x.0@, x.1));
            let mut has_nonzero = false;
            let mut q: usize = 0;
            while q < fill.len()
                invariant
                    q <= fill.len(),
                    fv == fill@.map_values(|x: (Vec<char>, TextStyle)| (x.0@, x.1)),
                    has_nonzero == exists|i: int| 0 <= i < q && grapheme_cols(fv[i].0) > 0,
                decreases fill.len() - q,
            {
                let w = chars_display_width(&fill[q].0) as u16;
                assert(fv[q as int].0 == fill@[q as int].0@);
                if w > 0 {
                    has_nonzero = true;
                }
                q = q + 1;
            }
            let single_space = fill.len() == 1 && fill[0].0.len() == 1 && fill[0].0[0] == ' ' && fill[0].1 == TextStyle::new();
            proof {
                if fill.len() == 1 {
                    assert(fv[0].0 == fill@[0].0@);
                    if fill@[0].0@.len() == 1 {
                        assert(fill@[0].0@ =~= seq![fill@[0].0@[0]]);
                    }
                }
            }
            if has_nonzero && !single_space {
                let n = fill.len();
                let m = tags.len();
                let mut pg: usize = 0;
                let mut pt: usize = 0;
                let mut skipped: usize = 0;
                let ghost target = fill_from(a_grid, a_cur, fv, tags@, 0, 0, 0, target_col as int, width);
                let mut go = true;
                while go
                    invariant
                        self.ready(),
                        self.width as int == width,
                        self.buf.len() >= old(self).buf.len(),
                        n == fill.len(),
                        m == tags.len(),
                        fv == fill@.map_values(|x: (Vec<char>, TextStyle)| (x.0@, x.1)),
                        n > 0,
                        pg < n,
                        m == 0 || pt < m,
                        skipped <= n,
                        go ==> fill_from(self.grid(), self.cursor(), fv, tags@, pg as int, pt as int, skipped as int, target_col as int, width) == target,
                        !go ==> (self.grid(), self.cursor()) == target,
                    decreases (if go { 1int } else { 0int }), (if self.cursor().col > target_col { 0 } else { target_col - self.cursor().col }), n - skipped,
                {
                    if m == 0 {
                        go = false;
                    } else {
                        let w = chars_display_width(&fill[pg].0) as u16;
                        assert(fv[pg as int].0 == fill@[pg as int].0@);
                        if w == 0 {
                            if skipped >= n {
                                go = false;
                            } else {
                                skipped = skipped + 1;
                                pg = if pg + 1 >= n { 0 } else { pg + 1 };
                                pt = if pt + 1 >= m { 0 } else { pt + 1 };
                            }
                        } else if (self.cursor_pos.col as u32) + (w as u32) > (target_col as u32) {
                            go = false;
                        } else {
                            let row_before = self.cursor_pos.row;
                            let col_before = self.cursor_pos.col;
                            let span = TaggedSpan::new(
                                StyledSpan { content: string_of(&fill[pg].0), style: fill[pg].1 },
                                tags[pt],
                            );
                            self.write_tagged_span(&span);
                            if self.cursor_pos.row == row_before && self.cursor_pos.col > col_before {
                                skipped = 0;
                                pg = if pg + 1 >= n { 0 } else { pg + 1 };
                                pt = if pt + 1 >= m { 0 } else { pt + 1 };
                            } else {
                                go = false;
                            }
                        }
                    }
                }
            }
            self.cursor_pos.col = target_col;
        }
        if r_width > 0 {
            self.write_spans(&r_line.spans, None);
        }
        if leave_cursor_after_l_line {
            self.cursor_pos.row = starting_row;
            self.cursor_pos.col = cursor_after_l_line;
        }
    }
}

} // verus!
