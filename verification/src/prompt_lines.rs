//! The prompts of one command line: the left prompt lines, the right
//! prompt lines and the fill between them, each with the form it takes
//! once the command has been accepted, and how they are drawn at a given
//! time.

use crate::content_builder::TaggedLine;
use crate::content_utils::{spans_view, SpanView, StyledSpan};
use crate::prompt_manager::{animations_ok, format_prompt_line, prompt_line, tagged_views, time_count, ProcessedAnimation, RenderSegment};
use crate::prompt_manager::opt_str;
use crate::prompt_string::{
    dedup_cwd, dedup_cwd_segments, expand_segments, names_ok, seg_views, PromptSegment, PromptStringBuilder, SegView,
};
use crate::style::{patched, Colour, TextStyle};
use crate::text_ops::chars_eq_exec;
use crate::unicode::chars_of;
use vstd::prelude::*;

verus! {

/// Formatted times as plain values: (format, text) pairs.
pub type TimeTable = Seq<(Seq<char>, Seq<char>)>;

/// The view of a table of formatted times.
pub open spec fn table_view(t: Seq<(String, String)>) -> TimeTable {
    t.map_values(|e: (String, String)| (e.0@, e.1@))
}

/// The text the first entry for `format` gives (empty when there is none).
pub open spec fn lookup(table: TimeTable, format: Seq<char>) -> Seq<char>
    decreases table.len(),
{
    if table.len() == 0 {
        Seq::empty()
    } else if table[0].0 == format {
        table[0].1
    } else {
        lookup(table.skip(1), format)
    }
}

/// Whether `table` has an entry for `format`.
pub open spec fn has_format(table: TimeTable, format: Seq<char>) -> bool {
    exists|i: int| 0 <= i < table.len() && #[trigger] table[i].0 == format
}

/// The texts of the time segments of `segs`, in order, each looked up by
/// its format in `table`.
pub open spec fn times_for(segs: Seq<RenderSegment>, table: TimeTable) -> Seq<Seq<char>>
    decreases segs.len(),
{
    if segs.len() == 0 {
        Seq::empty()
    } else {
        times_for(segs.drop_last(), table) + match segs.last() {
            RenderSegment::DynamicTime { strftime, style } => seq![lookup(table, strftime@)],
            _ => Seq::empty(),
        }
    }
}

/// Whether a line can be drawn with `table`: its animations can be
/// played and every time format in it has an entry.
pub open spec fn line_ready(segs: Seq<RenderSegment>, table: TimeTable) -> bool {
    &&& animations_ok(segs)
    &&& forall|i: int|
        0 <= i < segs.len() ==> (#[trigger] segs[i] matches RenderSegment::DynamicTime { strftime, style } ==> has_format(
            table,
            strftime@,
        ))
}

/// Whether every line of `lines` can be drawn with `table`.
pub open spec fn lines_ready(lines: Seq<Vec<RenderSegment>>, table: TimeTable) -> bool {
    forall|i: int| 0 <= i < lines.len() ==> line_ready((#[trigger] lines[i])@, table)
}

/// The drawn form of each line of `lines` at `now_ms`.
pub open spec fn drawn_lines(
    r: Seq<TaggedLine>,
    lines: Seq<Vec<RenderSegment>>,
    table: TimeTable,
    now_ms: i64,
    mouse: bool,
) -> bool {
    &&& r.len() == lines.len()
    &&& forall|i: int|
        0 <= i < lines.len() ==> tagged_views((#[trigger] r[i]).spans@) == prompt_line(
            lines[i]@,
            times_for(lines[i]@, table),
            now_ms,
            mouse,
        )
}

/// `current` while the command is being edited; once it has been accepted,
/// the final form when there is one.
pub open spec fn chosen<T>(is_running: bool, current: T, final_form: Option<T>) -> T {
    if is_running {
        current
    } else {
        match final_form {
            Some(f) => f,
            None => current,
        }
    }
}

/// The text of the first table entry for `format`.
fn lookup_exec(table: &Vec<(String, String)>, format: &String) -> (r: String)
    ensures
        r@ == lookup(table_view(table@), format@),
{
    let ghost tv = table_view(table@);
    assert(tv.skip(0) =~= tv);
    let mut i: usize = 0;
    while i < table.len()
        invariant
            i <= table.len(),
            tv == table_view(table@),
            lookup(tv, format@) == lookup(tv.skip(i as int), format@),
        decreases table.len() - i,
    {
        let ghost rest = tv.skip(i as int);
        assert(rest[0] == (table@[i as int].0@, table@[i as int].1@));
        if chars_eq_exec(&chars_of(table[i].0.as_str()), &chars_of(format.as_str())) {
            return table[i].1.clone();
        }
        assert(rest.skip(1) =~= tv.skip(i + 1));
        i = i + 1;
    }
    assert(tv.skip(i as int).len() == 0);
    String::new()
}

/// `times_for` grows by at most one text per segment, in step with the
/// number of time segments.
proof fn lemma_times_for_len(segs: Seq<RenderSegment>, table: TimeTable)
    ensures
        times_for(segs, table).len() == time_count(segs),
    decreases segs.len(),
{
    if segs.len() > 0 {
        lemma_times_for_len(segs.drop_last(), table);
    }
}

/// The texts of the time segments of a line (see `times_for`).
fn time_texts_for(segs: &Vec<RenderSegment>, table: &Vec<(String, String)>) -> (r: Vec<String>)
    ensures
        r@.map_values(|t: String| t@) == times_for(segs@, table_view(table@)),
        r.len() == time_count(segs@),
{
    let ghost tv = table_view(table@);
    let mut out: Vec<String> = Vec::new();
    let mut i: usize = 0;
    while i < segs.len()
        invariant
            i <= segs.len(),
            tv == table_view(table@),
            out@.map_values(|t: String| t@) == times_for(segs@.take(i as int), tv),
        decreases segs.len() - i,
    {
        assert(segs@.take(i + 1).drop_last() =~= segs@.take(i as int));
        assert(segs@.take(i + 1).last() == segs@[i as int]);
        let ghost before = out@.map_values(|t: String| t@);
        match &segs[i] {
            RenderSegment::DynamicTime { strftime, style } => {
                let t = lookup_exec(table, strftime);
                out.push(t);
                assert(out@.map_values(|t: String| t@) =~= before.push(t@));
            },
            _ => {
                assert(out@.map_values(|t: String| t@) =~= before + Seq::<Seq<char>>::empty());
            },
        }
        i = i + 1;
    }
    assert(segs@.take(segs.len() as int) =~= segs@);
    proof {
        lemma_times_for_len(segs@, tv);
    }
    assert(out@.map_values(|t: String| t@).len() == out.len());
    out
}

/// Draw one line at `now_ms`, its times taken from `table`.
fn draw_line(segs: &Vec<RenderSegment>, table: &Vec<(String, String)>, now_ms: i64, mouse_enabled: bool) -> (r: TaggedLine)
    requires
        line_ready(segs@, table_view(table@)),
    ensures
        tagged_views(r.spans@) == prompt_line(segs@, times_for(segs@, table_view(table@)), now_ms, mouse_enabled),
{
    let times = time_texts_for(segs, table);
    format_prompt_line(segs, now_ms, &times, mouse_enabled)
}

/// Draw every line of `lines` at `now_ms`.
fn draw_lines(lines: &Vec<Vec<RenderSegment>>, table: &Vec<(String, String)>, now_ms: i64, mouse_enabled: bool) -> (r: Vec<
    TaggedLine,
>)
    requires
        lines_ready(lines@, table_view(table@)),
    ensures
        drawn_lines(r@, lines@, table_view(table@), now_ms, mouse_enabled),
{
    let mut out: Vec<TaggedLine> = Vec::new();
    let mut i: usize = 0;
    while i < lines.len()
        invariant
            i <= lines.len(),
            lines_ready(lines@, table_view(table@)),
            drawn_lines(out@, lines@.take(i as int), table_view(table@), now_ms, mouse_enabled),
        decreases lines.len() - i,
    {
        assert(line_ready(lines@[i as int]@, table_view(table@)));
        let l = draw_line(&lines[i], table, now_ms, mouse_enabled);
        out.push(l);
        assert forall|j: int| 0 <= j < i + 1 implies tagged_views((#[trigger] out@[j]).spans@) == prompt_line(
            lines@.take(i + 1)[j]@,
            times_for(lines@.take(i + 1)[j]@, table_view(table@)),
            now_ms,
            mouse_enabled,
        ) by {
            if j < i {
                assert(lines@.take(i + 1)[j] == lines@.take(i as int)[j]);
            }
        }
        i = i + 1;
    }
    assert(lines@.take(lines.len() as int) =~= lines@);
    out
}

/// The prompts of one command line. Each prompt has the form shown while
/// the command is edited and, optionally, the form it takes once the
/// command has been accepted. The time segments show the time of drawing
/// while animations play, else the time the prompts were made
/// (`construction_ms`). `cwd` is the working directory they were made in.
pub struct PromptManager {
    pub prompt: Vec<Vec<RenderSegment>>,
    pub prompt_final: Option<Vec<Vec<RenderSegment>>>,
    pub rprompt: Vec<Vec<RenderSegment>>,
    pub rprompt_final: Option<Vec<Vec<RenderSegment>>>,
    pub fill_span: Vec<RenderSegment>,
    pub fill_span_final: Option<Vec<RenderSegment>>,
    pub construction_ms: i64,
    pub cwd: String,
}

impl PromptManager {
    /// Whether every line, in every form, can be drawn with `table`.
    pub open spec fn ready(&self, table: TimeTable) -> bool {
        &&& lines_ready(self.prompt@, table)
        &&& lines_ready(self.rprompt@, table)
        &&& line_ready(self.fill_span@, table)
        &&& (self.prompt_final matches Some(p) ==> lines_ready(p@, table))
        &&& (self.rprompt_final matches Some(p) ==> lines_ready(p@, table))
        &&& (self.fill_span_final matches Some(p) ==> line_ready(p@, table))
    }

    /// The time the prompts are drawn at: `now_ms` while animations play,
    /// else the time they were made.
    pub open spec fn draw_time(&self, show_animations: bool, now_ms: i64) -> i64 {
        if show_animations {
            now_ms
        } else {
            self.construction_ms
        }
    }

    /// Draw the prompts: the left prompt lines, the right prompt lines and
    /// the fill, each in its edited form while `is_running`, else in its
    /// final form when it has one (see `chosen`); at the time `draw_time`
    /// gives, each time segment showing the `table` text for its format.
    pub fn get_ps1_lines(
        &self,
        show_animations: bool,
        mouse_enabled: bool,
        is_running: bool,
        now_ms: i64,
        table: &Vec<(String, String)>,
    ) -> (r: (Vec<TaggedLine>, Vec<TaggedLine>, TaggedLine))
        requires
            self.ready(table_view(table@)),
        ensures
            drawn_lines(
                r.0@,
                chosen(is_running, self.prompt, self.prompt_final)@,
                table_view(table@),
                self.draw_time(show_animations, now_ms),
                mouse_enabled,
            ),
            drawn_lines(
                r.1@,
                chosen(is_running, self.rprompt, self.rprompt_final)@,
                table_view(table@),
                self.draw_time(show_animations, now_ms),
                mouse_enabled,
            ),
            tagged_views(r.2.spans@) == ({
                let f = chosen(is_running, self.fill_span, self.fill_span_final)@;
                prompt_line(f, times_for(f, table_view(table@)), self.draw_time(show_animations, now_ms), mouse_enabled)
            }),
    {
        let t = if show_animations {
            now_ms
        } else {
            self.construction_ms
        };
        let prompt_src = if is_running {
            &self.prompt
        } else {
            match &self.prompt_final {
                Some(p) => p,
                None => &self.prompt,
            }
        };
        let rprompt_src = if is_running {
            &self.rprompt
        } else {
            match &self.rprompt_final {
                Some(p) => p,
                None => &self.rprompt,
            }
        };
        let fill_src = if is_running {
            &self.fill_span
        } else {
            match &self.fill_span_final {
                Some(p) => p,
                None => &self.fill_span,
            }
        };
        let p = draw_lines(prompt_src, table, t, mouse_enabled);
        let rp = draw_lines(rprompt_src, table, t, mouse_enabled);
        let f = draw_line(fill_src, table, t, mouse_enabled);
        (p, rp, f)
    }
}

/// A segment as plain text and style, when it is static text.
pub open spec fn static_view(s: RenderSegment) -> Option<(Seq<char>, TextStyle)> {
    match s {
        RenderSegment::Static(sp) => Some((sp.content@, sp.style)),
        _ => None,
    }
}

/// The static-text views of a line.
pub open spec fn statics(segs: Seq<RenderSegment>) -> Seq<Option<(Seq<char>, TextStyle)>> {
    segs.map_values(|s: RenderSegment| static_view(s))
}

/// Black on red: the style of the warning shown when the shell wants more
/// input for a command thought complete.
pub open spec fn warning_style() -> TextStyle {
    TextStyle { fg: Some(Colour::Black), bg: Some(Colour::Red), underline_color: None, add_modifier: 0, sub_modifier: 0 }
}

/// The prompt shown when the shell wants more input for a command thought
/// complete: a line of warning text, then `> `.
pub open spec fn unfinished_prompt_view() -> Seq<Seq<Option<(Seq<char>, TextStyle)>>> {
    seq![
        seq![
            Some(("Bash needs more input to finish the command. "@, warning_style())),
            Some(("Flyline thought the previous command was complete. "@, warning_style())),
            Some(("Please open an issue on GitHub with the command that caused this message. "@, warning_style())),
        ],
        seq![Some(("> "@, crate::style::plain_style()))],
    ]
}

/// The prompt strings of the shell, each decoded into lines of segments,
/// or `None` when it is unset or could not be decoded: the left prompt,
/// the right prompt and the fill, each with its final form.
pub struct DecodedPrompts {
    pub ps1: Option<Vec<Vec<RenderSegment>>>,
    pub ps1_final: Option<Vec<Vec<RenderSegment>>>,
    pub rps1: Option<Vec<Vec<RenderSegment>>>,
    pub rps1_final: Option<Vec<Vec<RenderSegment>>>,
    pub fill: Option<Vec<Vec<RenderSegment>>>,
    pub fill_final: Option<Vec<Vec<RenderSegment>>>,
}

/// The first line of `lines`, when there is one.
pub open spec fn first_line(lines: Option<Vec<Vec<RenderSegment>>>) -> Option<Vec<RenderSegment>> {
    match lines {
        Some(l) => if l.len() > 0 {
            Some(l@[0])
        } else {
            None
        },
        None => None,
    }
}

/// A static segment of `text` in the plain style.
fn plain_static(text: &str) -> (r: RenderSegment)
    ensures
        static_view(r) == Some((text@, crate::style::plain_style())),
{
    RenderSegment::Static(StyledSpan { content: text.to_owned(), style: TextStyle::new() })
}

/// The first line of `lines`, when there is one.
fn take_first_line(lines: Option<Vec<Vec<RenderSegment>>>) -> (r: Option<Vec<RenderSegment>>)
    ensures
        r == first_line(lines),
{
    match lines {
        Some(mut l) => {
            if l.len() > 0 {
                let first = l.remove(0);
                Some(first)
            } else {
                None
            }
        },
        None => None,
    }
}

impl PromptManager {
    /// The prompts for a new command line made at `construction_ms` in the
    /// working directory `cwd`. When the shell wants more input for a
    /// command thought complete, the fixed warning prompt (see
    /// `unfinished_prompt_view`) with a one-space fill, no right prompt, no
    /// final forms and no working directory. Otherwise the decoded
    /// prompts: the left prompt, or `bad ps1> ` when there is none; the
    /// right prompt, or none; the first line of the fill, or a space; each
    /// final form as given (the first line for the fill).
    pub fn new(unfinished_from_prev_command: bool, prompts: DecodedPrompts, construction_ms: i64, cwd: String) -> (r:
        PromptManager)
        ensures
            r.construction_ms == construction_ms,
            unfinished_from_prev_command ==> {
                &&& r.prompt@.map_values(|l: Vec<RenderSegment>| statics(l@)) == unfinished_prompt_view()
                &&& r.prompt_final is None
                &&& r.rprompt.len() == 0
                &&& r.rprompt_final is None
                &&& statics(r.fill_span@) == seq![Some((" "@, crate::style::plain_style()))]
                &&& r.fill_span_final is None
                &&& r.cwd@.len() == 0
            },
            !unfinished_from_prev_command ==> {
                &&& match prompts.ps1 {
                    Some(p) => r.prompt == p,
                    None => r.prompt@.map_values(|l: Vec<RenderSegment>| statics(l@)) == seq![
                        seq![Some(("bad ps1> "@, crate::style::plain_style()))],
                    ],
                }
                &&& r.prompt_final == prompts.ps1_final
                &&& match prompts.rps1 {
                    Some(p) => r.rprompt == p,
                    None => r.rprompt.len() == 0,
                }
                &&& r.rprompt_final == prompts.rps1_final
                &&& match first_line(prompts.fill) {
                    Some(f) => r.fill_span == f,
                    None => statics(r.fill_span@) == seq![Some((" "@, crate::style::plain_style()))],
                }
                &&& r.fill_span_final == first_line(prompts.fill_final)
                &&& r.cwd == cwd
            },
    {
        if unfinished_from_prev_command {
            let warn = TextStyle::new().bg(Colour::Red).fg(Colour::Black);
            let l0 = vec![
                RenderSegment::Static(StyledSpan { content: "Bash needs more input to finish the command. ".to_owned(), style: warn }),
                RenderSegment::Static(StyledSpan { content: "Flyline thought the previous command was complete. ".to_owned(), style: warn }),
                RenderSegment::Static(StyledSpan {
                    content: "Please open an issue on GitHub with the command that caused this message. ".to_owned(),
                    style: warn,
                }),
            ];
            let l1 = vec![plain_static("> ")];
            assert(statics(l0@) =~= unfinished_prompt_view()[0]);
            assert(statics(l1@) =~= unfinished_prompt_view()[1]);
            let prompt = vec![l0, l1];
            let r = PromptManager {
                prompt,
                prompt_final: None,
                rprompt: Vec::new(),
                rprompt_final: None,
                fill_span: vec![plain_static(" ")],
                fill_span_final: None,
                construction_ms,
                cwd: String::new(),
            };
            assert(r.prompt@.map_values(|l: Vec<RenderSegment>| statics(l@)) =~= unfinished_prompt_view());
            assert(statics(r.fill_span@) =~= seq![Some((" "@, crate::style::plain_style()))]);
            r
        } else {
            let DecodedPrompts { ps1, ps1_final, rps1, rps1_final, fill, fill_final } = prompts;
            let prompt = match ps1 {
                Some(p) => p,
                None => {
                    let l = vec![plain_static("bad ps1> ")];
                    assert(statics(l@) =~= seq![Some(("bad ps1> "@, crate::style::plain_style()))]);
                    let d = vec![l];
                    assert(d@.map_values(|l: Vec<RenderSegment>| statics(l@)) =~= seq![
                        seq![Some(("bad ps1> "@, crate::style::plain_style()))],
                    ]);
                    d
                },
            };
            let rprompt = match rps1 {
                Some(p) => p,
                None => Vec::new(),
            };
            let fill_span = match take_first_line(fill) {
                Some(f) => f,
                None => {
                    let d = vec![plain_static(" ")];
                    assert(statics(d@) =~= seq![Some((" "@, crate::style::plain_style()))]);
                    d
                },
            };
            PromptManager {
                prompt,
                prompt_final: ps1_final,
                rprompt,
                rprompt_final: rps1_final,
                fill_span,
                fill_span_final: take_first_line(fill_final),
                construction_ms,
                cwd,
            }
        }
    }
}

/// An animation as plain values: name, frame length, frames and whether
/// it bounces.
pub type AnimView = (Seq<char>, Option<i64>, Seq<Seq<SpanView>>, bool);

pub open spec fn anim_view(a: ProcessedAnimation) -> AnimView {
    (a.name@, a.frame_ms, a.frames@.map_values(|f: Vec<StyledSpan>| spans_view(f@)), a.ping_pong)
}

/// An animation with every frame span's style laid over `style`.
pub open spec fn restyled(a: AnimView, style: TextStyle) -> AnimView {
    (a.0, a.1, a.2.map_values(|f: Seq<SpanView>| f.map_values(|s: SpanView| (s.0, patched(style, s.1)))), a.3)
}

/// A copy of `a` with every frame span's style laid over `style`.
fn restyled_copy(a: &ProcessedAnimation, style: TextStyle) -> (r: ProcessedAnimation)
    ensures
        anim_view(r) == restyled(anim_view(*a), style),
{
    let ghost want = restyled(anim_view(*a), style).2;
    let mut frames: Vec<Vec<StyledSpan>> = Vec::new();
    let mut i: usize = 0;
    while i < a.frames.len()
        invariant
            i <= a.frames.len(),
            want == restyled(anim_view(*a), style).2,
            frames@.map_values(|f: Vec<StyledSpan>| spans_view(f@)) == want.take(i as int),
        decreases a.frames.len() - i,
    {
        let frame = &a.frames[i];
        let mut out: Vec<StyledSpan> = Vec::new();
        let mut k: usize = 0;
        while k < frame.len()
            invariant
                k <= frame.len(),
                spans_view(out@) == spans_view(frame@.take(k as int)).map_values(
                    |s: SpanView| (s.0, patched(style, s.1)),
                ),
            decreases frame.len() - k,
        {
            let ghost before = spans_view(out@);
            out.push(StyledSpan { content: frame[k].content.clone(), style: style.patch(frame[k].style) });
            assert(spans_view(out@) =~= before.push((frame@[k as int].content@, patched(style, frame@[k as int].style))));
            assert(spans_view(frame@.take(k + 1)) =~= spans_view(frame@.take(k as int)).push(
                (frame@[k as int].content@, frame@[k as int].style),
            ));
            k = k + 1;
        }
        assert(frame@.take(frame.len() as int) =~= frame@);
        let ghost fv = frames@.map_values(|f: Vec<StyledSpan>| spans_view(f@));
        frames.push(out);
        assert(frames@.map_values(|f: Vec<StyledSpan>| spans_view(f@)) =~= fv.push(spans_view(out@)));
        assert(want.take(i + 1) =~= want.take(i as int).push(want[i as int]));
        i = i + 1;
    }
    assert(want.take(a.frames.len() as int) =~= want);
    ProcessedAnimation { name: a.name.clone(), frame_ms: a.frame_ms, frames, ping_pong: a.ping_pong }
}

/// The number of widget segments among `segs`.
pub open spec fn widget_count(segs: Seq<SegView>) -> int
    decreases segs.len(),
{
    if segs.len() == 0 {
        0
    } else {
        widget_count(segs.drop_last()) + if segs.last() is Widget { 1int } else { 0int }
    }
}

/// Whether `r` is how the decoded segment `seg` of a prompt span styled
/// `style` is drawn, for a segment that is no widget: text and time
/// segments in the span's style, an animation as the one it names with
/// its frames laid over the span's style, the working directory as its
/// pieces in the span's style.
pub open spec fn renders_as(r: RenderSegment, seg: SegView, style: TextStyle, animations: Seq<AnimView>) -> bool {
    match seg {
        SegView::Static(t) => r matches RenderSegment::Static(s) && s.content@ == t && s.style == style,
        SegView::Time(f) => r matches RenderSegment::DynamicTime { strftime, style: st } && strftime@ == f && st == style,
        SegView::Animation(j) => r matches RenderSegment::Animation(a) && anim_view(a) == restyled(animations[j as int], style),
        SegView::Cwd(p) => r matches RenderSegment::Cwd(spans) && spans_view(spans@) == p.map_values(|t: Seq<char>| (t, style)),
        SegView::Widget(_) => false,
    }
}

/// The drawable segments of the decoded segments `segs`, the `i`-th drawn
/// in `styles[i]`: each widget segment is replaced by the next of
/// `widgets` (made by the caller, one per widget occurrence, in order),
/// the others are drawn as `renders_as` says.
pub fn render_segments(
    segs: &Vec<PromptSegment>,
    styles: &Vec<TextStyle>,
    animations: &Vec<ProcessedAnimation>,
    widgets: Vec<RenderSegment>,
) -> (r: Vec<RenderSegment>)
    requires
        styles.len() == segs.len(),
        forall|i: int| 0 <= i < segs.len() ==> ((#[trigger] segs@[i])@ matches SegView::Animation(j) ==> j < animations.len()),
        widgets.len() == widget_count(seg_views(segs@)),
    ensures
        r.len() == segs.len(),
        forall|i: int|
            0 <= i < segs.len() ==> if segs@[i]@ is Widget {
                r@[i] == widgets@[widget_count(seg_views(segs@).take(i))]
            } else {
                renders_as(
                    #[trigger] r@[i],
                    segs@[i]@,
                    styles@[i],
                    animations@.map_values(|a: ProcessedAnimation| anim_view(a)),
                )
            },
{
    let ghost sv = seg_views(segs@);
    let ghost orig = widgets@;
    let ghost av = animations@.map_values(|a: ProcessedAnimation| anim_view(a));
    let mut widgets = widgets;
    assert(orig.len() == widgets.len());
    let mut out: Vec<RenderSegment> = Vec::new();
    let mut k: usize = 0;
    let mut i: usize = 0;
    while i < segs.len()
        invariant
            i <= segs.len(),
            styles.len() == segs.len(),
            sv == seg_views(segs@),
            av == animations@.map_values(|a: ProcessedAnimation| anim_view(a)),
            forall|q: int| 0 <= q < segs.len() ==> ((#[trigger] segs@[q])@ matches SegView::Animation(j) ==> j < animations.len()),
            orig.len() == widget_count(sv),
            orig.len() <= usize::MAX,
            k == widget_count(sv.take(i as int)),
            widgets@ == orig.skip(k as int),
            out.len() == i,
            forall|q: int|
                0 <= q < i ==> if segs@[q]@ is Widget {
                    out@[q] == orig[widget_count(sv.take(q))]
                } else {
                    renders_as(#[trigger] out@[q], segs@[q]@, styles@[q], av)
                },
        decreases segs.len() - i,
    {
        assert(sv.take(i + 1).drop_last() =~= sv.take(i as int));
        proof {
            lemma_widget_count_prefix(sv, i + 1);
        }
        let style = styles[i];
        let seg: RenderSegment = match &segs[i] {
            PromptSegment::Static(t) => RenderSegment::Static(StyledSpan { content: t.clone(), style }),
            PromptSegment::DynamicTime(f) => RenderSegment::DynamicTime { strftime: f.clone(), style },
            PromptSegment::Animation(j) => {
                assert(segs@[i as int]@ matches SegView::Animation(jj) ==> jj < animations.len());
                RenderSegment::Animation(restyled_copy(&animations[*j], style))
            },
            PromptSegment::Cwd(pieces) => {
                let mut spans: Vec<StyledSpan> = Vec::new();
                let mut q: usize = 0;
                while q < pieces.len()
                    invariant
                        q <= pieces.len(),
                        spans_view(spans@) == pieces@.take(q as int).map_values(|x: String| x@).map_values(
                            |t: Seq<char>| (t, style),
                        ),
                    decreases pieces.len() - q,
                {
                    let ghost before = spans_view(spans@);
                    spans.push(StyledSpan { content: pieces[q].clone(), style });
                    assert(spans_view(spans@) =~= before.push((pieces@[q as int]@, style)));
                    assert(pieces@.take(q + 1).map_values(|x: String| x@).map_values(|t: Seq<char>| (t, style))
                        =~= pieces@.take(q as int).map_values(|x: String| x@).map_values(|t: Seq<char>| (t, style)).push(
                        (pieces@[q as int]@, style),
                    ));
                    q = q + 1;
                }
                assert(pieces@.take(pieces.len() as int) =~= pieces@);
                RenderSegment::Cwd(spans)
            },
            PromptSegment::Widget(_) => {
                assert(k < orig.len());
                assert(widgets@.len() > 0);
                let w = widgets.remove(0);
                assert(w == orig[k as int]);
                assert(widgets@ =~= orig.skip(k + 1));
                k = k + 1;
                w
            },
        };
        out.push(seg);
        i = i + 1;
    }
    out
}

/// The widget segments of a prefix are no more than those of the whole.
proof fn lemma_widget_count_prefix(segs: Seq<SegView>, k: int)
    requires
        0 <= k <= segs.len(),
    ensures
        widget_count(segs.take(k)) <= widget_count(segs),
        k > 0 && segs[k - 1] is Widget ==> widget_count(segs.take(k - 1)) < widget_count(segs),
    decreases segs.len() - k,
{
    if k < segs.len() {
        lemma_widget_count_prefix(segs, k + 1);
        assert(segs.take(k + 1).drop_last() =~= segs.take(k));
    } else {
        assert(segs.take(k) =~= segs);
    }
    if k > 0 {
        assert(segs.take(k).drop_last() =~= segs.take(k - 1));
    }
}

/// The decoded segments of a prompt line made of the decoded spans
/// `spans`, each with the style of the span it came from: the segments of
/// each span (see `expand_segments`) one span after another.
pub open spec fn expanded_line(
    spans: Seq<SpanView>,
    times: Seq<(Seq<char>, Seq<char>)>,
    animations: Seq<Seq<char>>,
    widgets: Seq<Seq<char>>,
    cwd: Option<Seq<char>>,
    home: Option<Seq<char>>,
) -> Seq<(SegView, TextStyle)>
    decreases spans.len(),
{
    if spans.len() == 0 {
        Seq::empty()
    } else {
        expanded_line(spans.drop_last(), times, animations, widgets, cwd, home) + expand_segments(
            spans.last().0,
            times,
            animations,
            widgets,
            cwd,
            home,
        ).map_values(|v: SegView| (v, spans.last().1))
    }
}

/// The decoded segments of a prompt line, and the style of each: every
/// span of `spans` split into segments by `builder` (its time
/// placeholders, then the `animations` and `widgets` names, then the
/// working directory `cwd` with home `home`), in order, and of the
/// working-directory segments only the longest kept (see `dedup_cwd`).
pub fn expand_line(
    builder: &PromptStringBuilder,
    spans: &Vec<StyledSpan>,
    animations: &Vec<String>,
    widgets: &Vec<String>,
    cwd: Option<&str>,
    home: Option<&str>,
) -> (r: (Vec<PromptSegment>, Vec<TextStyle>))
    requires
        builder.wf(),
        names_ok(animations@.map_values(|x: String| x@)),
        names_ok(widgets@.map_values(|x: String| x@)),
    ensures
        ({
            let e = expanded_line(
                spans_view(spans@),
                builder.times(),
                animations@.map_values(|x: String| x@),
                widgets@.map_values(|x: String| x@),
                opt_str(cwd),
                opt_str(home),
            );
            &&& seg_views(r.0@) == dedup_cwd(e.map_values(|p: (SegView, TextStyle)| p.0))
            &&& r.1@ == e.map_values(|p: (SegView, TextStyle)| p.1)
        }),
{
    let ghost an = animations@.map_values(|x: String| x@);
    let ghost wn = widgets@.map_values(|x: String| x@);
    let ghost sv = spans_view(spans@);
    let mut segs: Vec<PromptSegment> = Vec::new();
    let mut styles: Vec<TextStyle> = Vec::new();
    let mut i: usize = 0;
    while i < spans.len()
        invariant
            i <= spans.len(),
            builder.wf(),
            names_ok(an),
            names_ok(wn),
            an == animations@.map_values(|x: String| x@),
            wn == widgets@.map_values(|x: String| x@),
            sv == spans_view(spans@),
            seg_views(segs@) == expanded_line(sv.take(i as int), builder.times(), an, wn, opt_str(cwd), opt_str(home)).map_values(
                |p: (SegView, TextStyle)| p.0,
            ),
            styles@ == expanded_line(sv.take(i as int), builder.times(), an, wn, opt_str(cwd), opt_str(home)).map_values(
                |p: (SegView, TextStyle)| p.1,
            ),
        decreases spans.len() - i,
    {
        let ghost prev = expanded_line(sv.take(i as int), builder.times(), an, wn, opt_str(cwd), opt_str(home));
        assert(sv.take(i + 1).drop_last() =~= sv.take(i as int));
        assert(sv.take(i + 1).last() == (spans@[i as int].content@, spans@[i as int].style));
        let style = spans[i].style;
        let mut part = builder.expand_span_to_segments(spans[i].content.as_str(), animations, widgets, cwd, home);
        let ghost pv = seg_views(part@);
        let n = part.len();
        let ghost s0 = seg_views(segs@);
        segs.append(&mut part);
        assert(seg_views(segs@) =~= s0 + pv);
        let mut k: usize = 0;
        while k < n
            invariant
                k <= n,
                styles@ == prev.map_values(|p: (SegView, TextStyle)| p.1) + Seq::new(k as nat, |q: int| style),
            decreases n - k,
        {
            styles.push(style);
            assert(styles@ =~= prev.map_values(|p: (SegView, TextStyle)| p.1) + Seq::new((k + 1) as nat, |q: int| style));
            k = k + 1;
        }
        let ghost next = expanded_line(sv.take(i + 1), builder.times(), an, wn, opt_str(cwd), opt_str(home));
        assert(next == prev + pv.map_values(|v: SegView| (v, style)));
        assert(seg_views(segs@) =~= next.map_values(|p: (SegView, TextStyle)| p.0));
        assert(styles@ =~= next.map_values(|p: (SegView, TextStyle)| p.1));
        i = i + 1;
    }
    assert(sv.take(spans.len() as int) =~= sv);
    dedup_cwd_segments(&mut segs);
    (segs, styles)
}

} // verus!
