//! Mouse handling decisions: whether capture is on, how many clicks a left
//! click makes, which button is held, and which pointer shape to show. The
//! terminal commands that these decisions call for are returned to the
//! caller, which writes them and reports back whether capture changed.

use crate::settings::MouseMode;
use crate::unicode::{append_chars, chars_of, string_of};
use vstd::prelude::*;

verus! {

/// How many left clicks in a row landed on the same buffer position.
#[derive(Debug, Clone, Copy, PartialEq, Eq, Structural)]
pub enum ClickCount {
    /// No recent click.
    Zero,
    /// One click.
    Single,
    /// Two clicks.
    Double,
    /// Three or more clicks.
    Triple,
}

/// The mouse pointer shapes that flyline asks the terminal for.
#[derive(Debug, Clone, Copy, PartialEq, Eq, Structural)]
pub enum PointerShape {
    /// The terminal's own pointer.
    Default,
    /// A text caret.
    Text,
    /// A pointing hand, over clickable things.
    Pointer,
    /// A closed hand, while dragging.
    Grabbing,
}

/// The name of a pointer shape in the OSC 22 request.
pub open spec fn shape_name(s: PointerShape) -> Seq<char> {
    match s {
        PointerShape::Default => "default"@,
        PointerShape::Text => "text"@,
        PointerShape::Pointer => "pointer"@,
        PointerShape::Grabbing => "grabbing"@,
    }
}

/// The OSC 22 request for a pointer shape; the default shape is asked for
/// with an empty name.
pub open spec fn shape_escape(s: PointerShape) -> Seq<char> {
    match s {
        PointerShape::Default => "\x1b]22;\x1b\\"@,
        _ => "\x1b]22;"@ + shape_name(s) + "\x1b\\"@,
    }
}

impl PointerShape {
    /// The shape's name.
    pub fn to_str(&self) -> (s: &'static str)
        ensures
            s@ == shape_name(*self),
    {
        match self {
            PointerShape::Default => "default",
            PointerShape::Text => "text",
            PointerShape::Pointer => "pointer",
            PointerShape::Grabbing => "grabbing",
        }
    }

    /// The escape sequence that asks the terminal for this shape.
    pub fn escape_sequence(&self) -> (s: String)
        ensures
            s@ == shape_escape(*self),
    {
        match self {
            PointerShape::Default => string_of(&chars_of("\x1b]22;\x1b\\")),
            _ => {
                let mut v = chars_of("\x1b]22;");
                append_chars(&mut v, &chars_of(self.to_str()));
                append_chars(&mut v, &chars_of("\x1b\\"));
                string_of(&v)
            },
        }
    }
}

/// XTerm's `XTSHIFTESCAPE`: whether Shift lets mouse events through to the
/// terminal while the application captures the mouse.
#[derive(Debug, Clone, Copy, PartialEq, Eq, Structural)]
pub enum XtShiftEscape {
    /// Ask the terminal to honour Shift.
    Enable,
    /// Withdraw that request.
    Disable,
}

/// The control sequence of an `XtShiftEscape` request.
pub open spec fn shift_escape(x: XtShiftEscape) -> Seq<char> {
    match x {
        XtShiftEscape::Enable => "\x1b[>1s"@,
        XtShiftEscape::Disable => "\x1b[>0s"@,
    }
}

impl XtShiftEscape {
    /// The control sequence of this request.
    pub fn escape_sequence(&self) -> (s: String)
        ensures
            s@ == shift_escape(*self),
    {
        match self {
            XtShiftEscape::Enable => string_of(&chars_of("\x1b[>1s")),
            XtShiftEscape::Disable => string_of(&chars_of("\x1b[>0s")),
        }
    }
}

/// What lies under the mouse, as far as the pointer shape depends on it.
#[derive(Debug, Clone, Copy, PartialEq, Eq, Structural)]
pub enum HoverTarget {
    /// The command buffer.
    Command,
    /// Something that reacts to a click: suggestions, history and agent
    /// results, tutorial buttons, prompt widgets, clipboard slots, the
    /// completion scroll bar, info panels and context-menu entries.
    Clickable,
    /// Anything else.
    Other,
}

/// A terminal command that a mouse decision calls for.
#[derive(Debug, Clone, Copy, PartialEq, Eq, Structural)]
pub enum MouseCommand {
    /// Turn mouse capture on, with `XtShiftEscape::Enable`.
    EnableCapture,
    /// Turn mouse capture off, with `XtShiftEscape::Disable`.
    DisableCapture,
    /// Ask for a pointer shape.
    SetPointer(PointerShape),
}

/// Clicks further apart than this, in nanoseconds, do not add up.
pub const CLICK_WINDOW_NS: u64 = 500_000_000;

/// The click times among `ts` at most `CLICK_WINDOW_NS` before `now` (times
/// after `now` count as no time before it), in order.
pub open spec fn recent(ts: Seq<u64>, now: u64) -> Seq<u64>
    decreases ts.len(),
{
    if ts.len() == 0 {
        ts
    } else {
        let rest = recent(ts.drop_last(), now);
        let t = ts.last();
        if (if now >= t { now - t } else { 0 }) <= CLICK_WINDOW_NS {
            rest.push(t)
        } else {
            rest
        }
    }
}

/// The click count for `n` recent clicks.
pub open spec fn count_of(n: nat) -> ClickCount {
    if n == 0 {
        ClickCount::Zero
    } else if n == 1 {
        ClickCount::Single
    } else if n == 2 {
        ClickCount::Double
    } else {
        ClickCount::Triple
    }
}

/// The pointer shape for the mouse's situation: the default shape when shape
/// changes are off; while dragging, a caret if the drag began on the command
/// and a closed hand otherwise; else a caret over the command, a hand over
/// clickable things and the default shape elsewhere.
pub open spec fn wanted_shape(
    change_shape: bool,
    dragging: bool,
    drag_start: Option<HoverTarget>,
    hovered: Option<HoverTarget>,
) -> PointerShape {
    if !change_shape {
        PointerShape::Default
    } else if dragging {
        if drag_start == Some(HoverTarget::Command) {
            PointerShape::Text
        } else {
            PointerShape::Grabbing
        }
    } else if hovered == Some(HoverTarget::Command) {
        PointerShape::Text
    } else if hovered == Some(HoverTarget::Clickable) {
        PointerShape::Pointer
    } else {
        PointerShape::Default
    }
}

/// While dragging with shape changes on, the shape depends on where the
/// drag started and not on what is hovered: a drag that started on the
/// command shows the text caret, the same as hovering the command without
/// a drag; any other drag shows the closed hand.
pub proof fn law_drag_shape(drag_start: Option<HoverTarget>, h1: Option<HoverTarget>, h2: Option<HoverTarget>)
    ensures
        wanted_shape(true, true, drag_start, h1) == wanted_shape(true, true, drag_start, h2),
        (wanted_shape(true, true, drag_start, h1) == PointerShape::Text) == (drag_start == Some(HoverTarget::Command)),
        drag_start == Some(HoverTarget::Command) ==> wanted_shape(true, true, drag_start, h1) == wanted_shape(
            true,
            false,
            h2,
            Some(HoverTarget::Command),
        ),
        drag_start != Some(HoverTarget::Command) ==> wanted_shape(true, true, drag_start, h1)
            == PointerShape::Grabbing,
{
}

/// Mouse capture and click state.
pub struct MouseState {
    enabled: bool,
    last_left_click_times: Vec<u64>,
    last_left_click_buffer_pos: Option<usize>,
    left_button_down: bool,
    last_mouse_over_cell_direct: Option<HoverTarget>,
    drag_start_tag: Option<HoverTarget>,
    current_pointer_shape: PointerShape,
    right_click_down_pos: Option<(u16, u16)>,
}

impl MouseState {
    /// Whether capture is on.
    pub closed spec fn enabled(&self) -> bool {
        self.enabled
    }

    /// Times, in nanoseconds of a monotonic clock, of the recent left clicks.
    pub closed spec fn click_times(&self) -> Seq<u64> {
        self.last_left_click_times@
    }

    /// Buffer position of the last left click.
    pub closed spec fn last_click_pos(&self) -> Option<usize> {
        self.last_left_click_buffer_pos
    }

    /// Whether the left button is held.
    pub closed spec fn button_down(&self) -> bool {
        self.left_button_down
    }

    /// The pointer shape last asked for.
    pub closed spec fn pointer(&self) -> PointerShape {
        self.current_pointer_shape
    }

    /// What the mouse was last seen over.
    pub closed spec fn hovered(&self) -> Option<HoverTarget> {
        self.last_mouse_over_cell_direct
    }

    /// Where the current drag began.
    pub closed spec fn drag_start(&self) -> Option<HoverTarget> {
        self.drag_start_tag
    }

    /// Where the right button was last pressed down (row, column).
    pub closed spec fn right_click_pos(&self) -> Option<(u16, u16)> {
        self.right_click_down_pos
    }

    /// Record what the mouse is over.
    pub fn set_last_mouse_over_cell_direct(&mut self, t: Option<HoverTarget>)
        ensures
            final(self).hovered() == t,
            final(self).enabled() == old(self).enabled(),
            final(self).click_times() == old(self).click_times(),
            final(self).last_click_pos() == old(self).last_click_pos(),
            final(self).button_down() == old(self).button_down(),
            final(self).pointer() == old(self).pointer(),
            final(self).drag_start() == old(self).drag_start(),
            final(self).right_click_pos() == old(self).right_click_pos(),
    {
        self.last_mouse_over_cell_direct = t;
    }

    /// Record where a drag began.
    pub fn set_drag_start_tag(&mut self, t: Option<HoverTarget>)
        ensures
            final(self).drag_start() == t,
            final(self).enabled() == old(self).enabled(),
            final(self).click_times() == old(self).click_times(),
            final(self).last_click_pos() == old(self).last_click_pos(),
            final(self).button_down() == old(self).button_down(),
            final(self).pointer() == old(self).pointer(),
            final(self).hovered() == old(self).hovered(),
            final(self).right_click_pos() == old(self).right_click_pos(),
    {
        self.drag_start_tag = t;
    }

    /// The state for `mode` once the caller has tried to turn capture on:
    /// capture is on when the mode wants it and `capture_ok` reports that
    /// the terminal accepted the request. Nothing else is recorded yet.
    pub fn initialize(mode: &MouseMode, capture_ok: bool) -> (m: Self)
        ensures
            m.enabled() == (*mode != MouseMode::Disabled && capture_ok),
            m.click_times().len() == 0,
            m.last_click_pos() is None,
            !m.button_down(),
            m.pointer() == PointerShape::Default,
            m.hovered() is None,
            m.drag_start() is None,
            m.right_click_pos() is None,
    {
        let enabled = match mode {
            MouseMode::Disabled => false,
            MouseMode::Simple | MouseMode::Smart => capture_ok,
        };
        MouseState {
            enabled,
            last_left_click_times: Vec::new(),
            last_left_click_buffer_pos: None,
            left_button_down: false,
            last_mouse_over_cell_direct: None,
            drag_start_tag: None,
            current_pointer_shape: PointerShape::Default,
            right_click_down_pos: None,
        }
    }

    /// Whether `mode` asks for capture at start-up.
    pub fn wants_capture(mode: &MouseMode) -> (b: bool)
        ensures
            b == (*mode != MouseMode::Disabled),
    {
        match mode {
            MouseMode::Disabled => false,
            _ => true,
        }
    }

    /// Ask for capture: nothing to do when it is on, else the request to
    /// send. The state changes when the caller reports the outcome.
    pub fn enable(&mut self) -> (cmds: Vec<MouseCommand>)
        ensures
            *final(self) == *old(self),
            old(self).enabled() ==> cmds@ == Seq::<MouseCommand>::empty(),
            !old(self).enabled() ==> cmds@ == seq![MouseCommand::EnableCapture],
    {
        let mut cmds: Vec<MouseCommand> = Vec::new();
        if !self.enabled {
            cmds.push(MouseCommand::EnableCapture);
        }
        cmds
    }

    /// Ask to release capture: nothing when it is off; else the button is
    /// let go, the pointer shape reset first if it was changed, and capture
    /// turned off once the caller reports success.
    pub fn disable(&mut self) -> (cmds: Vec<MouseCommand>)
        ensures
            !old(self).enabled() ==> *final(self) == *old(self) && cmds@ == Seq::<MouseCommand>::empty(),
            old(self).enabled() ==> {
                &&& final(self).enabled()
                &&& !final(self).button_down()
                &&& final(self).pointer() == PointerShape::Default
                &&& final(self).click_times() == old(self).click_times()
                &&& final(self).last_click_pos() == old(self).last_click_pos()
                &&& final(self).hovered() == old(self).hovered()
                &&& final(self).drag_start() == old(self).drag_start()
                &&& final(self).right_click_pos() == old(self).right_click_pos()
                &&& cmds@ == if old(self).pointer() == PointerShape::Default {
                    seq![MouseCommand::DisableCapture]
                } else {
                    seq![MouseCommand::SetPointer(PointerShape::Default), MouseCommand::DisableCapture]
                }
            },
    {
        let mut cmds: Vec<MouseCommand> = Vec::new();
        if !self.enabled {
            return cmds;
        }
        self.left_button_down = false;
        if let Some(s) = self.set_pointer_shape(PointerShape::Default, false) {
            cmds.push(MouseCommand::SetPointer(s));
        }
        cmds.push(MouseCommand::DisableCapture);
        cmds
    }

    /// Flip capture: `disable` when it is on, `enable` when it is off.
    pub fn toggle(&mut self) -> (cmds: Vec<MouseCommand>)
        ensures
            old(self).enabled() ==> cmds@.last() == MouseCommand::DisableCapture,
            !old(self).enabled() ==> cmds@ == seq![MouseCommand::EnableCapture] && *final(self) == *old(self),
            final(self).enabled() == old(self).enabled(),
    {
        if self.enabled {
            self.disable()
        } else {
            self.enable()
        }
    }

    /// Record the outcome of a capture command: capture follows the command
    /// when the terminal accepted it, and stays as it was otherwise.
    pub fn capture_result(&mut self, cmd: MouseCommand, ok: bool)
        ensures
            final(self).enabled() == (if ok && cmd == MouseCommand::EnableCapture {
                true
            } else if ok && cmd == MouseCommand::DisableCapture {
                false
            } else {
                old(self).enabled()
            }),
            final(self).click_times() == old(self).click_times(),
            final(self).last_click_pos() == old(self).last_click_pos(),
            final(self).button_down() == old(self).button_down(),
            final(self).pointer() == old(self).pointer(),
            final(self).hovered() == old(self).hovered(),
            final(self).drag_start() == old(self).drag_start(),
            final(self).right_click_pos() == old(self).right_click_pos(),
    {
        if ok {
            match cmd {
                MouseCommand::EnableCapture => {
                    self.enabled = true;
                },
                MouseCommand::DisableCapture => {
                    self.enabled = false;
                },
                MouseCommand::SetPointer(_) => {},
            }
        }
    }

    /// Whether capture is on.
    pub fn is_enabled(&self) -> (b: bool)
        ensures
            b == self.enabled(),
    {
        self.enabled
    }

    /// Whether capture is off.
    pub fn is_disabled(&self) -> (b: bool)
        ensures
            b == !self.enabled(),
    {
        !self.enabled
    }

    /// Record a left click at buffer position `byte_pos` at time `now`
    /// (nanoseconds of a monotonic clock): a click elsewhere than the last
    /// one starts a new series, and clicks older than the click window are
    /// forgotten. Returns the count of the clicks that remain.
    pub fn record_left_click_down(&mut self, byte_pos: usize, now: u64) -> (c: ClickCount)
        ensures
            final(self).click_times() == recent(
                (if old(self).last_click_pos() is Some && old(self).last_click_pos() != Some(byte_pos) {
                    Seq::<u64>::empty()
                } else {
                    old(self).click_times()
                }).push(now),
                now,
            ),
            final(self).last_click_pos() == Some(byte_pos),
            c == count_of(final(self).click_times().len()),
            final(self).enabled() == old(self).enabled(),
            final(self).button_down() == old(self).button_down(),
            final(self).pointer() == old(self).pointer(),
            final(self).hovered() == old(self).hovered(),
            final(self).drag_start() == old(self).drag_start(),
            final(self).right_click_pos() == old(self).right_click_pos(),
    {
        if let Some(last_pos) = self.last_left_click_buffer_pos {
            if last_pos != byte_pos {
                self.last_left_click_times = Vec::new();
            }
        }
        self.last_left_click_buffer_pos = Some(byte_pos);
        self.last_left_click_times.push(now);
        let ts = &self.last_left_click_times;
        let mut kept: Vec<u64> = Vec::new();
        let mut i: usize = 0;
        while i < ts.len()
            invariant
                i <= ts.len(),
                kept@ == recent(ts@.take(i as int), now),
            decreases ts.len() - i,
        {
            let t = ts[i];
            assert(ts@.take(i + 1).drop_last() =~= ts@.take(i as int));
            let age = now.saturating_sub(t);
            if age <= CLICK_WINDOW_NS {
                kept.push(t);
            }
            i = i + 1;
        }
        assert(ts@.take(ts.len() as int) =~= ts@);
        self.last_left_click_times = kept;
        self.get_click_count()
    }

    /// The count of the recent clicks.
    pub fn get_click_count(&self) -> (c: ClickCount)
        ensures
            c == count_of(self.click_times().len()),
    {
        let n = self.last_left_click_times.len();
        if n == 0 {
            ClickCount::Zero
        } else if n == 1 {
            ClickCount::Single
        } else if n == 2 {
            ClickCount::Double
        } else {
            ClickCount::Triple
        }
    }

    /// Buffer position of the last left click.
    pub fn get_last_click_buffer_pos(&self) -> (p: Option<usize>)
        ensures
            p == self.last_click_pos(),
    {
        self.last_left_click_buffer_pos
    }

    /// Mark the left button as held down.
    pub fn set_left_button_down(&mut self)
        ensures
            final(self).button_down(),
            final(self).enabled() == old(self).enabled(),
            final(self).click_times() == old(self).click_times(),
            final(self).last_click_pos() == old(self).last_click_pos(),
            final(self).pointer() == old(self).pointer(),
    {
        self.left_button_down = true;
    }

    /// Mark the left button as released.
    pub fn set_left_button_up(&mut self)
        ensures
            !final(self).button_down(),
            final(self).enabled() == old(self).enabled(),
            final(self).click_times() == old(self).click_times(),
            final(self).last_click_pos() == old(self).last_click_pos(),
            final(self).pointer() == old(self).pointer(),
    {
        self.left_button_down = false;
    }

    /// Whether the left button is held down.
    pub fn is_left_button_down(&self) -> (b: bool)
        ensures
            b == self.button_down(),
    {
        self.left_button_down
    }

    /// Remember where the right button went down.
    pub fn set_right_click_down_pos(&mut self, row: u16, col: u16)
        ensures
            final(self).right_click_pos() == Some((row, col)),
            final(self).enabled() == old(self).enabled(),
            final(self).button_down() == old(self).button_down(),
            final(self).pointer() == old(self).pointer(),
    {
        self.right_click_down_pos = Some((row, col));
    }

    /// Where the right button went down, forgetting it.
    pub fn take_right_click_down_pos(&mut self) -> (p: Option<(u16, u16)>)
        ensures
            p == old(self).right_click_pos(),
            final(self).right_click_pos() is None,
            final(self).enabled() == old(self).enabled(),
            final(self).button_down() == old(self).button_down(),
            final(self).pointer() == old(self).pointer(),
    {
        let p = self.right_click_down_pos;
        self.right_click_down_pos = None;
        p
    }

    /// Switch to `shape` unless capture is off, or (without `force`) it is
    /// already shown; returns the shape to ask the terminal for.
    fn set_pointer_shape(&mut self, shape: PointerShape, force: bool) -> (r: Option<PointerShape>)
        ensures
            r == (if !old(self).enabled() || (!force && old(self).pointer() == shape) {
                None
            } else {
                Some(shape)
            }),
            final(self).pointer() == (if r is Some {
                shape
            } else {
                old(self).pointer()
            }),
            final(self).enabled() == old(self).enabled(),
            final(self).click_times() == old(self).click_times(),
            final(self).last_click_pos() == old(self).last_click_pos(),
            final(self).button_down() == old(self).button_down(),
            final(self).hovered() == old(self).hovered(),
            final(self).drag_start() == old(self).drag_start(),
            final(self).right_click_pos() == old(self).right_click_pos(),
    {
        if !self.enabled {
            return None;
        }
        if !force && self.current_pointer_shape == shape {
            return None;
        }
        self.current_pointer_shape = shape;
        Some(shape)
    }

    /// Choose the pointer shape for the mouse's situation (see
    /// `wanted_shape`) and switch to it; returns the shape to ask the
    /// terminal for, if any.
    pub fn update_pointer_shape(&mut self, is_text_selected: bool, change_shape: bool, force: bool) -> (r:
        Option<PointerShape>)
        ensures
            ({
                let shape = wanted_shape(
                    change_shape,
                    old(self).button_down(),
                    old(self).drag_start(),
                    old(self).hovered(),
                );
                &&& r == (if !old(self).enabled() || (!force && old(self).pointer() == shape) {
                    None
                } else {
                    Some(shape)
                })
                &&& final(self).pointer() == (if r is Some {
                    shape
                } else {
                    old(self).pointer()
                })
            }),
            final(self).enabled() == old(self).enabled(),
            final(self).click_times() == old(self).click_times(),
            final(self).last_click_pos() == old(self).last_click_pos(),
            final(self).button_down() == old(self).button_down(),
            final(self).hovered() == old(self).hovered(),
            final(self).drag_start() == old(self).drag_start(),
    {
        let is_dragging = self.left_button_down;
        let hovered = self.last_mouse_over_cell_direct;
        let drag_start = self.drag_start_tag;
        let shape = if !change_shape {
            PointerShape::Default
        } else if is_dragging {
            if matches!(drag_start, Some(HoverTarget::Command)) {
                PointerShape::Text
            } else {
                PointerShape::Grabbing
            }
        } else if matches!(hovered, Some(HoverTarget::Command)) {
            PointerShape::Text
        } else if matches!(hovered, Some(HoverTarget::Clickable)) {
            PointerShape::Pointer
        } else {
            PointerShape::Default
        };
        self.set_pointer_shape(shape, force)
    }
}

} // verus!
