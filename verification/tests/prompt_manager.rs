use flyline::content_builder::{SpanTag, Tag, TaggedSpan};
use flyline::content_utils::StyledSpan;
use flyline::prompt_manager::{
    find_cwd_in_span, format_prompt_line, inherit_base_style, resolve_placeholder, split_cwd_text_into_spans, ProcessedAnimation, RenderSegment,
    WidgetFailure, WidgetOutput, WidgetPoll, widget_state_after_poll, widget_wait_ms,
};
use flyline::settings::Placeholder;
use flyline::style::{Colour, TextStyle};

#[test]
fn test_find_cwd_tilde_only() {
    let text = "otherpartofheprompt~:$";
    let cwd = "/home/foo";
    let result = find_cwd_in_span(text, cwd, Some("/home/foo"));
    let cwd_range = result.expect("should find a match");
    assert_eq!(&text[cwd_range], "~");
}

#[test]
fn test_find_cwd_tilde_path() {
    let text = "otherpartofheprompt~/qwe/try:$";
    let cwd = "/home/foo/qwe/try";
    let result = find_cwd_in_span(text, cwd, Some("/home/foo"));
    let cwd_range = result.expect("should find a match");
    assert_eq!(&text[cwd_range], "~/qwe/try");
}

#[test]
fn test_find_cwd_partial_path_no_tilde() {
    let text = "otherpartofhepromptqwe/try/ooh:$";
    let cwd = "/home/foo/qwe/try/ooh";
    let result = find_cwd_in_span(text, cwd, Some("/home/foo"));
    let cwd_range = result.expect("should find a match");
    assert_eq!(&text[cwd_range], "qwe/try/ooh");
}

#[test]
fn test_find_cwd_partial_path_trailing_slash() {
    let text = "otherpartofheprompt try/ooh/lkj/:$";
    let cwd = "/home/qwe/try/ooh/lkj";
    let result = find_cwd_in_span(text, cwd, None);
    let cwd_range = result.expect("should find a match");
    assert_eq!(&text[cwd_range], "try/ooh/lkj/");
}

#[test]
fn test_find_cwd_full() {
    let text = "otherpartofheprompt /home/qwe/try/ooh/lkj/:$";
    let cwd = "/home/qwe/try/ooh/lkj";
    let result = find_cwd_in_span(text, cwd, None);
    let cwd_range = result.expect("should find a match");
    assert_eq!(&text[cwd_range], "/home/qwe/try/ooh/lkj/");
}

#[test]
fn test_find_cwd_truncated_segment_prefix() {
    let text = "uncated/foo/bar";
    let cwd = "/home/user/truncated/foo/bar";
    let range = find_cwd_in_span(text, cwd, None).expect("should find range");
    assert_eq!(&text[range], "uncated/foo/bar");
}

#[test]
fn test_find_cwd_ellipsis_dots_prefix() {
    let text = ".../foo/bar";
    let cwd = "/a/b/c/foo/bar";
    let range = find_cwd_in_span(text, cwd, None).expect("should find range");
    assert_eq!(&text[range], ".../foo/bar");
}

#[test]
fn test_find_cwd_unicode_ellipsis_prefix() {
    let text = "…/foo/bar";
    let cwd = "/a/b/c/foo/bar";
    let range = find_cwd_in_span(text, cwd, None).expect("should find range");
    assert_eq!(&text[range], "…/foo/bar");
}

#[test]
fn test_find_cwd_ellipsis_then_truncated_segment() {
    let text = "...uncated/foo/bar";
    let cwd = "/home/user/truncated/foo/bar";
    let range = find_cwd_in_span(text, cwd, None).expect("should find range");
    assert_eq!(&text[range], "...uncated/foo/bar");
}

#[test]
fn test_find_cwd_requires_current_folder_name() {
    let text = "prefix ~/foo $";
    let cwd = "/home/user/foo/bar";
    assert_eq!(find_cwd_in_span(text, cwd, Some("/home/user")), None);
}

#[test]
fn test_split_cwd_tilde_only() {
    let spans = split_cwd_text_into_spans("~");
    assert_eq!(spans, vec!["~"]);
}

#[test]
fn test_split_cwd_tilde_with_segments() {
    let spans = split_cwd_text_into_spans("~/foo/bar/baz");
    assert_eq!(
        spans,
        vec!["~", "/", "foo", "/", "bar", "/", "baz"]
    );
}

#[test]
fn test_split_cwd_absolute_path() {
    let spans = split_cwd_text_into_spans("/home/foo/bar");
    assert_eq!(
        spans,
        vec!["/", "home", "/", "foo", "/", "bar"]
    );
}

#[test]
fn test_split_cwd_relative_path() {
    let spans = split_cwd_text_into_spans("qwe/try/ooh");
    assert_eq!(spans, vec!["qwe", "/", "try", "/", "ooh"]);
}

#[test]
fn test_split_cwd_single_segment() {
    let spans = split_cwd_text_into_spans("/home");
    assert_eq!(spans, vec!["/", "home"]);
}

#[test]
fn test_split_cwd_trailing_slash() {
    let spans = split_cwd_text_into_spans("~/foo/");
    // trailing slash becomes its own "/" span
    assert_eq!(spans, vec!["~", "/", "foo", "/"]);
}

fn frames_of(frames: &[&str]) -> Vec<Vec<StyledSpan>> {
    frames
        .iter()
        .map(|s| vec![StyledSpan { content: s.to_string(), style: TextStyle::new() }])
        .collect()
}

fn frame_ms_for(fps: f64) -> Option<i64> {
    if fps <= 0.0 {
        None
    } else {
        Some((1000.0 / fps) as i64)
    }
}

fn make_processed_anim(name: &str, fps: f64, frames: &[&str]) -> ProcessedAnimation {
    ProcessedAnimation { name: name.to_string(), frame_ms: frame_ms_for(fps), frames: frames_of(frames), ping_pong: false }
}

fn make_ping_pong_anim(name: &str, fps: f64, frames: &[&str]) -> ProcessedAnimation {
    ProcessedAnimation { name: name.to_string(), frame_ms: frame_ms_for(fps), frames: frames_of(frames), ping_pong: true }
}

fn first_span_content(spans: &[StyledSpan]) -> String {
    assert!(!spans.is_empty(), "expected at least one span");
    spans[0].content.clone()
}

#[test]
fn test_get_frame_spans_empty_frames() {
    let anim = make_processed_anim("A", 10.0, &[]);
    assert!(anim.get_frame_spans(0).is_empty());
}

#[test]
fn test_get_frame_spans_single_frame() {
    let anim = make_processed_anim("A", 10.0, &["only"]);
    assert_eq!(first_span_content(&anim.get_frame_spans(0)), "only");
    assert_eq!(first_span_content(&anim.get_frame_spans(999)), "only");
}

#[test]
fn test_get_frame_spans_cycles() {
    let anim = make_processed_anim("A", 10.0, &["f0", "f1", "f2"]);
    let frame_content = |ms| first_span_content(&anim.get_frame_spans(ms));
    assert_eq!(frame_content(0), "f0");
    assert_eq!(frame_content(100), "f1");
    assert_eq!(frame_content(200), "f2");
    assert_eq!(frame_content(300), "f0");
}

#[test]
fn test_get_frame_spans_ping_pong_three_frames() {
    let anim = make_ping_pong_anim("A", 10.0, &["f0", "f1", "f2"]);
    let frame_content = |ms| first_span_content(&anim.get_frame_spans(ms));
    assert_eq!(frame_content(0), "f0");
    assert_eq!(frame_content(100), "f1");
    assert_eq!(frame_content(200), "f2");
    assert_eq!(frame_content(300), "f1");
    assert_eq!(frame_content(400), "f0");
    assert_eq!(frame_content(500), "f1");
}

#[test]
fn test_get_frame_spans_ping_pong_two_frames() {
    let anim = make_ping_pong_anim("A", 10.0, &["f0", "f1"]);
    let frame_content = |ms| first_span_content(&anim.get_frame_spans(ms));
    assert_eq!(frame_content(0), "f0");
    assert_eq!(frame_content(100), "f1");
    assert_eq!(frame_content(200), "f0");
}

#[test]
fn test_get_frame_spans_ping_pong_single_frame() {
    let anim = make_ping_pong_anim("A", 10.0, &["only"]);
    for ms in [0, 100, 200, 999] {
        assert_eq!(first_span_content(&anim.get_frame_spans(ms)), "only");
    }
}

#[test]
fn test_get_frame_spans_frozen_when_disabled() {
    let anim = make_processed_anim("A", 10.0, &["f0", "f1", "f2"]);
    assert_eq!(first_span_content(&anim.get_frame_spans(50)), "f0");
    assert_eq!(first_span_content(&anim.get_frame_spans(50)), "f0");
}

#[test]
fn frame_index_without_rate_shows_first_frame() {
    let anim = make_processed_anim("A", 0.0, &["f0", "f1"]);
    assert_eq!(anim.frame_index(12345), Some(0));
    let neg = make_processed_anim("A", 10.0, &["f0", "f1", "f2"]);
    assert_eq!(neg.frame_index(-150).is_some(), true);
}

#[test]
fn test_animation_frame_style_overrides_base_style() {
    let anim = ProcessedAnimation {
        name: "A".to_string(),
        frame_ms: Some(100),
        frames: vec![vec![StyledSpan { content: "x".to_string(), style: TextStyle::new().fg(Colour::Red) }]],
        ping_pong: false,
    };
    let base = TextStyle::new().fg(Colour::Blue).bg(Colour::Green);
    let patched = anim.patch_style(base);
    assert_eq!(patched.frames[0][0].style.fg, Some(Colour::Red));
    assert_eq!(patched.frames[0][0].style.bg, Some(Colour::Green));
}

#[test]
fn widget_failure_spans() {
    let f = WidgetFailure { exit_code: Some(2), stdout: String::new(), stderr: "boom".to_string() };
    let spans = f.to_error_spans();
    assert_eq!(spans.len(), 1);
    assert_eq!(spans[0].span.content, "command failed (exit 2)");
    assert_eq!(spans[0].span.style.fg, Some(Colour::Red));
    let g = WidgetFailure { exit_code: Some(-9), stdout: String::new(), stderr: String::new() };
    assert_eq!(g.to_error_spans()[0].span.content, "command failed (exit -9)");
    let h = WidgetFailure { exit_code: None, stdout: String::new(), stderr: String::new() };
    assert_eq!(h.to_error_spans()[0].span.content, "command failed");
}

#[test]
fn test_animation_base_style_fills_unset_fields() {
    let mut anim = make_processed_anim("SPIN", 10.0, &["f0"]);
    anim.frames[0][0].style = TextStyle::new();
    let anim = anim.patch_style(TextStyle::new().fg(Colour::Green));
    assert_eq!(anim.frames[0][0].style.fg, Some(Colour::Green), "base fg should be used when frame fg is unset");
}

fn raw(s: &str) -> StyledSpan {
    StyledSpan { content: s.to_string(), style: TextStyle::new() }
}

fn line_text(segments: &Vec<RenderSegment>, now_ms: i64, times: &Vec<String>, mouse: bool) -> String {
    let line = format_prompt_line(segments, now_ms, times, mouse);
    line.spans.iter().map(|s| s.span.content.as_str()).collect()
}

#[test]
fn test_format_prompt_line_animation_substitution() {
    let anim = make_processed_anim("SPIN", 10.0, &["f0", "f1"]);
    let segments = vec![RenderSegment::Static(raw("before ")), RenderSegment::Animation(anim), RenderSegment::Static(raw(" after"))];
    assert_eq!(line_text(&segments, 0, &vec![], false), "before f0 after");
}

#[test]
fn test_format_prompt_line_animation_frame_advances() {
    let anim = make_processed_anim("SPIN", 10.0, &["f0", "f1"]);
    let segments = vec![RenderSegment::Animation(anim)];
    assert_eq!(line_text(&segments, 100, &vec![], false), "f1");
}

#[test]
fn test_format_prompt_line_animation_tag() {
    let anim = make_processed_anim("SPIN", 10.0, &["f0"]);
    let segments = vec![RenderSegment::Animation(anim)];
    let line = format_prompt_line(&segments, 0, &vec![], false);
    assert!(line.spans.iter().all(|s| s.tag == SpanTag::Constant(Tag::Ps1PromptAnimation)));
}

#[test]
fn test_format_prompt_line_dynamic_time() {
    let formatted_time = "12:34:56".to_string();
    let segments = vec![
        RenderSegment::Static(raw("[")),
        RenderSegment::DynamicTime { strftime: "%H:%M:%S".to_string(), style: TextStyle::new() },
        RenderSegment::Static(raw("]")),
    ];
    assert_eq!(line_text(&segments, 0, &vec![formatted_time.clone()], false), format!("[{}]", formatted_time));
}

#[test]
fn test_format_prompt_line_dynamic_time_tag() {
    let segments = vec![RenderSegment::DynamicTime { strftime: "%H:%M".to_string(), style: TextStyle::new() }];
    let line = format_prompt_line(&segments, 0, &vec!["00:00".to_string()], false);
    assert_eq!(line.spans.len(), 1);
    assert_eq!(line.spans[0].tag, SpanTag::Constant(Tag::Ps1PromptDynamicTime));
}

#[test]
fn test_format_prompt_line_static_tag() {
    let segments = vec![RenderSegment::Static(raw("$ "))];
    let line = format_prompt_line(&segments, 0, &vec![], false);
    assert_eq!(line.spans.len(), 1);
    assert_eq!(line.spans[0].tag, SpanTag::Constant(Tag::Ps1Prompt));
}

fn mouse_segments() -> Vec<RenderSegment> {
    vec![RenderSegment::WidgetMouseMode {
        enabled_text: vec![TaggedSpan::new(raw("mouse on"), Tag::Ps1Prompt)],
        disabled_text: vec![TaggedSpan::new(raw("mouse off"), Tag::Ps1Prompt)],
    }]
}

#[test]
fn test_format_prompt_line_widget_mouse_mode_enabled() {
    assert_eq!(line_text(&mouse_segments(), 0, &vec![], true), "mouse on");
}

#[test]
fn test_format_prompt_line_widget_mouse_mode_disabled() {
    assert_eq!(line_text(&mouse_segments(), 0, &vec![], false), "mouse off");
}

#[test]
fn test_format_prompt_line_widget_copy_buffer() {
    let segments = vec![RenderSegment::WidgetCopyBuffer { text: vec![TaggedSpan::new(raw("copy"), Tag::PromptCopyBufferWidget)] }];
    let line = format_prompt_line(&segments, 0, &vec![], false);
    assert_eq!(line.spans[0].span.content, "copy");
    assert_eq!(line.spans[0].tag, SpanTag::Constant(Tag::PromptCopyBufferWidget));
}

#[test]
fn test_format_prompt_line_widget_custom_done() {
    let segs = vec![RenderSegment::WidgetCustom {
        state: WidgetOutput::Done(vec![TaggedSpan::new(raw("output"), Tag::Ps1Prompt)]),
        base_style: TextStyle::new(),
    }];
    assert_eq!(line_text(&segs, 0, &vec![], false), "output");
}

#[test]
fn test_format_prompt_line_widget_custom_failed() {
    let segs = vec![RenderSegment::WidgetCustom {
        state: WidgetOutput::Failed(WidgetFailure { exit_code: Some(1), stdout: String::new(), stderr: String::new() }),
        base_style: TextStyle::new(),
    }];
    assert_eq!(line_text(&segs, 0, &vec![], false), "command failed (exit 1)");
}

#[test]
fn test_format_prompt_line_widget_custom_failed_no_exit_code() {
    let segs = vec![RenderSegment::WidgetCustom {
        state: WidgetOutput::Failed(WidgetFailure { exit_code: None, stdout: String::new(), stderr: String::new() }),
        base_style: TextStyle::new(),
    }];
    assert_eq!(line_text(&segs, 0, &vec![], false), "command failed");
}

#[test]
fn test_widget_custom_output_style_overrides_base_style() {
    let output = StyledSpan { content: "output".to_string(), style: TextStyle::new().fg(Colour::Red) };
    let segs = vec![RenderSegment::WidgetCustom {
        state: WidgetOutput::Done(vec![TaggedSpan::new(output, Tag::Ps1Prompt)]),
        base_style: TextStyle::new().fg(Colour::Blue),
    }];
    let line = format_prompt_line(&segs, 0, &vec![], false);
    assert_eq!(line.spans[0].span.style.fg, Some(Colour::Red), "output fg should override base fg");
}

#[test]
fn test_widget_custom_base_style_fills_unset_fields() {
    let segs = vec![RenderSegment::WidgetCustom {
        state: WidgetOutput::Done(vec![TaggedSpan::new(raw("output"), Tag::Ps1Prompt)]),
        base_style: TextStyle::new().fg(Colour::Green),
    }];
    let line = format_prompt_line(&segs, 0, &vec![], false);
    assert_eq!(line.spans[0].span.style.fg, Some(Colour::Green), "base fg should be used when output fg is unset");
}

#[test]
fn test_format_prompt_line_widget_last_command_duration_five_chars_no_close() {
    let segs = vec![RenderSegment::WidgetLastCommandDuration { text: " now ".to_string(), base_style: TextStyle::new() }];
    assert_eq!(line_text(&segs, 0, &vec![], false), " now ");
}

#[test]
fn test_format_prompt_line_widget_last_command_duration_five_chars_elapsed() {
    let segs = vec![RenderSegment::WidgetLastCommandDuration { text: " 1min".to_string(), base_style: TextStyle::new() }];
    assert_eq!(line_text(&segs, 0, &vec![], false), " 1min");
}

#[test]
fn test_format_prompt_line_widget_last_command_duration_inherits_base_style() {
    let segs = vec![RenderSegment::WidgetLastCommandDuration { text: " now ".to_string(), base_style: TextStyle::new().fg(Colour::Cyan) }];
    let line = format_prompt_line(&segs, 0, &vec![], false);
    assert_eq!(line.spans[0].span.style.fg, Some(Colour::Cyan));
}

#[test]
fn format_prompt_line_second_time_segment_takes_second_text() {
    let segs = vec![
        RenderSegment::DynamicTime { strftime: "%H".to_string(), style: TextStyle::new() },
        RenderSegment::Static(raw("|")),
        RenderSegment::DynamicTime { strftime: "%M".to_string(), style: TextStyle::new() },
    ];
    assert_eq!(line_text(&segs, 0, &vec!["07".to_string(), "42".to_string()], false), "07|42");
}

#[test]
fn test_expand_span_widget_copy_buffer_inherits_span_style() {
    let text = vec![TaggedSpan::new(raw("copy"), Tag::PromptCopyBufferWidget)];
    let out = inherit_base_style(&text, TextStyle::new().fg(Colour::Blue));
    assert!(!out.is_empty());
    for ts in &out {
        assert_eq!(ts.span.style.fg, Some(Colour::Blue));
        assert_eq!(ts.tag, SpanTag::Constant(Tag::PromptCopyBufferWidget));
    }
}

#[test]
fn copy_buffer_own_style_wins_over_base() {
    let own = StyledSpan { content: "copy".to_string(), style: TextStyle::new().fg(Colour::Red) };
    let out = inherit_base_style(&vec![TaggedSpan::new(own, Tag::PromptCopyBufferWidget)], TextStyle::new().fg(Colour::Blue).bg(Colour::Black));
    assert_eq!(out[0].span.style.fg, Some(Colour::Red));
    assert_eq!(out[0].span.style.bg, Some(Colour::Black));
    assert_eq!(out[0].span.content, "copy");
}

#[test]
fn spaces_placeholder_is_that_many_spaces() {
    let out = resolve_placeholder(&Placeholder::Spaces(3), &vec![]);
    assert_eq!(out.len(), 1);
    assert_eq!(out[0].span.content, "   ");
    assert_eq!(out[0].tag, SpanTag::Constant(Tag::Ps1Prompt));
    assert_eq!(resolve_placeholder(&Placeholder::Spaces(0), &vec![])[0].span.content, "");
}

#[test]
fn prev_placeholder_repeats_last_output() {
    let prev = vec![TaggedSpan::new(raw("last"), Tag::Ps1Prompt), TaggedSpan::new(raw(" run"), Tag::Ps1Prompt)];
    let out = resolve_placeholder(&Placeholder::Prev, &prev);
    assert_eq!(out.len(), 2);
    assert_eq!(out[0].span.content, "last");
    assert_eq!(out[1].span.content, " run");
    assert!(resolve_placeholder(&Placeholder::Prev, &vec![]).is_empty());
}

#[test]
fn widget_wait_defaults_to_zero() {
    assert_eq!(widget_wait_ms(None), 0);
    assert_eq!(widget_wait_ms(Some(250)), 250);
}

#[test]
fn widget_poll_decides_state() {
    let done = widget_state_after_poll(
        WidgetPoll::Exited {
            success: true,
            exit_code: Some(0),
            output_spans: vec![TaggedSpan::new(raw("out"), Tag::Ps1Prompt)],
            stdout: "out".to_string(),
            stderr: String::new(),
        },
        vec![],
    );
    assert!(matches!(done, WidgetOutput::Done(ref v) if v[0].span.content == "out"));
    let failed = widget_state_after_poll(
        WidgetPoll::Exited { success: false, exit_code: Some(3), output_spans: vec![], stdout: "o".to_string(), stderr: "  bad\n".to_string() },
        vec![],
    );
    match failed {
        WidgetOutput::Failed(f) => {
            assert_eq!(f.exit_code, Some(3));
            assert_eq!(f.stdout, "o");
            assert_eq!(f.stderr, "bad");
        }
        _ => panic!("expected Failed"),
    }
    let pending = widget_state_after_poll(WidgetPoll::Running, vec![TaggedSpan::new(raw("   "), Tag::Ps1Prompt)]);
    assert!(matches!(pending, WidgetOutput::Pending(ref v) if v[0].span.content == "   "));
    match widget_state_after_poll(WidgetPoll::WaitError("boom".to_string()), vec![]) {
        WidgetOutput::Failed(f) => {
            assert_eq!(f.exit_code, None);
            assert_eq!(f.stderr, "boom");
            assert!(f.stdout.is_empty());
        }
        _ => panic!("expected Failed"),
    }
}
