use flyline::content_builder::{SpanTag, Tag, TaggedLine, TaggedSpan};
use flyline::content_utils::StyledSpan;
use flyline::prompt_lines::{expand_line, render_segments, DecodedPrompts, PromptManager};
use flyline::prompt_manager::{ProcessedAnimation, RenderSegment};
use flyline::prompt_string::{PromptSegment, PromptStringBuilder};
use flyline::style::{Colour, TextStyle};

fn raw(s: &str) -> StyledSpan {
    StyledSpan { content: s.to_string(), style: TextStyle::new() }
}

fn stat(s: &str) -> RenderSegment {
    RenderSegment::Static(raw(s))
}

fn text(line: &TaggedLine) -> String {
    line.spans.iter().map(|s| s.span.content.as_str()).collect()
}

fn no_prompts() -> DecodedPrompts {
    DecodedPrompts { ps1: None, ps1_final: None, rps1: None, rps1_final: None, fill: None, fill_final: None }
}

fn table() -> Vec<(String, String)> {
    vec![("%H:%M".to_string(), "09:15".to_string())]
}

#[test]
fn unfinished_command_shows_warning_prompt() {
    let pm = PromptManager::new(true, no_prompts(), 5, "/tmp".to_string());
    let (p, rp, fill) = pm.get_ps1_lines(false, false, true, 0, &vec![]);
    assert_eq!(p.len(), 2);
    assert!(text(&p[0]).starts_with("Bash needs more input to finish the command. "));
    assert_eq!(p[0].spans[0].span.style.bg, Some(Colour::Red));
    assert_eq!(p[0].spans[0].span.style.fg, Some(Colour::Black));
    assert_eq!(text(&p[1]), "> ");
    assert!(rp.is_empty());
    assert_eq!(text(&fill), " ");
    assert_eq!(pm.cwd, "");
}

#[test]
fn missing_ps1_falls_back_to_default() {
    let pm = PromptManager::new(false, no_prompts(), 0, "/home/u".to_string());
    let (p, rp, fill) = pm.get_ps1_lines(true, false, true, 0, &vec![]);
    assert_eq!(p.len(), 1);
    assert_eq!(text(&p[0]), "bad ps1> ");
    assert!(rp.is_empty());
    assert_eq!(text(&fill), " ");
    assert_eq!(pm.cwd, "/home/u");
}

#[test]
fn final_forms_replace_prompts_once_accepted() {
    let prompts = DecodedPrompts {
        ps1: Some(vec![vec![stat("edit $ ")]]),
        ps1_final: Some(vec![vec![stat("done $ ")]]),
        rps1: Some(vec![vec![stat("[r]")]]),
        rps1_final: None,
        fill: Some(vec![vec![stat(".")], vec![stat("ignored")]]),
        fill_final: Some(vec![vec![stat("_")]]),
    };
    let pm = PromptManager::new(false, prompts, 0, String::new());
    let (p, rp, fill) = pm.get_ps1_lines(true, false, true, 0, &vec![]);
    assert_eq!(text(&p[0]), "edit $ ");
    assert_eq!(text(&rp[0]), "[r]");
    assert_eq!(text(&fill), ".");
    let (p, rp, fill) = pm.get_ps1_lines(true, false, false, 0, &vec![]);
    assert_eq!(text(&p[0]), "done $ ");
    assert_eq!(text(&rp[0]), "[r]");
    assert_eq!(text(&fill), "_");
}

#[test]
fn time_segments_use_table_and_animations_follow_draw_time() {
    let anim = ProcessedAnimation {
        name: "SPIN".to_string(),
        frame_ms: Some(100),
        frames: vec![vec![raw("a")], vec![raw("b")]],
        ping_pong: false,
    };
    let line = vec![
        RenderSegment::DynamicTime { strftime: "%H:%M".to_string(), style: TextStyle::new() },
        stat(" "),
        RenderSegment::Animation(anim),
    ];
    let prompts = DecodedPrompts { ps1: Some(vec![line]), ..no_prompts() };
    let pm = PromptManager::new(false, prompts, 0, String::new());
    let (p, _, _) = pm.get_ps1_lines(true, false, true, 100, &table());
    assert_eq!(text(&p[0]), "09:15 b");
    assert_eq!(p[0].spans[0].tag, SpanTag::Constant(Tag::Ps1PromptDynamicTime));
    let (p, _, _) = pm.get_ps1_lines(false, false, true, 100, &table());
    assert_eq!(text(&p[0]), "09:15 a");
}

#[test]
fn render_segments_styles_and_widgets() {
    let segs = vec![
        PromptSegment::Static("$ ".to_string()),
        PromptSegment::DynamicTime("%H".to_string()),
        PromptSegment::Widget(0),
        PromptSegment::Animation(0),
        PromptSegment::Cwd(vec!["~".to_string(), "/".to_string(), "x".to_string()]),
    ];
    let blue = TextStyle::new().fg(Colour::Blue);
    let styles = vec![blue; 5];
    let anim = ProcessedAnimation {
        name: "A".to_string(),
        frame_ms: None,
        frames: vec![vec![StyledSpan { content: "f".to_string(), style: TextStyle::new().bg(Colour::Red) }]],
        ping_pong: false,
    };
    let widget = RenderSegment::WidgetCopyBuffer { text: vec![TaggedSpan::new(raw("copy"), Tag::PromptCopyBufferWidget)] };
    let r = render_segments(&segs, &styles, &vec![anim], vec![widget]);
    assert_eq!(r.len(), 5);
    match &r[0] {
        RenderSegment::Static(s) => {
            assert_eq!(s.content, "$ ");
            assert_eq!(s.style, blue);
        }
        _ => panic!("expected Static"),
    }
    assert!(matches!(&r[1], RenderSegment::DynamicTime { strftime, style } if strftime == "%H" && *style == blue));
    assert!(matches!(&r[2], RenderSegment::WidgetCopyBuffer { text } if text[0].span.content == "copy"));
    match &r[3] {
        RenderSegment::Animation(a) => {
            assert_eq!(a.frames[0][0].style.fg, Some(Colour::Blue));
            assert_eq!(a.frames[0][0].style.bg, Some(Colour::Red));
        }
        _ => panic!("expected Animation"),
    }
    match &r[4] {
        RenderSegment::Cwd(spans) => {
            let t: Vec<&str> = spans.iter().map(|s| s.content.as_str()).collect();
            assert_eq!(t, vec!["~", "/", "x"]);
            assert!(spans.iter().all(|s| s.style == blue));
        }
        _ => panic!("expected Cwd"),
    }
}

#[test]
fn expand_line_keeps_span_styles_and_one_cwd() {
    let b = PromptStringBuilder::new();
    let green = TextStyle::new().fg(Colour::Green);
    let spans = vec![
        StyledSpan { content: "x ~/src ".to_string(), style: green },
        StyledSpan { content: "~/src/app".to_string(), style: TextStyle::new() },
        raw(" W $"),
    ];
    let (segs, styles) = expand_line(&b, &spans, &vec![], &vec!["W".to_string()], Some("/home/u/src/app"), Some("/home/u"));
    assert_eq!(segs.len(), styles.len());
    let cwds = segs.iter().filter(|s| matches!(s, PromptSegment::Cwd(_))).count();
    assert_eq!(cwds, 1);
    assert!(matches!(&segs[0], PromptSegment::Static(t) if t == "x ~/src "));
    assert_eq!(styles[0], green);
    assert!(matches!(&segs[1], PromptSegment::Cwd(p) if p.concat() == "~/src/app"));
    assert_eq!(styles[1], TextStyle::new());
    assert!(segs.iter().any(|s| matches!(s, PromptSegment::Widget(0))));
}
