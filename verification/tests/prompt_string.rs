use flyline::prompt_manager::{
    cwd_display_segment_count, cwd_path_for_index, cwd_piece_tags, split_cwd_text_into_spans,
};
use flyline::prompt_string::{dedup_cwd_segments, split_static_span_by_cwd, PromptSegment, PromptStringBuilder};

fn prompt_with_cwd_text(cwd_text: &str) -> Vec<Vec<PromptSegment>> {
    vec![vec![PromptSegment::Cwd(split_cwd_text_into_spans(cwd_text))]]
}

fn static_text(seg: &PromptSegment) -> Option<&str> {
    match seg {
        PromptSegment::Static(s) => Some(s.as_str()),
        _ => None,
    }
}

#[test]
fn test_cwd_display_segment_count_no_cwd() {
    let prompt = vec![vec![PromptSegment::Static("$ ".to_string())]];
    assert_eq!(cwd_display_segment_count(&prompt), 0);
}

#[test]
fn test_cwd_display_segment_count_three_segments() {
    let prompt = prompt_with_cwd_text("~/bar");
    // "~/bar" splits into ["~", "/", "bar"] → 2 display segments
    assert_eq!(cwd_display_segment_count(&prompt), 2);
}

#[test]
fn test_cwd_display_segment_count_absolute_three_segments() {
    let prompt = prompt_with_cwd_text("/home/foo/bar");
    // selectable: "/", "home", "foo", "bar" → 4 display segments
    assert_eq!(cwd_display_segment_count(&prompt), 4);
}

#[test]
fn test_cwd_path_for_index_no_cwd() {
    assert_eq!(cwd_path_for_index("", 0), None);
}

#[test]
fn test_cwd_path_for_index_zero() {
    assert_eq!(cwd_path_for_index("/home/foo/bar", 0), Some("/home/foo/bar".to_string()));
}

#[test]
fn test_cwd_path_for_index_one() {
    assert_eq!(cwd_path_for_index("/home/foo/bar", 1), Some("/home/foo".to_string()));
}

#[test]
fn test_cwd_path_for_index_root() {
    assert_eq!(cwd_path_for_index("/home/foo/bar", 3), Some("/".to_string()));
}

#[test]
fn test_cwd_path_for_index_clamped_to_root() {
    assert_eq!(cwd_path_for_index("/home/foo/bar", 100), Some("/".to_string()));
}

#[test]
fn cwd_path_for_index_relative_and_normalised() {
    assert_eq!(cwd_path_for_index("a//b/./c/", 1), Some("a/b".to_string()));
    assert_eq!(cwd_path_for_index("./a/b", 1), Some("./a".to_string()));
    assert_eq!(cwd_path_for_index("./a/b", 9), Some(".".to_string()));
    assert_eq!(cwd_path_for_index("a/b", 9), Some("a".to_string()));
}

#[test]
fn cwd_display_segment_count_uses_first_cwd_segment() {
    let prompt = vec![
        vec![PromptSegment::Static("> ".to_string())],
        vec![
            PromptSegment::Cwd(split_cwd_text_into_spans("/a/b")),
            PromptSegment::Cwd(split_cwd_text_into_spans("/x/y/z")),
        ],
    ];
    assert_eq!(cwd_display_segment_count(&prompt), 3);
}

#[test]
fn next_id_is_padded_upper_hex() {
    let mut b = PromptStringBuilder::new();
    assert_eq!(b.next_id(), "FLYT0000");
    for _ in 0..10 {
        b.next_id();
    }
    assert_eq!(b.next_id(), "FLYT000B");
}

#[test]
fn extract_time_codes_replaces_each_escape() {
    let mut b = PromptStringBuilder::new();
    let out = b.extract_time_codes(r"[\t] \A \u@\h \D{%Y} \D{} \\t \Dx \q");
    assert_eq!(out, r"[FLYT0000] FLYT0001 \u@\h FLYT0002 FLYT0003 \\t \Dx \q");
    let map: Vec<(String, String)> = b.time_map().clone();
    assert_eq!(
        map,
        vec![
            ("FLYT0000".to_string(), "%H:%M:%S".to_string()),
            ("FLYT0001".to_string(), "%H:%M".to_string()),
            ("FLYT0002".to_string(), "%Y".to_string()),
            ("FLYT0003".to_string(), "%T".to_string()),
        ]
    );
}

#[test]
fn extract_time_codes_twelve_hour_and_unclosed_format() {
    let mut b = PromptStringBuilder::new();
    let out = b.extract_time_codes(r"\T \@ \D{%H");
    assert_eq!(out, "FLYT0000 FLYT0001 FLYT0002");
    let fmts: Vec<String> = b.time_map().iter().map(|e| e.1.clone()).collect();
    assert_eq!(fmts, vec!["%I:%M:%S", "%I:%M %p", "%H"]);
    // A trailing backslash is kept.
    assert_eq!(b.extract_time_codes("end\\"), "end\\");
}

#[test]
fn expand_span_splits_times_animations_widgets_and_cwd() {
    let mut b = PromptStringBuilder::new();
    let text = b.extract_time_codes(r"\t SPIN W1 ~/src/x $ ");
    let anims = vec!["SPIN".to_string()];
    let widgets = vec!["W1".to_string()];
    let segs = b.expand_span_to_segments(&text, &anims, &widgets, Some("/home/u/src/x"), Some("/home/u"));
    assert_eq!(segs.len(), 8);
    assert!(matches!(&segs[0], PromptSegment::DynamicTime(f) if f == "%H:%M:%S"));
    assert_eq!(static_text(&segs[1]), Some(" "));
    assert!(matches!(segs[2], PromptSegment::Animation(0)));
    assert_eq!(static_text(&segs[3]), Some(" "));
    assert!(matches!(segs[4], PromptSegment::Widget(0)));
    assert_eq!(static_text(&segs[5]), Some(" "));
    match &segs[6] {
        PromptSegment::Cwd(parts) => assert_eq!(parts, &vec!["~", "/", "src", "/", "x"]),
        other => panic!("expected a cwd segment, got {:?}", other),
    }
    assert_eq!(static_text(&segs[7]), Some(" $ "));
}

#[test]
fn expand_span_of_empty_text_is_one_empty_static() {
    let b = PromptStringBuilder::new();
    let segs = b.expand_span_to_segments("", &vec![], &vec![], None, None);
    assert_eq!(segs.len(), 1);
    assert_eq!(static_text(&segs[0]), Some(""));
}

#[test]
fn expand_span_prefers_earliest_then_first_listed_name() {
    let b = PromptStringBuilder::new();
    let anims = vec!["ABC".to_string(), "AB".to_string(), "B".to_string()];
    let segs = b.expand_span_to_segments("xABCB", &anims, &vec![], None, None);
    assert_eq!(segs.len(), 3);
    assert_eq!(static_text(&segs[0]), Some("x"));
    assert!(matches!(segs[1], PromptSegment::Animation(0)));
    assert!(matches!(segs[2], PromptSegment::Animation(2)));
}

#[test]
fn dedup_keeps_only_the_longest_cwd_segment() {
    let mut segs = vec![
        PromptSegment::Cwd(split_cwd_text_into_spans("~/x")),
        PromptSegment::Static(" ".to_string()),
        PromptSegment::Cwd(split_cwd_text_into_spans("/home/u/x")),
    ];
    dedup_cwd_segments(&mut segs);
    assert_eq!(static_text(&segs[0]), Some("~/x"));
    assert_eq!(static_text(&segs[1]), Some(" "));
    assert!(matches!(&segs[2], PromptSegment::Cwd(p) if p.len() == 6));

    let mut ties = vec![
        PromptSegment::Cwd(split_cwd_text_into_spans("/a")),
        PromptSegment::Cwd(split_cwd_text_into_spans("/b")),
    ];
    dedup_cwd_segments(&mut ties);
    assert_eq!(static_text(&ties[0]), Some("/a"));
    assert!(matches!(&ties[1], PromptSegment::Cwd(_)));

    let mut single = vec![PromptSegment::Cwd(split_cwd_text_into_spans("/a"))];
    dedup_cwd_segments(&mut single);
    assert!(matches!(&single[0], PromptSegment::Cwd(_)));
}

fn expand(builder: &PromptStringBuilder, text: &str, anims: &[&str], widgets: &[&str]) -> Vec<PromptSegment> {
    let anims: Vec<String> = anims.iter().map(|s| s.to_string()).collect();
    let widgets: Vec<String> = widgets.iter().map(|s| s.to_string()).collect();
    builder.expand_span_to_segments(text, &anims, &widgets, None, None)
}

#[test]
fn test_expand_span_to_segments_no_placeholders() {
    let builder = PromptStringBuilder::new();
    let segs = expand(&builder, "hello world", &[], &[]);
    assert_eq!(segs.len(), 1);
    match &segs[0] {
        PromptSegment::Static(s) => assert_eq!(s, "hello world"),
        _ => panic!("expected Static"),
    }
}

#[test]
fn test_expand_span_to_segments_single_placeholder() {
    let mut builder = PromptStringBuilder::new();
    let id = builder.extract_time_codes(r"\t");
    let segs = expand(&builder, &id, &[], &[]);
    assert_eq!(segs.len(), 1);
    match &segs[0] {
        PromptSegment::DynamicTime(strftime) => {
            assert_eq!(strftime, "%H:%M:%S");
        }
        _ => panic!("expected DynamicTime"),
    }
}

#[test]
fn test_expand_span_to_segments_placeholder_surrounded_by_text() {
    let mut builder = PromptStringBuilder::new();
    let id = builder.extract_time_codes(r"\A");
    let segs = expand(&builder, &format!("prefix {} suffix", id), &[], &[]);
    assert_eq!(segs.len(), 3);
    match &segs[0] {
        PromptSegment::Static(s) => assert_eq!(s, "prefix "),
        _ => panic!("expected Static at index 0"),
    }
    match &segs[1] {
        PromptSegment::DynamicTime(strftime) => assert_eq!(strftime, "%H:%M"),
        _ => panic!("expected DynamicTime at index 1"),
    }
    match &segs[2] {
        PromptSegment::Static(s) => assert_eq!(s, " suffix"),
        _ => panic!("expected Static at index 2"),
    }
}

#[test]
fn test_expand_span_animation_not_present() {
    let builder = PromptStringBuilder::new();
    let segs = expand(&builder, "no spinner here", &["SPIN"], &[]);
    assert_eq!(segs.len(), 1);
    match &segs[0] {
        PromptSegment::Static(s) => assert_eq!(s, "no spinner here"),
        _ => panic!("expected Static"),
    }
}

#[test]
fn test_expand_span_animation_name_only() {
    let builder = PromptStringBuilder::new();
    let anims = ["SPIN"];
    let segs = expand(&builder, "SPIN", &anims, &[]);
    assert_eq!(segs.len(), 1);
    match &segs[0] {
        PromptSegment::Animation(a) => assert_eq!(anims[*a], "SPIN"),
        _ => panic!("expected Animation"),
    }
}

#[test]
fn test_expand_span_animation_name_surrounded_by_text() {
    let builder = PromptStringBuilder::new();
    let anims = ["SPIN"];
    let segs = expand(&builder, "before SPIN after", &anims, &[]);
    assert_eq!(segs.len(), 3);
    match &segs[0] {
        PromptSegment::Static(s) => assert_eq!(s, "before "),
        _ => panic!("expected Static at index 0"),
    }
    match &segs[1] {
        PromptSegment::Animation(a) => assert_eq!(anims[*a], "SPIN"),
        _ => panic!("expected Animation at index 1"),
    }
    match &segs[2] {
        PromptSegment::Static(s) => assert_eq!(s, " after"),
        _ => panic!("expected Static at index 2"),
    }
}

fn assert_widget_between(segs: &[PromptSegment], before: &str, after: &str) {
    assert_eq!(segs.len(), 3);
    match &segs[0] {
        PromptSegment::Static(s) => assert_eq!(s, before),
        _ => panic!("expected Static at 0"),
    }
    match &segs[1] {
        PromptSegment::Widget(0) => {}
        _ => panic!("expected the widget at 1"),
    }
    match &segs[2] {
        PromptSegment::Static(s) => assert_eq!(s, after),
        _ => panic!("expected Static at 2"),
    }
}

#[test]
fn test_expand_span_widget_mouse_mode_surrounded_by_text() {
    let builder = PromptStringBuilder::new();
    let segs = expand(&builder, "before MMODE after", &[], &["MMODE"]);
    assert_widget_between(&segs, "before ", " after");
}

#[test]
fn test_expand_span_widget_custom_name() {
    let builder = PromptStringBuilder::new();
    let segs = expand(&builder, "before MY_WIDGET after", &[], &["MY_WIDGET"]);
    assert_widget_between(&segs, "before ", " after");
}

#[test]
fn test_expand_span_widget_last_command_duration_surrounded_by_text() {
    let builder = PromptStringBuilder::new();
    let segs = expand(&builder, "time: MY_DUR done", &[], &["MY_DUR"]);
    assert_widget_between(&segs, "time: ", " done");
}

fn cwd_text(spans: &[String]) -> String {
    spans.iter().map(|s| s.as_str()).collect()
}

#[test]
fn test_split_span_ellipsis_then_truncated_segment_becomes_cwd() {
    let cwd = "/home/user/truncated/foo/bar";
    let segs = split_static_span_by_cwd("...uncated/foo/bar", cwd, None);
    assert_eq!(segs.len(), 1);
    match &segs[0] {
        PromptSegment::Cwd(spans) => {
            assert_eq!(cwd_text(spans), "...uncated/foo/bar");
            assert_eq!(spans[0].as_str(), "...uncated");
        }
        _ => panic!("expected Cwd segment"),
    }
}

#[test]
fn test_split_span_prefix_ellipsis_truncated_segment_in_larger_prompt() {
    let cwd = "/home/user/truncated/foo/bar";
    let segs = split_static_span_by_cwd("host ...uncated/foo/bar $ ", cwd, None);
    assert_eq!(segs.len(), 3);
    match &segs[0] {
        PromptSegment::Static(s) => assert_eq!(s.as_str(), "host "),
        _ => panic!("expected Static"),
    }
    match &segs[1] {
        PromptSegment::Cwd(spans) => {
            assert_eq!(cwd_text(spans), "...uncated/foo/bar");
            assert_eq!(spans[0].as_str(), "...uncated");
        }
        _ => panic!("expected Cwd"),
    }
    match &segs[2] {
        PromptSegment::Static(s) => assert_eq!(s.as_str(), " $ "),
        _ => panic!("expected Static"),
    }
}

#[test]
fn test_split_span_ellipsis_prefix_becomes_cwd() {
    let cwd = "/a/b/c/foo/bar";
    let segs = split_static_span_by_cwd(".../foo/bar", cwd, None);
    assert_eq!(segs.len(), 1);
    match &segs[0] {
        PromptSegment::Cwd(spans) => {
            assert_eq!(cwd_text(spans), ".../foo/bar");
            assert_eq!(spans[0].as_str(), "...");
        }
        _ => panic!("expected Cwd segment"),
    }
}

#[test]
fn test_split_span_unicode_ellipsis_prefix_becomes_cwd() {
    let cwd = "/a/b/c/foo/bar";
    let segs = split_static_span_by_cwd("…/foo/bar", cwd, None);
    assert_eq!(segs.len(), 1);
    match &segs[0] {
        PromptSegment::Cwd(spans) => {
            assert_eq!(spans[0].as_str(), "…");
        }
        _ => panic!("expected Cwd segment"),
    }
}

#[test]
fn test_split_span_truncated_segment_prefix_becomes_cwd() {
    let cwd = "/home/user/truncated/foo/bar";
    let segs = split_static_span_by_cwd("uncated/foo/bar", cwd, None);
    assert_eq!(segs.len(), 1);
    match &segs[0] {
        PromptSegment::Cwd(spans) => {
            assert_eq!(cwd_text(spans), "uncated/foo/bar");
            assert_eq!(spans[0].as_str(), "uncated");
        }
        _ => panic!("expected Cwd segment"),
    }
}

#[test]
fn test_split_span_ellipsis_in_larger_prompt() {
    let cwd = "/a/b/c/foo/bar";
    let segs = split_static_span_by_cwd("user@host .../foo/bar $ ", cwd, None);
    assert_eq!(segs.len(), 3);
    match &segs[0] {
        PromptSegment::Static(s) => assert_eq!(s.as_str(), "user@host "),
        _ => panic!("expected Static"),
    }
    match &segs[1] {
        PromptSegment::Cwd(spans) => {
            assert_eq!(cwd_text(spans), ".../foo/bar");
            assert_eq!(spans[0].as_str(), "...");
        }
        _ => panic!("expected Cwd"),
    }
    match &segs[2] {
        PromptSegment::Static(s) => assert_eq!(s.as_str(), " $ "),
        _ => panic!("expected Static"),
    }
}

#[test]
fn test_expand_span_cwd_tilde_path() {
    let builder = PromptStringBuilder::new();
    let segs = builder.expand_span_to_segments(
        "otherpartofheprompt~/qwe/try/ooh/lkj:$",
        &vec![],
        &vec![],
        Some("/home/foo/qwe/try/ooh/lkj"),
        Some("/home/foo"),
    );
    let cwd_seg = segs.iter().find(|s| matches!(s, PromptSegment::Cwd(_)));
    match cwd_seg.expect("expected a Cwd segment") {
        PromptSegment::Cwd(spans) => {
            assert_eq!(cwd_text(spans), "~/qwe/try/ooh/lkj");
        }
        _ => unreachable!(),
    }
}

#[test]
fn test_format_prompt_line_ellipsis_prefix_is_selectable() {
    // ".../foo/bar" → ["...", "/", "foo", "/", "bar"]
    // Selectable spans: "..." (i=0, first), "foo", "bar" → 3 total
    // Indices: "..." → 2, "foo" → 1, "bar" → 0
    let spans = split_cwd_text_into_spans(".../foo/bar");
    let tags = cwd_piece_tags(&spans);
    assert_eq!(tags.len(), 5);
    assert_eq!(tags[0], Some(2));
    assert_eq!(tags[1], None);
    assert_eq!(tags[2], Some(1));
    assert_eq!(tags[3], None);
    assert_eq!(tags[4], Some(0));
}

#[test]
fn test_format_prompt_line_truncated_segment_is_selectable() {
    // "uncated/foo/bar" → ["uncated", "/", "foo", "/", "bar"]
    // "uncated" is at i=0 → selectable
    let spans = split_cwd_text_into_spans("uncated/foo/bar");
    let tags = cwd_piece_tags(&spans);
    assert_eq!(tags.len(), 5);
    assert_eq!(tags[0], Some(2));
    assert_eq!(tags[2], Some(1));
    assert_eq!(tags[4], Some(0));
}

#[test]
fn test_format_prompt_line_cwd_tags() {
    // "~/foo/bar" → 5 spans ["~", "/", "foo", "/", "bar"];
    // selectable spans are "~", "foo", "bar" (3 total).
    let spans = split_cwd_text_into_spans("~/foo/bar");
    let tags = cwd_piece_tags(&spans);
    assert_eq!(tags.len(), 5);
    assert_eq!(tags[0], Some(2));
    assert_eq!(tags[1], None);
    assert_eq!(tags[2], Some(1));
    assert_eq!(tags[3], None);
    assert_eq!(tags[4], Some(0));
}

#[test]
fn test_format_prompt_line_cwd_single_segment_tag() {
    let spans = split_cwd_text_into_spans("~");
    let tags = cwd_piece_tags(&spans);
    assert_eq!(tags.len(), 1);
    assert_eq!(tags[0], Some(0));
}

#[test]
fn cwd_tags_of_an_absolute_path() {
    let spans = split_cwd_text_into_spans("/home/foo");
    assert_eq!(cwd_piece_tags(&spans), vec![Some(2), Some(1), None, Some(0)]);
}

fn assert_single_widget(segs: &[PromptSegment]) {
    assert_eq!(segs.len(), 1);
    match &segs[0] {
        PromptSegment::Widget(0) => {}
        _ => panic!("expected the widget"),
    }
}

#[test]
fn test_expand_span_widget_mouse_mode_name_only() {
    let builder = PromptStringBuilder::new();
    let segs = expand(&builder, "MOUSE_WIDGET", &[], &["MOUSE_WIDGET"]);
    assert_single_widget(&segs);
}

#[test]
fn test_expand_span_widget_copy_buffer_name_only() {
    let builder = PromptStringBuilder::new();
    let segs = expand(&builder, "COPY_WIDGET", &[], &["COPY_WIDGET"]);
    assert_single_widget(&segs);
}

#[test]
fn test_expand_span_widget_last_command_duration_name() {
    let builder = PromptStringBuilder::new();
    let segs = expand(&builder, "FLYLINE_LAST_COMMAND_DURATION", &[], &["FLYLINE_LAST_COMMAND_DURATION"]);
    assert_single_widget(&segs);
}
