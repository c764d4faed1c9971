use flyline::history::{merges, Snapshot, SnapshotManager, UNDO_MERGE_WINDOW_MS};
use flyline::text_buffer::{SubString, TextBuffer, WordDelim};

fn create_substring(buffer: &str, word: &str) -> SubString {
    let start = buffer.find(word).unwrap();
    SubString {
        s: word.to_string(),
        start,
    }
}

#[test]
fn no_selection_by_default() {
    let tb = TextBuffer::new("hello");
    assert!(tb.selection_byte().is_none());
    assert!(tb.selection_range().is_none());
    assert!(tb.selected_text().is_none());
}

#[test]
fn start_selection_anchors_at_cursor() {
    let mut tb = TextBuffer::new("hello");
    tb.move_to_start();
    tb.start_selection_if_none();
    assert_eq!(tb.selection_byte(), Some(0));
    // Empty selection — anchor equals cursor — yields no range.
    assert!(tb.selection_range().is_none());
    tb.move_right_selection();
    tb.move_right_selection();
    assert_eq!(tb.selection_range(), Some(0..2));
    assert_eq!(tb.selected_text().as_deref(), Some("he"));
}

#[test]
fn start_selection_is_idempotent() {
    let mut tb = TextBuffer::new("hello");
    tb.move_to_start();
    tb.start_selection_if_none();
    tb.move_right_selection();
    tb.start_selection_if_none(); // should not move the anchor
    assert_eq!(tb.selection_byte(), Some(0));
    assert_eq!(tb.selection_range(), Some(0..1));
}

#[test]
fn selection_range_is_normalised_when_cursor_left_of_anchor() {
    let mut tb = TextBuffer::new("hello");
    // Cursor is at end (5).
    tb.move_left_selection();
    tb.move_left_selection();
    assert_eq!(tb.selection_byte(), Some(5));
    assert_eq!(tb.selection_range(), Some(3..5));
    assert_eq!(tb.selected_text().as_deref(), Some("lo"));
}

#[test]
fn clear_selection_removes_anchor() {
    let mut tb = TextBuffer::new("hello");
    tb.move_to_start();
    tb.move_right_selection();
    assert!(tb.selection_range().is_some());
    tb.clear_selection();
    assert!(tb.selection_byte().is_none());
    assert!(tb.selection_range().is_none());
}

#[test]
fn delete_selection_removes_selected_text() {
    let mut tb = TextBuffer::new("hello world");
    tb.move_to_start();
    tb.move_right_selection();
    tb.move_right_selection();
    tb.move_right_selection();
    tb.move_right_selection();
    tb.move_right_selection();
    assert_eq!(tb.selected_text().as_deref(), Some("hello"));
    assert!(tb.delete_selection());
    assert_eq!(tb.buffer(), " world");
    assert_eq!(tb.cursor_byte_pos(), 0);
    assert!(tb.selection_byte().is_none());
}

#[test]
fn delete_selection_with_cursor_left_of_anchor() {
    let mut tb = TextBuffer::new("hello");
    // Cursor at end (5), select backwards.
    tb.move_left_selection();
    tb.move_left_selection();
    assert_eq!(tb.selection_range(), Some(3..5));
    assert!(tb.delete_selection());
    assert_eq!(tb.buffer(), "hel");
    assert_eq!(tb.cursor_byte_pos(), 3);
}

#[test]
fn delete_selection_with_no_selection_is_noop() {
    let mut tb = TextBuffer::new("hello");
    assert!(!tb.delete_selection());
    assert_eq!(tb.buffer(), "hello");
}

#[test]
fn delete_selection_can_be_undone() {
    let mut tb = TextBuffer::new("hello");
    tb.move_to_start();
    tb.move_right_selection();
    tb.move_right_selection();
    assert!(tb.delete_selection());
    assert_eq!(tb.buffer(), "llo");
    tb.undo();
    assert_eq!(tb.buffer(), "hello");
}

#[test]
fn surround_selection_wraps_text() {
    let mut tb = TextBuffer::new("hello world");
    tb.move_to_start();
    tb.move_right_selection();
    tb.move_right_selection();
    tb.move_right_selection();
    tb.move_right_selection();
    tb.move_right_selection();
    assert_eq!(tb.selected_text().as_deref(), Some("hello"));
    assert!(tb.surround_selection('(', ')'));
    assert_eq!(tb.buffer(), "(hello) world");
    assert_eq!(tb.cursor_byte_pos(), 6); // after ')'
    assert_eq!(tb.selection_byte(), Some(1));
}

#[test]
fn surround_selection_with_cursor_left_of_anchor() {
    let mut tb = TextBuffer::new("hello");
    // Cursor at end, select backwards.
    tb.move_left_selection();
    tb.move_left_selection();
    assert_eq!(tb.selection_range(), Some(3..5));
    assert!(tb.surround_selection('"', '"'));
    assert_eq!(tb.buffer(), "hel\"lo\"");
    assert_eq!(tb.cursor_byte_pos(), 6);
    assert_eq!(tb.selection_byte(), Some(4));
}

#[test]
fn surround_selection_with_no_selection_is_noop() {
    let mut tb = TextBuffer::new("hello");
    assert!(!tb.surround_selection('(', ')'));
    assert_eq!(tb.buffer(), "hello");
}

#[test]
fn surround_selection_can_be_undone() {
    let mut tb = TextBuffer::new("hello");
    tb.move_to_start();
    tb.move_right_selection();
    tb.move_right_selection();
    assert!(tb.surround_selection('[', ']'));
    assert_eq!(tb.buffer(), "[he]llo");
    tb.undo();
    assert_eq!(tb.buffer(), "hello");
}

#[test]
fn text_buffer_creation() {
    let tb = TextBuffer::new("abc");
    assert_eq!(tb.buffer(), "abc");
    assert_eq!(tb.cursor_byte_pos(), 3);
}

#[test]
fn move_cursor_left() {
    let mut tb = TextBuffer::new("test 👩‍💻");
    assert_eq!(tb.cursor_byte_pos(), 16);
    tb.move_left();
    assert_eq!(tb.cursor_byte_pos(), 5);
    tb.move_left();
    tb.move_left();
    tb.move_left();
    tb.move_left();
    assert_eq!(tb.cursor_byte_pos(), 1);
    tb.move_left();
    assert_eq!(tb.cursor_byte_pos(), 0);
    tb.move_left();
    assert_eq!(tb.cursor_byte_pos(), 0);
}

#[test]
fn move_cursor_right() {
    let mut tb = TextBuffer::new("test 👩‍💻");
    tb.move_left();
    tb.move_left();
    tb.move_left();
    assert_eq!(tb.cursor_byte_pos(), 3);
    tb.move_right();
    assert_eq!(tb.cursor_byte_pos(), 4);
    tb.move_right();
    assert_eq!(tb.cursor_byte_pos(), 5);
    tb.move_right();
    assert_eq!(tb.cursor_byte_pos(), 16);
    tb.move_right();
    assert_eq!(tb.cursor_byte_pos(), 16);
}

#[test]
fn move_one_word_left() {
    let mut tb = TextBuffer::new("abc    def   asdfasdf");
    tb.move_end_of_line();
    tb.move_left();
    tb.move_one_word_left(WordDelim::WhiteSpace);
    assert_eq!(tb.cursor_byte_pos(), "abc    def   ".len());
    tb.move_one_word_left(WordDelim::WhiteSpace);
    assert_eq!(tb.cursor_byte_pos(), "abc    ".len());
    tb.move_one_word_left(WordDelim::WhiteSpace);
    assert_eq!(tb.cursor_byte_pos(), "".len());
}

#[test]
fn move_one_word_right() {
    let mut tb = TextBuffer::new("  abc def");
    tb.move_to_start();
    tb.move_one_word_right(WordDelim::WhiteSpace);
    assert_eq!(tb.cursor_byte_pos(), "  abc".len());
    tb.move_one_word_right(WordDelim::WhiteSpace);
    assert_eq!(tb.cursor_byte_pos(), "  abc def".len());
}

#[test]
fn move_right_one_word_extend_selection_smart_from_middle_of_word() {
    // Cursor in the middle of "abc": first press selects "bc", second press
    // grows the selection backward to include the whole word "abc",
    // subsequent presses continue extending word by word to the right.
    let mut tb = TextBuffer::new("abc def ghi");
    tb.try_move_cursor_to_byte_pos(1, false); // between 'a' and 'b'

    tb.move_right_one_word_whitespace_extend_selection();
    assert_eq!(tb.selection_byte(), Some(1));
    assert_eq!(tb.cursor_byte_pos(), 3);
    assert_eq!(tb.selected_text().as_deref(), Some("bc"));

    tb.move_right_one_word_whitespace_extend_selection();
    assert_eq!(tb.selection_byte(), Some(0));
    assert_eq!(tb.cursor_byte_pos(), 3);
    assert_eq!(tb.selected_text().as_deref(), Some("abc"));

    tb.move_right_one_word_whitespace_extend_selection();
    assert_eq!(tb.selection_byte(), Some(0));
    assert_eq!(tb.cursor_byte_pos(), "abc def".len());
    assert_eq!(tb.selected_text().as_deref(), Some("abc def"));

    tb.move_right_one_word_whitespace_extend_selection();
    assert_eq!(tb.selection_byte(), Some(0));
    assert_eq!(tb.cursor_byte_pos(), "abc def ghi".len());
    assert_eq!(tb.selected_text().as_deref(), Some("abc def ghi"));
}

#[test]
fn move_right_one_word_extend_selection_from_start_of_word() {
    // Cursor at the start of "abc" (anchor would not be inside a word) —
    // behaves as a plain word-extending selection.
    let mut tb = TextBuffer::new("abc def");
    tb.move_to_start();
    tb.move_right_one_word_whitespace_extend_selection();
    assert_eq!(tb.selection_byte(), Some(0));
    assert_eq!(tb.cursor_byte_pos(), 3);
    tb.move_right_one_word_whitespace_extend_selection();
    assert_eq!(tb.selection_byte(), Some(0));
    assert_eq!(tb.cursor_byte_pos(), "abc def".len());
}

#[test]
fn move_right_one_word_extend_selection_anchor_at_end_of_word() {
    // Anchor immediately after a word ('c' before, ' ' after) is not
    // "inside a word", so the cursor advances normally.
    let mut tb = TextBuffer::new("abc def");
    tb.try_move_cursor_to_byte_pos(3, false); // right after 'c'
    tb.move_right_one_word_whitespace_extend_selection();
    assert_eq!(tb.selection_byte(), Some(3));
    assert_eq!(tb.cursor_byte_pos(), "abc def".len());
    tb.move_right_one_word_whitespace_extend_selection();
    assert_eq!(tb.selection_byte(), Some(3));
    assert_eq!(tb.cursor_byte_pos(), "abc def".len());
}

#[test]
fn move_left_one_word_extend_selection_smart_from_middle_of_word() {
    // Cursor in the middle of "ghi": first press selects "gh", second press
    // grows the selection forward to include the whole word "ghi",
    // subsequent presses continue extending word by word to the left.
    let mut tb = TextBuffer::new("abc def ghi");
    tb.try_move_cursor_to_byte_pos("abc def gh".len(), false); // between 'h' and 'i'

    tb.move_left_one_word_whitespace_extend_selection();
    assert_eq!(tb.selection_byte(), Some("abc def gh".len()));
    assert_eq!(tb.cursor_byte_pos(), "abc def ".len());
    assert_eq!(tb.selected_text().as_deref(), Some("gh"));

    tb.move_left_one_word_whitespace_extend_selection();
    assert_eq!(tb.selection_byte(), Some("abc def ghi".len()));
    assert_eq!(tb.cursor_byte_pos(), "abc def ".len());
    assert_eq!(tb.selected_text().as_deref(), Some("ghi"));

    tb.move_left_one_word_whitespace_extend_selection();
    assert_eq!(tb.selection_byte(), Some("abc def ghi".len()));
    assert_eq!(tb.cursor_byte_pos(), "abc ".len());
    assert_eq!(tb.selected_text().as_deref(), Some("def ghi"));

    tb.move_left_one_word_whitespace_extend_selection();
    assert_eq!(tb.selection_byte(), Some("abc def ghi".len()));
    assert_eq!(tb.cursor_byte_pos(), 0);
    assert_eq!(tb.selected_text().as_deref(), Some("abc def ghi"));
}

#[test]
fn move_left_one_word_extend_selection_from_end_of_word() {
    // Cursor at the end of "ghi" (anchor would not be inside a word) —
    // behaves as a plain word-extending selection.
    let mut tb = TextBuffer::new("abc def");
    tb.move_end_of_line();
    tb.move_left_one_word_whitespace_extend_selection();
    assert_eq!(tb.selection_byte(), Some("abc def".len()));
    assert_eq!(tb.cursor_byte_pos(), "abc ".len());
    tb.move_left_one_word_whitespace_extend_selection();
    assert_eq!(tb.selection_byte(), Some("abc def".len()));
    assert_eq!(tb.cursor_byte_pos(), 0);
}

#[test]
fn move_left_one_word_extend_selection_anchor_at_start_of_word() {
    // Anchor immediately before a word (' ' before, 'd' after) is not
    // "inside a word", so the cursor moves normally.
    let mut tb = TextBuffer::new("abc def");
    tb.try_move_cursor_to_byte_pos("abc ".len(), false); // right before 'd'
    tb.move_left_one_word_whitespace_extend_selection();
    assert_eq!(tb.selection_byte(), Some("abc ".len()));
    assert_eq!(tb.cursor_byte_pos(), 0);
    tb.move_left_one_word_whitespace_extend_selection();
    assert_eq!(tb.selection_byte(), Some("abc ".len()));
    assert_eq!(tb.cursor_byte_pos(), 0);
}

#[test]
fn move_one_word_left_fine_grained_basic() {
    // Stops at punctuation boundaries (no slashes → full punctuation mode).
    let mut tb = TextBuffer::new("abc::def::ghi");
    tb.move_end_of_line();
    tb.move_one_word_left_fine_grained();
    assert_eq!(tb.cursor_byte_pos(), "abc::def::".len());
    tb.move_one_word_left_fine_grained();
    assert_eq!(tb.cursor_byte_pos(), "abc::def".len());
    tb.move_one_word_left_fine_grained();
    assert_eq!(tb.cursor_byte_pos(), "abc::".len());
    tb.move_one_word_left_fine_grained();
    assert_eq!(tb.cursor_byte_pos(), "abc".len());
    tb.move_one_word_left_fine_grained();
    assert_eq!(tb.cursor_byte_pos(), 0);
}

#[test]
fn move_one_word_right_fine_grained_basic() {
    // Stops at punctuation boundaries (no slashes → full punctuation mode).
    let mut tb = TextBuffer::new("abc::def::ghi");
    tb.move_to_start();
    tb.move_one_word_right_fine_grained();
    assert_eq!(tb.cursor_byte_pos(), "abc".len());
    tb.move_one_word_right_fine_grained();
    assert_eq!(tb.cursor_byte_pos(), "abc::".len());
    tb.move_one_word_right_fine_grained();
    assert_eq!(tb.cursor_byte_pos(), "abc::def".len());
    tb.move_one_word_right_fine_grained();
    assert_eq!(tb.cursor_byte_pos(), "abc::def::".len());
    tb.move_one_word_right_fine_grained();
    assert_eq!(tb.cursor_byte_pos(), "abc::def::ghi".len());
}

#[test]
fn move_one_word_left_fine_grained_path() {
    // When the word contains slashes, only '/' and '\' are boundaries.
    let mut tb = TextBuffer::new("echo ./foo_bar/baz.jeb");
    tb.move_end_of_line();
    tb.move_one_word_left_fine_grained();
    assert_eq!(tb.cursor_byte_pos(), "echo ./foo_bar/".len());
    tb.move_one_word_left_fine_grained();
    assert_eq!(tb.cursor_byte_pos(), "echo ./foo_bar".len());
    tb.move_one_word_left_fine_grained();
    assert_eq!(tb.cursor_byte_pos(), "echo ./".len());
    tb.move_one_word_left_fine_grained();
    assert_eq!(tb.cursor_byte_pos(), "echo .".len());
    tb.move_one_word_left_fine_grained();
    assert_eq!(tb.cursor_byte_pos(), "echo ".len());
    // "echo" now has a slash to the right, so slash-only mode keeps it whole.
    tb.move_one_word_left_fine_grained();
    assert_eq!(tb.cursor_byte_pos(), "echo".len());
    tb.move_one_word_left_fine_grained();
    assert_eq!(tb.cursor_byte_pos(), 0);
}

#[test]
fn move_one_word_right_fine_grained_path() {
    // When the word contains slashes, only '/' and '\' are boundaries.
    let mut tb = TextBuffer::new("echo ./foo_bar/baz.jeb");
    tb.move_to_start();
    tb.move_one_word_right_fine_grained();
    assert_eq!(tb.cursor_byte_pos(), "echo".len());
    tb.move_one_word_right_fine_grained();
    assert_eq!(tb.cursor_byte_pos(), "echo ".len());
    // "./" contains a slash → slash-only mode; '.' and 'f' have different classes
    tb.move_one_word_right_fine_grained();
    assert_eq!(tb.cursor_byte_pos(), "echo .".len());
    tb.move_one_word_right_fine_grained();
    assert_eq!(tb.cursor_byte_pos(), "echo ./".len());
    tb.move_one_word_right_fine_grained();
    assert_eq!(tb.cursor_byte_pos(), "echo ./foo_bar".len());
    tb.move_one_word_right_fine_grained();
    assert_eq!(tb.cursor_byte_pos(), "echo ./foo_bar/".len());
    // Slash still present to the left → slash-only mode; whole "baz.jeb" as one segment.
    tb.move_one_word_right_fine_grained();
    assert_eq!(tb.cursor_byte_pos(), "echo ./foo_bar/baz.jeb".len());
}

#[test]
fn move_one_word_fine_grained_edge_cases() {
    // Empty buffer: both directions stay at 0.
    let mut tb = TextBuffer::new("");
    tb.move_one_word_left_fine_grained();
    assert_eq!(tb.cursor_byte_pos(), 0);
    tb.move_one_word_right_fine_grained();
    assert_eq!(tb.cursor_byte_pos(), 0);

    // Whitespace-only: left from end stops at start; right from start goes to end.
    let mut tb = TextBuffer::new("   ");
    tb.move_end_of_line();
    tb.move_one_word_left_fine_grained();
    assert_eq!(tb.cursor_byte_pos(), 0);
    tb.move_one_word_right_fine_grained();
    assert_eq!(tb.cursor_byte_pos(), "   ".len());

    // Starts/ends with punctuation.
    let mut tb = TextBuffer::new("::abc::");
    tb.move_to_start();
    tb.move_one_word_right_fine_grained();
    assert_eq!(tb.cursor_byte_pos(), "::".len());
    tb.move_one_word_right_fine_grained();
    assert_eq!(tb.cursor_byte_pos(), "::abc".len());
    tb.move_one_word_right_fine_grained();
    assert_eq!(tb.cursor_byte_pos(), "::abc::".len());

    let mut tb2 = TextBuffer::new("::abc::");
    tb2.move_end_of_line();
    tb2.move_one_word_left_fine_grained();
    assert_eq!(tb2.cursor_byte_pos(), "::abc".len());
    tb2.move_one_word_left_fine_grained();
    assert_eq!(tb2.cursor_byte_pos(), "::".len());
    tb2.move_one_word_left_fine_grained();
    assert_eq!(tb2.cursor_byte_pos(), 0);
}

#[test]
fn move_line_up() {
    let mut tb = TextBuffer::new("Line 1\nLine 2\nLine 3");
    tb.move_end_of_line();
    tb.move_line_up();
    assert_eq!(tb.cursor_byte_pos(), "Line 1\nLine 2".len());
    tb.move_line_up();
    assert_eq!(tb.cursor_byte_pos(), "Line 1".len());
}

#[test]
fn move_line_down() {
    let mut tb = TextBuffer::new("Line 1\nLine 2\nLine 3");
    tb.move_to_start();
    tb.move_line_down();
    assert_eq!(tb.cursor_2d_position(), (1, 0));
    tb.move_right();
    tb.move_right();
    tb.move_right();
    tb.move_right();
    assert_eq!(tb.cursor_byte_pos(), "Line 1\nLine".len());
    tb.move_line_down();
    assert_eq!(tb.cursor_byte_pos(), "Line 1\nLine 2\nLine".len());
}

#[test]
fn move_line_to_down_onto_empty_final_line() {
    let mut tb = TextBuffer::new("Line 1\nLine 2\n");
    tb.move_to_start();
    tb.move_line_down();
    assert_eq!(tb.cursor_2d_position(), (1, 0));
    tb.move_line_down();
    assert_eq!(tb.cursor_2d_position(), (2, 0));
    assert_eq!(tb.cursor_byte_pos(), "Line 1\nLine 2\n".len());
}

#[test]
fn zwj_emoji_insertion() {
    let mut tb = TextBuffer::new("test ");
    assert_eq!(tb.cursor_byte_pos(), 5);
    tb.insert_char('👩');
    assert_eq!(tb.cursor_byte_pos(), 5 + 4);
    tb.insert_char('\u{200d}'); // ZWJ
    assert_eq!(tb.cursor_byte_pos(), 5 + 4 + 3);
    tb.insert_char('💻');
    assert_eq!(tb.buffer(), "test 👩‍💻");
    assert_eq!(tb.cursor_byte_pos(), 5 + 4 + 3 + 4);
}

#[test]
fn insert_char_emoji_with_modifier() {
    // Emoji with skin tone modifier (should be treated as single grapheme)
    let mut tb = TextBuffer::new("wave ");
    tb.insert_char('👋');
    tb.insert_char('\u{1F3FB}'); // Light skin tone modifier
    assert_eq!(tb.buffer(), "wave 👋🏻");
    assert_eq!(tb.cursor_byte_pos(), 13); // Base emoji (4 bytes) + modifier (4 bytes) + "wave " (5 bytes)
}

#[test]
fn insert_char_combining_diacritics() {
    // Character with combining diacritical marks (NFD form)
    let mut tb = TextBuffer::new("caf");
    tb.insert_char('e');
    tb.insert_char('\u{0301}'); // Combining acute accent
    assert_eq!(tb.buffer(), "cafe\u{0301}"); // NFD (decomposed) form
    assert_eq!(tb.cursor_byte_pos(), 6); // 'e' (1 byte) + combining accent (2 bytes) + "caf" (3 bytes)
}

#[test]
fn insert_char_regional_indicator() {
    // Regional indicator symbols (flag emojis are pairs of these)
    let mut tb = TextBuffer::new("Flag: ");
    tb.insert_char('🇺'); // Regional indicator U
    tb.insert_char('🇸'); // Regional indicator S
    assert_eq!(tb.buffer(), "Flag: 🇺🇸");
    assert_eq!(tb.cursor_byte_pos(), 14); // Each regional indicator is 4 bytes
}

#[test]
fn insert_str_mixed_width_characters() {
    // Mix of ASCII, wide characters (CJK), and emoji
    let mut tb = TextBuffer::new("Start: ");
    tb.insert_str("Hello 世界 🌍");
    assert_eq!(tb.buffer(), "Start: Hello 世界 🌍");
    // "Start: " = 7, "Hello " = 6, "世界" = 6, " " = 1, "🌍" = 4 = 24 bytes total
    assert_eq!(tb.cursor_byte_pos(), 24);
}

#[test]
fn insert_str_family_emoji_sequence() {
    // Family emoji is a ZWJ sequence of multiple emojis
    let mut tb = TextBuffer::new("Family: ");
    tb.insert_str("👨‍👩‍👧‍👦"); // Man, woman, girl, boy with ZWJ
    assert_eq!(tb.buffer(), "Family: 👨‍👩‍👧‍👦");
    // This is: 👨 (4) + ZWJ (3) + 👩 (4) + ZWJ (3) + 👧 (4) + ZWJ (3) + 👦 (4) = 25 bytes
    assert_eq!(tb.cursor_byte_pos(), 33); // "Family: " (8) + emoji sequence (25)
}

#[test]
fn insert_str_right_to_left_text() {
    // Arabic and Hebrew text (right-to-left scripts)
    let mut tb = TextBuffer::new("Text: ");
    tb.insert_str("مرحبا שלום"); // Arabic "hello" + space + Hebrew "hello"
    assert_eq!(tb.buffer(), "Text: مرحبا שלום");
    // "Text: " = 6, "مرحبا" = 10 bytes, " " = 1, "שלום" = 8 bytes
    assert_eq!(tb.cursor_byte_pos(), 25);
}

#[test]
fn insert_str_zero_width_joiner_sequences() {
    // Multiple ZWJ sequences in one string
    let mut tb = TextBuffer::new("");
    tb.insert_str("👨‍💻 and 👩‍🔬"); // Programmer and scientist
    assert_eq!(tb.buffer(), "👨‍💻 and 👩‍🔬");
    // 👨‍💻 = 11 bytes, " and " = 5 bytes, 👩‍🔬 = 11 bytes
    assert_eq!(tb.cursor_byte_pos(), 27);
}

#[test]
fn delete_back() {
    let mut tb = TextBuffer::new("Hello, World!");
    tb.delete_left();
    assert_eq!(tb.buffer(), "Hello, World");
    tb.delete_left();
    assert_eq!(tb.buffer(), "Hello, Worl");
    tb.delete_left();
    assert_eq!(tb.buffer(), "Hello, Wor");
}

#[test]
fn replace_word_under_cursor_at_start_of_line() {
    // Cursor at position 0 (start of line) with non-ASCII word
    let mut tb = TextBuffer::new("café option 日本語 🎯");
    tb.move_to_start(); // Cursor at position 0, at start of "café"
    tb.replace_word_under_cursor("coffee", &create_substring(&tb.buffer(), "café"))
        .unwrap();
    assert_eq!(tb.buffer(), "coffee option 日本語 🎯");
    assert_eq!(tb.cursor_byte_pos(), "coffee".len());
}

#[test]
fn replace_word_under_cursor_in_middle_of_word() {
    // Cursor in the middle of a word with Cyrillic characters
    let mut tb = TextBuffer::new("git файл --message 'привет' 🚀");
    tb.move_to_start();
    for _ in 0..6 {
        tb.move_right();
    } // Position at "git фа|йл" (middle of "файл")
    tb.replace_word_under_cursor("file", &create_substring(&tb.buffer(), "файл"))
        .unwrap();
    assert_eq!(tb.buffer(), "git file --message 'привет' 🚀");
    assert_eq!(tb.cursor_byte_pos(), "git file".len());
}

#[test]
fn replace_word_under_cursor_at_end_of_line() {
    // Cursor at the end of line on an emoji word
    let mut tb = TextBuffer::new("hello world 🎉🎊🎈");
    // Cursor is already at the end, on the emoji sequence
    tb.replace_word_under_cursor("celebration", &create_substring(&tb.buffer(), "🎉🎊🎈"))
        .unwrap();
    assert_eq!(tb.buffer(), "hello world celebration");
    assert_eq!(tb.cursor_byte_pos(), "hello world celebration".len());
}

#[test]
fn replace_word_under_cursor_accented_at_word_end() {
    // Cursor at the end of a word with heavy accents
    let mut tb = TextBuffer::new("find naïve résumé café 📄");
    tb.move_to_start();
    for _ in 0..10 {
        tb.move_right();
    } // Position at "find naïve| résumé" (end of "naïve")
    tb.replace_word_under_cursor("simple", &create_substring(&tb.buffer(), "naïve"))
        .unwrap();
    assert_eq!(tb.buffer(), "find simple résumé café 📄");
    assert_eq!(tb.cursor_byte_pos(), "find simple".len());
}

#[test]
#[should_panic(expected = "range was out of bounds")]
fn replace_word_under_cursor_out_of_bounds() {
    // Cursor at the end of a word with heavy accents
    let mut tb = TextBuffer::new("find naïve résumé café 📄");
    tb.move_to_start();
    tb.replace_word_under_cursor(
        "test",
        &SubString {
            s: "nonexistent".to_string(),
            start: 100,
        },
    )
    .unwrap();
}

#[test]
#[should_panic(expected = "Expected word 'wrong_word' at position 0, but found 'hello worl'")]
fn replace_word_under_cursor_wrong_word() {
    // Cursor at the end of a word with heavy accents
    let mut tb = TextBuffer::new("hello world");
    tb.move_to_start();
    tb.replace_word_under_cursor(
        "test",
        &SubString {
            s: "wrong_word".to_string(),
            start: 0,
        },
    )
    .unwrap();
}

#[test]
fn delete_one_word_left() {
    let mut tb = TextBuffer::new("cargo test abc::def::ghi   /etc/asd");
    tb.move_end_of_line();
    tb.delete_one_word_left(WordDelim::WhiteSpace);
    assert_eq!(tb.buffer(), "cargo test abc::def::ghi   ");
    // Two or more contiguous trailing whitespace chars are deleted alone,
    // without consuming the previous word.
    tb.delete_one_word_left(WordDelim::WhiteSpace);
    assert_eq!(tb.buffer(), "cargo test abc::def::ghi");
    tb.delete_one_word_left(WordDelim::WhiteSpace);
    assert_eq!(tb.buffer(), "cargo test ");
    tb.delete_one_word_left(WordDelim::WhiteSpace);
    assert_eq!(tb.buffer(), "cargo ");
}

#[test]
fn delete_one_word_left_trailing_whitespace_cases() {
    // Single trailing whitespace: delete the whitespace AND the previous word.
    let mut tb = TextBuffer::new("foo ");
    tb.move_end_of_line();
    tb.delete_one_word_left(WordDelim::WhiteSpace);
    assert_eq!(tb.buffer(), "");

    // Two trailing whitespace chars: delete just the whitespace.
    let mut tb = TextBuffer::new("foo  ");
    tb.move_end_of_line();
    tb.delete_one_word_left(WordDelim::WhiteSpace);
    assert_eq!(tb.buffer(), "foo");

    // Many trailing whitespace chars: delete just the whitespace.
    let mut tb = TextBuffer::new("foo           ");
    tb.move_end_of_line();
    tb.delete_one_word_left(WordDelim::WhiteSpace);
    assert_eq!(tb.buffer(), "foo");

    // No trailing whitespace: delete the word.
    let mut tb = TextBuffer::new("foo");
    tb.move_end_of_line();
    tb.delete_one_word_left(WordDelim::WhiteSpace);
    assert_eq!(tb.buffer(), "");
}

#[test]
fn delete_one_word_left_less_strict() {
    let mut tb = TextBuffer::new("cargo test abc::def::ghi   /etc/asd");
    tb.move_end_of_line();
    tb.delete_one_word_left(WordDelim::FineGrained);
    assert_eq!(tb.buffer(), "cargo test abc::def::ghi   /etc/");
    tb.delete_one_word_left(WordDelim::FineGrained);
    assert_eq!(tb.buffer(), "cargo test abc::def::ghi   /etc");
    tb.delete_one_word_left(WordDelim::FineGrained);
    assert_eq!(tb.buffer(), "cargo test abc::def::ghi   /");
    tb.delete_one_word_left(WordDelim::FineGrained);
    assert_eq!(tb.buffer(), "cargo test abc::def::ghi   ");
    tb.delete_one_word_left(WordDelim::FineGrained);
    assert_eq!(tb.buffer(), "cargo test abc::def::ghi");
    tb.delete_one_word_left(WordDelim::FineGrained);
    assert_eq!(tb.buffer(), "cargo test abc::def::");
    tb.delete_one_word_left(WordDelim::FineGrained);
    assert_eq!(tb.buffer(), "cargo test abc::def");
    tb.delete_one_word_left(WordDelim::FineGrained);
    assert_eq!(tb.buffer(), "cargo test abc::");
    tb.delete_one_word_left(WordDelim::FineGrained);
    assert_eq!(tb.buffer(), "cargo test abc");
}

#[test]
fn delete_one_word_left_less_strict_single_space_also_deletes_word_part() {
    let mut tb = TextBuffer::new("foo bar");
    tb.move_end_of_line();
    tb.delete_one_word_left(WordDelim::FineGrained);
    assert_eq!(tb.buffer(), "foo ");

    tb.delete_one_word_left(WordDelim::FineGrained);
    assert_eq!(tb.buffer(), "");
}

#[test]
fn delete_one_word_right() {
    let mut tb = TextBuffer::new("cargo test abc::def::ghi   /etc/asd");
    tb.move_start_of_line();
    tb.delete_right_one_word(WordDelim::WhiteSpace);
    assert_eq!(tb.buffer(), " test abc::def::ghi   /etc/asd");
    tb.delete_right_one_word(WordDelim::WhiteSpace);
    assert_eq!(tb.buffer(), " abc::def::ghi   /etc/asd");
    tb.delete_right_one_word(WordDelim::WhiteSpace);
    assert_eq!(tb.buffer(), "   /etc/asd");
    // Three or more contiguous leading whitespace chars are deleted alone,
    // without consuming the next word.
    tb.delete_right_one_word(WordDelim::WhiteSpace);
    assert_eq!(tb.buffer(), "/etc/asd");
    tb.delete_right_one_word(WordDelim::WhiteSpace);
    assert_eq!(tb.buffer(), "");
}

#[test]
fn delete_one_word_right_leading_whitespace_cases() {
    // Single leading whitespace: delete the whitespace AND the next word.
    let mut tb = TextBuffer::new(" foo");
    tb.move_start_of_line();
    tb.delete_right_one_word(WordDelim::WhiteSpace);
    assert_eq!(tb.buffer(), "");

    // Two leading whitespace chars: delete just the whitespace.
    let mut tb = TextBuffer::new("  foo");
    tb.move_start_of_line();
    tb.delete_right_one_word(WordDelim::WhiteSpace);
    assert_eq!(tb.buffer(), "foo");

    // Many leading whitespace chars: delete just the whitespace.
    let mut tb = TextBuffer::new("                foo");
    tb.move_start_of_line();
    tb.delete_right_one_word(WordDelim::WhiteSpace);
    assert_eq!(tb.buffer(), "foo");

    // No leading whitespace: delete the word.
    let mut tb = TextBuffer::new("foo");
    tb.move_start_of_line();
    tb.delete_right_one_word(WordDelim::WhiteSpace);
    assert_eq!(tb.buffer(), "");
}

#[test]
fn delete_one_word_right_less_strict() {
    let mut tb = TextBuffer::new("cargo test abc::def::ghi   /etc/asd");
    tb.move_start_of_line();
    tb.delete_right_one_word(WordDelim::FineGrained);
    assert_eq!(tb.buffer(), " test abc::def::ghi   /etc/asd");
    tb.delete_right_one_word(WordDelim::FineGrained);
    assert_eq!(tb.buffer(), " abc::def::ghi   /etc/asd");
    tb.delete_right_one_word(WordDelim::FineGrained);
    assert_eq!(tb.buffer(), "::def::ghi   /etc/asd");
    tb.delete_right_one_word(WordDelim::FineGrained);
    assert_eq!(tb.buffer(), "def::ghi   /etc/asd");
    tb.delete_right_one_word(WordDelim::FineGrained);
    assert_eq!(tb.buffer(), "::ghi   /etc/asd");
    tb.delete_right_one_word(WordDelim::FineGrained);
    assert_eq!(tb.buffer(), "ghi   /etc/asd");
    tb.delete_right_one_word(WordDelim::FineGrained);
    assert_eq!(tb.buffer(), "   /etc/asd");
    tb.delete_right_one_word(WordDelim::FineGrained);
    assert_eq!(tb.buffer(), "/etc/asd");
    tb.delete_right_one_word(WordDelim::FineGrained);
    assert_eq!(tb.buffer(), "etc/asd");
    tb.delete_right_one_word(WordDelim::FineGrained);
    assert_eq!(tb.buffer(), "/asd");
    tb.delete_right_one_word(WordDelim::FineGrained);
    assert_eq!(tb.buffer(), "asd");
    tb.delete_right_one_word(WordDelim::FineGrained);
    assert_eq!(tb.buffer(), "");
}

#[test]
fn delete_one_word_right_less_strict_single_space_also_deletes_word_part() {
    let mut tb = TextBuffer::new("foo bar");
    tb.try_move_cursor_to_byte_pos("foo".len(), false);
    tb.delete_right_one_word(WordDelim::FineGrained);
    assert_eq!(tb.buffer(), "foo");
}

#[test]
fn delete_one_word_left_less_strict_path() {
    // When the word to the left contains slashes, only / and \ are treated as
    // punctuation boundaries, so filename components with dots are not split.
    let mut tb = TextBuffer::new("echo ./foo_bar/baz.jeb");
    tb.move_end_of_line();
    tb.delete_one_word_left(WordDelim::FineGrained);
    assert_eq!(tb.buffer(), "echo ./foo_bar/");
    tb.delete_one_word_left(WordDelim::FineGrained);
    assert_eq!(tb.buffer(), "echo ./foo_bar");
    tb.delete_one_word_left(WordDelim::FineGrained);
    assert_eq!(tb.buffer(), "echo ./");
    tb.delete_one_word_left(WordDelim::FineGrained);
    assert_eq!(tb.buffer(), "echo .");
    // No more slashes in the remaining word; full punctuation mode resumes.
    tb.delete_one_word_left(WordDelim::FineGrained);
    assert_eq!(tb.buffer(), "echo ");
}

#[test]
fn delete_one_word_right_less_strict_path() {
    // Symmetric: forward deletion is also slash-aware.
    let mut tb = TextBuffer::new("echo ./foo_bar/baz.jeb");
    tb.move_start_of_line();
    tb.delete_right_one_word(WordDelim::FineGrained);
    assert_eq!(tb.buffer(), " ./foo_bar/baz.jeb");
    tb.delete_right_one_word(WordDelim::FineGrained);
    assert_eq!(tb.buffer(), "/foo_bar/baz.jeb");
    // After consuming the single leading space and '.', the remaining word
    // starts with '/' so slash-only mode applies.
    tb.delete_right_one_word(WordDelim::FineGrained);
    assert_eq!(tb.buffer(), "foo_bar/baz.jeb");
    tb.delete_right_one_word(WordDelim::FineGrained);
    assert_eq!(tb.buffer(), "/baz.jeb");
    tb.delete_right_one_word(WordDelim::FineGrained);
    assert_eq!(tb.buffer(), "baz.jeb");
    // No more slashes; full punctuation mode.
    tb.delete_right_one_word(WordDelim::FineGrained);
    assert_eq!(tb.buffer(), ".jeb");
    tb.delete_right_one_word(WordDelim::FineGrained);
    assert_eq!(tb.buffer(), "jeb");
    tb.delete_right_one_word(WordDelim::FineGrained);
    assert_eq!(tb.buffer(), "");
}

#[test]
fn delete_one_word_left_slash_aware_from_right() {
    // When cursor is after a dotted path prefix but the slash is only to the
    // right of the cursor, slash-only mode should still apply so the whole
    // filename component is deleted as one unit.
    let mut tb = TextBuffer::new("echo baz.jeb/foo_bar");
    tb.try_move_cursor_to_byte_pos("echo baz.jeb".len(), false);
    tb.delete_one_word_left(WordDelim::FineGrained);
    assert_eq!(tb.buffer(), "echo /foo_bar");
}

#[test]
fn delete_one_word_right_slash_aware_from_left() {
    // When cursor is right after the last slash in a path, the slash to the
    // left of the cursor should trigger slash-only mode so the dotted filename
    // component is deleted as one unit rather than being split at the dot.
    let mut tb = TextBuffer::new("echo /foo_bar/baz.jeb");
    tb.try_move_cursor_to_byte_pos("echo /foo_bar/".len(), false);
    tb.delete_right_one_word(WordDelim::FineGrained);
    assert_eq!(tb.buffer(), "echo /foo_bar/");
}

#[test]
fn delete_word_backslash_path_bidirectional() {
    // Same behaviour with backslash path separators.
    let mut tb = TextBuffer::new("echo baz.txt\\foo\\bar");
    tb.try_move_cursor_to_byte_pos("echo baz.txt".len(), false);
    tb.delete_one_word_left(WordDelim::FineGrained);
    assert_eq!(tb.buffer(), "echo \\foo\\bar");

    let mut tb2 = TextBuffer::new("echo \\foo\\baz.txt");
    tb2.try_move_cursor_to_byte_pos("echo \\foo\\".len(), false);
    tb2.delete_right_one_word(WordDelim::FineGrained);
    assert_eq!(tb2.buffer(), "echo \\foo\\");
}

#[test]
fn delete_until_end_of_line_multiline() {
    let mut tb = TextBuffer::new("hello\nworld\nfoo");
    tb.try_move_cursor_to_byte_pos(2, false); // Cursor after 'he|llo\nworld\nfoo'
    tb.delete_until_end_of_line();
    assert_eq!(tb.buffer(), "he\nworld\nfoo");
    // Move to next line and test again
    tb.try_move_cursor_to_byte_pos(3, false); // At start of 'world'
    tb.delete_until_end_of_line();
    assert_eq!(tb.buffer(), "he\n\nfoo");
}

#[test]
fn delete_until_start_of_line_multiline() {
    let mut tb = TextBuffer::new("abc\ndef\nghi");
    tb.try_move_cursor_to_byte_pos(5, false);
    tb.delete_until_start_of_line();
    assert_eq!(tb.buffer(), "abc\nef\nghi");
    // Move to next line and test again
    tb.move_to_end();
    tb.delete_until_start_of_line();
    assert_eq!(tb.buffer(), "abc\nef\n");
}

#[test]
fn undo_stack() {
    
    let snap = |s: &str| Snapshot::new(s, 0, None);

    let mut s = SnapshotManager::new();
    assert_eq!(s.undos, vec![]);
    assert_eq!(s.redos, vec![]);

    s.add_snapshot(snap("apple"), false);
    assert_eq!(s.undos, vec![snap("apple")]);
    assert_eq!(s.redos, vec![]);

    s.add_snapshot(snap("banana"), false);
    assert_eq!(s.undos, vec![snap("apple"), snap("banana")]);
    assert_eq!(s.redos, vec![]);

    s.add_snapshot(snap("cow"), false);
    assert_eq!(s.undos, vec![snap("apple"), snap("banana"), snap("cow")]);
    assert_eq!(s.redos, vec![]);

    let p = s.prev_snapshot(snap("cow"));
    assert_eq!(p.unwrap(), snap("banana"));

    let p = s.prev_snapshot(snap("banana"));
    assert_eq!(p.unwrap(), snap("apple"));

    let p = s.prev_snapshot(snap("apple"));
    assert!(p.is_none());

    let n = s.next_snapshot(snap("apple"));
    assert_eq!(n.unwrap(), snap("banana"));

    let n = s.next_snapshot(snap("banana"));
    assert_eq!(n.unwrap(), snap("cow"));
}

#[test]
fn undo_redo_basic() {
        let mut tb = TextBuffer::new("Hello");
    tb.insert_str(" World");
    assert_eq!(tb.buffer(), "Hello World");
    tb.undo();
    assert_eq!(tb.buffer(), "Hello");
    tb.redo();
    assert_eq!(tb.buffer(), "Hello World");
}

#[test]
fn undo_redo_multiple_steps() {
        let mut tb = TextBuffer::new("Start");
    // Every edit its own undo step, as in a test build.
    tb.set_undo_merge_window_ms(0);
    tb.insert_str(" One");
    tb.insert_str(" Two");
    tb.insert_str(" Three");
    assert_eq!(tb.buffer(), "Start One Two Three");

    tb.undo();
    assert_eq!(tb.buffer(), "Start One Two");

    tb.undo();
    assert_eq!(tb.buffer(), "Start One");

    tb.redo();
    assert_eq!(tb.buffer(), "Start One Two");

    tb.redo();
    assert_eq!(tb.buffer(), "Start One Two Three");
}

#[test]
fn undo_and_start_new_edit() {
        let mut tb = TextBuffer::new("Base");
    // Every edit its own undo step, as in a test build.
    tb.set_undo_merge_window_ms(0);
    tb.insert_str(" Edit1");
    tb.insert_str(" Edit2");
    assert_eq!(tb.buffer(), "Base Edit1 Edit2");

    tb.undo();
    assert_eq!(tb.buffer(), "Base Edit1");

    // Start a new edit after undo
    tb.insert_str(" NewEdit");
    assert_eq!(tb.buffer(), "Base Edit1 NewEdit");

    // Redo should not work now
    tb.redo();
    assert_eq!(tb.buffer(), "Base Edit1 NewEdit");
}

#[test]
fn undo_replace_word_under_cursor() {
        let mut tb = TextBuffer::new("The quick brown fox");
    let i = tb.buffer().find("quick").unwrap();
    let sub_string = SubString::new(&tb.buffer(), i, i + "quick".len()).unwrap();

    tb.replace_word_under_cursor("slow", &sub_string).unwrap();
    assert_eq!(tb.buffer(), "The slow brown fox");

    tb.undo();
    assert_eq!(tb.buffer(), "The quick brown fox");

    tb.redo();
    assert_eq!(tb.buffer(), "The slow brown fox");
}

#[test]
fn undo_restores_selection_after_delete() {
        let mut tb = TextBuffer::new("Hello World");
    // Select "World"
    let start = tb.buffer().find("World").unwrap();
    let end = start + "World".len();
    tb.set_selection_range(start..end, false);
    assert_eq!(tb.selected_text().as_deref(), Some("World"));

    // Delete the selection.
    assert!(tb.delete_selection());
    assert_eq!(tb.buffer(), "Hello ");
    assert!(tb.selection_byte().is_none());

    // Undo should restore both the buffer and the selection.
    tb.undo();
    assert_eq!(tb.buffer(), "Hello World");
    assert_eq!(tb.selected_text().as_deref(), Some("World"));

    // Redo should re-apply the deletion and clear the selection again.
    tb.redo();
    assert_eq!(tb.buffer(), "Hello ");
    assert!(tb.selection_byte().is_none());
}

#[test]
fn selection_change_does_not_create_snapshot() {
        let mut tb = TextBuffer::new("Hello World");
    tb.insert_str("!");
    assert_eq!(tb.buffer(), "Hello World!");

    // Move cursor and toggle selection a few times — these should not
    // produce any new undo entries.
    tb.set_selection_range(0..5, false);
    tb.clear_selection();
    tb.select_entire_buffer();
    tb.clear_selection();

    // A single undo should revert the only real edit (the "!" insertion).
    tb.undo();
    assert_eq!(tb.buffer(), "Hello World");
}

#[test]
fn new_with_cursor_reads_the_mark() {
    let tb = TextBuffer::new_with_cursor("ab█cd█");
    assert_eq!(tb.buffer(), "abcd");
    assert_eq!(tb.cursor_byte_pos(), 2);
    let tb = TextBuffer::new_with_cursor("é█x");
    assert_eq!(tb.buffer(), "éx");
    assert_eq!(tb.cursor_byte_pos(), 2);
}

#[test]
fn merge_decision_table() {
    assert!(merges(true, 1000, 1, 999));
    assert!(!merges(true, 1000, 1, 1000));
    assert!(!merges(false, 1000, 1, 0));
    assert!(!merges(true, 0, 1, 0));
    assert!(!merges(true, 1000, 0, 0));
}

#[test]
fn add_snapshot_after_merges_only_recent_edits() {
    let snap = |s: &str| Snapshot::new(s, 0, None);
    let now = std::time::Instant::now();
    let mut m = SnapshotManager::new();
    assert_eq!(m.merge_window_ms, UNDO_MERGE_WINDOW_MS);
    m.add_snapshot_after(snap("a"), true, 0, now);
    assert_eq!(m.undos, vec![snap("a")]);
    m.add_snapshot_after(snap("ab"), true, 10, now);
    assert_eq!(m.undos, vec![snap("a")]);
    m.add_snapshot_after(snap("abc"), true, 5000, now);
    assert_eq!(m.undos, vec![snap("a"), snap("abc")]);
    m.add_snapshot_after(snap("abcd"), false, 10, now);
    assert_eq!(m.undos, vec![snap("a"), snap("abc"), snap("abcd")]);
    assert!(m.redos.is_empty());
}

#[test]
fn move_right_with_anchor_inside_a_character_keeps_cursor_at_selection_end() {
    let mut tb = TextBuffer::new("ab");
    tb.set_selection_range(0..2, true);
    tb.insert_char('€');
    assert_eq!(tb.buffer(), "€ab");
    assert_eq!(tb.cursor_byte_pos(), 3);
    tb.move_right();
    assert_eq!(tb.cursor_byte_pos(), 3);
    assert!(tb.selection_range().is_none());
}

#[test]
fn quick_edits_merge_into_one_undo_step_by_default() {
    let mut tb = TextBuffer::new("Start");
    tb.insert_str(" One");
    tb.insert_str(" Two");
    tb.undo();
    assert_eq!(tb.buffer(), "Start");
}
