use flyline::cli::{
    add_word_under_cursor, command_args_from, mark_candidate_prefix, parse_matrix_animation,
    parse_placeholder, parse_style_assignment, raw_command_before_word_under_cursor,
    split_command_args, ArgsError, StyleArgError,
};
use flyline::palette::PaletteStyleKind;
use flyline::settings::{MatrixAnimation, Placeholder};

#[test]
fn matrix_animation_values() {
    assert_eq!(parse_matrix_animation("on"), Ok(MatrixAnimation::On));
    assert_eq!(parse_matrix_animation("off"), Ok(MatrixAnimation::Off));
    assert_eq!(parse_matrix_animation("30"), Ok(MatrixAnimation::IdleSecs(30)));
    assert_eq!(parse_matrix_animation("+7"), Ok(MatrixAnimation::IdleSecs(7)));
    assert_eq!(
        parse_matrix_animation("18446744073709551615"),
        Ok(MatrixAnimation::IdleSecs(u64::MAX))
    );
}

#[test]
fn matrix_animation_errors() {
    assert_eq!(
        parse_matrix_animation("-1"),
        Err("expected `on`, `off`, or a non-negative integer, got `-1`".to_string())
    );
    assert_eq!(
        parse_matrix_animation("ON"),
        Err("expected `on`, `off`, or a non-negative integer, got `ON`".to_string())
    );
    assert!(parse_matrix_animation("").is_err());
    assert!(parse_matrix_animation("+").is_err());
    assert!(parse_matrix_animation("18446744073709551616").is_err());
}

#[test]
fn placeholder_values() {
    assert_eq!(parse_placeholder("prev"), Some(Placeholder::Prev));
    assert_eq!(parse_placeholder("4"), Some(Placeholder::Spaces(4)));
    assert_eq!(parse_placeholder("four"), None);
    assert_eq!(parse_placeholder(""), None);
}

#[test]
fn before_word_under_cursor() {
    assert_eq!(
        raw_command_before_word_under_cursor("flyline set-style foo", "foo", 21),
        Ok("flyline set-style ".to_string())
    );
    // The first occurrence that reaches the cursor is used.
    assert_eq!(
        raw_command_before_word_under_cursor("foo foo", "foo", 5),
        Ok("foo ".to_string())
    );
    assert_eq!(
        raw_command_before_word_under_cursor("foo foo", "foo", 3),
        Ok("".to_string())
    );
    assert_eq!(raw_command_before_word_under_cursor("ab cd", "", 3), Ok("ab ".to_string()));
}

#[test]
fn before_word_under_cursor_errors() {
    assert_eq!(
        raw_command_before_word_under_cursor("ab", "ab", 3),
        Err(ArgsError::CursorOutside)
    );
    assert_eq!(
        raw_command_before_word_under_cursor("é", "", 1),
        Err(ArgsError::NotCharBoundary)
    );
    assert_eq!(
        raw_command_before_word_under_cursor("ab cd", "zz", 1),
        Err(ArgsError::WordNotAtCursor)
    );
    assert_eq!(ArgsError::CursorOutside.message(), "cursor is outside raw command");
    assert_eq!(ArgsError::NotCharBoundary.message(), "cursor is not on a char boundary");
    assert_eq!(ArgsError::WordNotAtCursor.message(), "word under cursor not found at cursor");
}

#[test]
fn candidate_prefix_marking() {
    assert_eq!(mark_candidate_prefix("--mode=smart", "--mode="), "--mode=PREFIX_DELIMsmart");
    assert_eq!(mark_candidate_prefix("other", "--mode="), "other");
    assert_eq!(mark_candidate_prefix("aPREFIX_DELIMb", "a"), "aPREFIX_DELIMb");
}

#[test]
fn word_under_cursor_joins_an_option_prefix() {
    let (args, prefix) = add_word_under_cursor(vec!["flyline".to_string(), "--mode=".to_string()], "sm");
    assert_eq!(args, vec!["flyline".to_string(), "--mode=sm".to_string()]);
    assert_eq!(prefix, Some("--mode=".to_string()));

    let (args, prefix) = add_word_under_cursor(vec!["flyline".to_string(), "key".to_string()], "bi");
    assert_eq!(args, vec!["flyline".to_string(), "key".to_string(), "bi".to_string()]);
    assert_eq!(prefix, None);

    let (args, prefix) = add_word_under_cursor(vec![], "x");
    assert_eq!(args, vec!["x".to_string()]);
    assert_eq!(prefix, None);
}

#[test]
fn command_args_follow_shell_quoting() {
    assert_eq!(
        split_command_args("agent -p 'fix it' \"two words\""),
        Some(vec!["agent".to_string(), "-p".to_string(), "fix it".to_string(), "two words".to_string()])
    );
    // Broken quoting falls back to whitespace splitting.
    assert_eq!(
        split_command_args("ai 'unclosed  arg"),
        Some(vec!["ai".to_string(), "'unclosed".to_string(), "arg".to_string()])
    );
    assert_eq!(split_command_args("   "), None);
    assert_eq!(command_args_from(None, " a  b "), Some(vec!["a".to_string(), "b".to_string()]));
    assert_eq!(command_args_from(Some(vec![]), "x"), None);
    assert_eq!(command_args_from(Some(vec!["q".to_string()]), "x"), Some(vec!["q".to_string()]));
}

#[test]
fn style_assignments() {
    assert_eq!(
        parse_style_assignment("comment=bold red"),
        Ok((PaletteStyleKind::Comment, "bold red".to_string()))
    );
    assert_eq!(
        parse_style_assignment("env-var=a=b"),
        Ok((PaletteStyleKind::EnvVar, "a=b".to_string()))
    );
    assert_eq!(parse_style_assignment("comment"), Err(StyleArgError::NotAssignment));
    assert_eq!(
        parse_style_assignment("nope=bold"),
        Err(StyleArgError::UnknownName("nope".to_string()))
    );
}
