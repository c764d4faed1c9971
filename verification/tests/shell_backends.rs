use flyline::shell::{vars_with_prefix, VarListing};
use flyline::shell::fish::{expand_words, parse_abbr_line, parse_alias_line, unquote};
use flyline::shell::zsh::{parse_capture_line, parse_capture_output, pairs_to_completion_strings};

#[test]
fn unquote_strips_single_quotes() {
    assert_eq!(unquote("'git checkout'"), "git checkout");
    assert_eq!(unquote("plain"), "plain");
    assert_eq!(unquote("'unbalanced"), "'unbalanced");
}

#[test]
fn parse_abbr_line_plain() {
    assert_eq!(
        parse_abbr_line("abbr -a -- gco 'git checkout'"),
        Some(("gco".to_string(), "git checkout".to_string())),
    );
}

#[test]
fn parse_abbr_line_with_flags() {
    assert_eq!(
        parse_abbr_line("abbr -a --position anywhere -- L '| less'"),
        Some(("L".to_string(), "| less".to_string())),
    );
}

#[test]
fn parse_abbr_line_rejects_garbage() {
    assert_eq!(parse_abbr_line("not an abbr line"), None);
    assert_eq!(parse_abbr_line("abbr -a -- lonely"), None);
}

#[test]
fn parse_alias_line_plain() {
    assert_eq!(
        parse_alias_line("alias ll 'ls -l'"),
        Some(("ll".to_string(), "ls -l".to_string())),
    );
    assert_eq!(parse_alias_line("garbage"), None);
}

#[test]
fn fish_parse_command_table_classifies_kinds_and_ignores_noise() {
    let dump = "config noise line\n\
        FLYT\tbuiltin\tprintf\n\
        FLYT\tbuiltin\tif\n\
        FLYT\tfunction\tmy_fn\n\
        FLYT\trawabbr\tabbr -a -- gco 'git checkout'\n\
        FLYT\trawalias\talias ll 'ls -l'\n\
        more noise\n";
    let table = flyline::shell::fish::parse_command_table(dump, &Vec::new());

    assert!(table.is_builtin("printf"));
    assert!(table.is_keyword("if"));
    assert!(!table.is_builtin("if"));
    assert!(table.is_function("my_fn"));
    assert_eq!(table.alias("gco").as_deref(), Some("git checkout"));
    assert_eq!(table.alias("ll").as_deref(), Some("ls -l"));
}

#[test]
fn fish_parse_command_table_skips_entries_without_a_name() {
    let table =
        flyline::shell::fish::parse_command_table("FLYT\tbuiltin\t\nFLYT\tbuiltin\tvalid\n", &Vec::new());
    assert!(!table.is_builtin(""));
    assert!(table.is_builtin("valid"));
}

#[test]
fn parse_capture_line_value_only() {
    assert_eq!(parse_capture_line("main"), ("main".to_string(), None));
}

#[test]
fn parse_capture_line_with_description() {
    assert_eq!(
        parse_capture_line("get -- Display a resource"),
        ("get".to_string(), Some("Display a resource".to_string()),),
    );
}

#[test]
fn parse_capture_output_between_markers() {
    let blob = "noise\n<<FLYBEGIN>>\nmain\nget -- Display a resource\n<<FLYEND>>\ntrailer\n";
    assert_eq!(
        parse_capture_output(blob),
        vec![
            ("main".to_string(), None),
            ("get".to_string(), Some("Display a resource".to_string())),
        ],
    );
}

#[test]
fn parse_capture_output_skips_empty_lines() {
    let blob = "<<FLYBEGIN>>\n\nfoo\n<<FLYEND>>\n";
    assert_eq!(parse_capture_output(blob), vec![("foo".to_string(), None)],);
}

#[test]
fn zsh_parse_command_table_classifies_kinds_and_ignores_noise() {
    // Includes rc stdout noise (lines without the FLYT sentinel) that must
    // be skipped, plus one entry of each kind.
    let dump = "p10k instant prompt noise\n\
        FLYT\talias\tgst\tgit status\n\
        FLYT\tfunction\tmy_fn\n\
        FLYT\tbuiltin\tprint\n\
        FLYT\treserved\tif\n\
        FLYT\tcommand\tgit\t/usr/bin/git\n\
        more noise\n";
    let table = flyline::shell::zsh::parse_command_table(dump);
    assert_eq!(table.alias("gst").as_deref(), Some("git status"));
    assert!(table.is_function("my_fn"));
    assert!(table.is_builtin("print"));
    assert!(table.is_keyword("if"));
    assert_eq!(table.command_path("git").as_deref(), Some("/usr/bin/git"));
    // One CommandWordInfo per real entry; noise lines dropped.
    assert_eq!(table.ordered.len(), 5);
}

#[test]
fn zsh_parse_command_table_skips_entries_without_a_name() {
    let table = flyline::shell::zsh::parse_command_table("FLYT\talias\t\nFLYT\tbuiltin\tvalid\n");
    assert!(table.aliases.is_empty());
    assert!(table.is_builtin("valid"));
    assert_eq!(table.ordered.len(), 1);
}

#[test]
fn pairs_to_completion_strings_formats_tab_descriptions() {
    let pairs = vec![
        ("a".to_string(), None),
        ("b".to_string(), Some("desc".to_string())),
    ];
    assert_eq!(
        pairs_to_completion_strings(&pairs),
        vec!["a".to_string(), "b\tdesc".to_string()],
    );
}

fn env_with_home(home: &str) -> Vec<(String, String)> {
    vec![("HOME".to_string(), home.to_string()), ("EMPTY".to_string(), String::new())]
}

#[test]
fn expand_words_tilde_and_vars() {
    let home = "/home/tester".to_string();
    let env = env_with_home(&home);
    assert_eq!(expand_words("~", &env), home);
    assert_eq!(expand_words("~/x", &env), format!("{home}/x"));
    assert_eq!(expand_words("$HOME/x", &env), format!("{home}/x"));
    assert_eq!(expand_words("${HOME}/x", &env), format!("{home}/x"));
    assert_eq!(expand_words("plain/path", &env), "plain/path");
    assert_eq!(expand_words("$", &env), "$");
    assert_eq!(expand_words("a$/b", &env), "a$/b");
}

#[test]
fn expand_words_keeps_unset_vars_literal() {
    let env = env_with_home("/home/tester");
    assert_eq!(
        expand_words("$FLYLINE_DEFINITELY_UNSET_VAR/x", &env),
        "$FLYLINE_DEFINITELY_UNSET_VAR/x"
    );
}

#[test]
fn expand_words_edge_cases() {
    let env = env_with_home("/h");
    assert_eq!(expand_words("~user/x", &env), "~user/x");
    assert_eq!(expand_words("x~/y", &env), "x~/y");
    assert_eq!(expand_words("${HOME", &env), "${HOME");
    assert_eq!(expand_words("${}", &env), "${}");
    assert_eq!(expand_words("${A-B}", &env), "${A-B}");
    assert_eq!(expand_words("$EMPTY.", &env), ".");
    assert_eq!(expand_words("$HOME$HOME", &env), "/h/h");
    assert_eq!(expand_words("~", &vec![]), "~");
}

#[test]
fn history_timestamps() {
    use_history_timestamp();
}

fn use_history_timestamp() {
    assert_eq!(flyline::shell::parse_history_timestamp("#1700000000"), Some(1_700_000_000));
    assert_eq!(flyline::shell::parse_history_timestamp("##  42 "), Some(42));
    assert_eq!(flyline::shell::parse_history_timestamp("#abc"), None);
    assert_eq!(flyline::shell::parse_history_timestamp(""), None);
}

fn strings(v: &[&str]) -> Vec<String> {
    v.iter().map(|s| s.to_string()).collect()
}

#[test]
fn vars_with_prefix_filters_all_names() {
    let listed = strings(&["PATH", "PWD", "HOME", "PAGER", "PATH"]);
    let env = strings(&["PYTHONPATH"]);
    let r = vars_with_prefix(VarListing::AllNames, "$PA", &listed, &env);
    assert_eq!(r, strings(&["$PAGER", "$PATH"]));
}

#[test]
fn vars_with_prefix_keeps_matched_names() {
    let listed = strings(&["HOSTNAME", "", "HOME", "HOST"]);
    let r = vars_with_prefix(VarListing::Matched, "$HO", &listed, &Vec::new());
    assert_eq!(r, strings(&["$HOME", "$HOST", "$HOSTNAME"]));
}

#[test]
fn vars_with_prefix_falls_back_to_environment() {
    let env = strings(&["SHELL", "USER", "SHLVL", "HOME"]);
    let r = vars_with_prefix(VarListing::Matched, "$SH", &strings(&[""]), &env);
    assert_eq!(r, strings(&["$SHELL", "$SHLVL"]));
    let r2 = vars_with_prefix(VarListing::AllNames, "SH", &strings(&["PATH"]), &env);
    assert_eq!(r2, strings(&["$SHELL", "$SHLVL"]));
}

#[test]
fn vars_with_prefix_empty_name_offers_nothing() {
    let env = strings(&["SHELL"]);
    assert!(vars_with_prefix(VarListing::AllNames, "$", &strings(&["PATH"]), &env).is_empty());
    assert!(vars_with_prefix(VarListing::Matched, "", &strings(&["PATH"]), &env).is_empty());
}
