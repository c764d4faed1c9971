use flyline::tab_completion_context::{get_completion_context, CompType, CompletionContext};
use flyline::text_buffer::TextBuffer;

fn run(input: &str, cursor_byte_pos: usize) -> CompletionContext {
    get_completion_context(input, cursor_byte_pos)
}

/// Parse a test string with `█` marking the cursor position.
fn run_inline(input: &str) -> CompletionContext {
    let buffer = TextBuffer::new_with_cursor(input);
    let cursor_byte_pos = buffer.cursor_byte_pos();
    let input_without_cursor = buffer.buffer();
    run(&input_without_cursor, cursor_byte_pos)
}

#[test]
fn test_command_extraction() {
    let res = run_inline(r#"git com█mi café"#);

    assert_eq!(res.context_until_cursor(), "git com");
    assert_eq!(res.context.s, "git commi café");

    match res.comp_types().first().unwrap() {
        CompType::CommandComp { command_word } => {
            assert_eq!(command_word, "git");
            assert_eq!(res.word_under_cursor.as_ref(), "commi");
        }
        _ => panic!("Expected CommandComp"),
    }
}

#[test]
fn test_command_extraction_at_end() {
    let res = run_inline(r#"cd a█ b"#);
    assert_eq!(res.context_until_cursor(), "cd a");
    assert_eq!(res.context.s, "cd a b");

    match res.comp_types().first().unwrap() {
        CompType::CommandComp { command_word } => {
            assert_eq!(command_word, "cd");
            assert_eq!(res.word_under_cursor.as_ref(), "a");
        }
        _ => panic!("Expected CommandComp"),
    }
}

#[test]
fn test_command_extraction_at_end_2() {
    let res = run_inline(r#"cd  █"#);
    assert_eq!(res.context_until_cursor(), "cd  ");
    assert_eq!(res.context.s, "cd  ");

    match res.comp_types().first().unwrap() {
        CompType::CommandComp { command_word } => {
            assert_eq!(command_word, "cd");
            assert_eq!(res.word_under_cursor.as_ref(), "");
        }
        _ => panic!("Expected CommandComp"),
    }
}

#[test]
fn test_with_expanded_alias_expands_context_and_positions() {
    let res = run_inline(r#"fl_comp_alias b█an"#);
    let expanded = res.with_expanded_alias("fl_comp_util --nosort");

    assert_eq!(expanded.context.s, "fl_comp_util --nosort ban");
    assert_eq!(expanded.context_until_cursor(), "fl_comp_util --nosort b");
    assert_eq!(
        expanded.cursor_byte_pos_context_relative(),
        "fl_comp_util --nosort b".len()
    );
    assert_eq!(
        expanded.word_under_cursor_end_context_relative(),
        "fl_comp_util --nosort ban".len()
    );
    assert_eq!(
        expanded.word_under_cursor.start,
        "fl_comp_util --nosort ".len()
    );
    assert_eq!(expanded.word_under_cursor.as_ref(), "ban");
    assert_eq!(
        expanded.comp_types().first().unwrap(),
        &CompType::CommandComp {
            command_word: "fl_comp_util".to_string()
        }
    );
}

#[test]
fn test_with_expanded_alias_preserves_context_start() {
    let res = run_inline(r#"echo ok; ga ch█eckout"#);
    let expanded = res.with_expanded_alias("git add");

    assert_eq!(expanded.context.start, res.context.start);
    assert_eq!(expanded.context.s, "git add checkout");
    assert_eq!(expanded.context_until_cursor(), "git add ch");
    assert_eq!(
        expanded.cursor_byte_pos_context_relative(),
        "git add ch".len()
    );
    assert_eq!(
        expanded.word_under_cursor_end_context_relative(),
        "git add checkout".len()
    );
}

#[test]
fn test_with_expanded_alias_handles_shorter_alias() {
    let res = run_inline(r#"longcmd u█p"#);
    let expanded = res.with_expanded_alias("l");

    assert_eq!(expanded.context.s, "l up");
    assert_eq!(expanded.context_until_cursor(), "l u");
    assert_eq!(expanded.cursor_byte_pos_context_relative(), "l u".len());
    assert_eq!(
        expanded.word_under_cursor_end_context_relative(),
        "l up".len()
    );
}

#[test]
fn test_with_wuc_replaced_basic() {
    let res = run_inline(r#"git com█mit"#);
    assert_eq!(res.word_under_cursor.as_ref(), "commit");

    let replaced = res.with_wuc_replaced("c");

    assert_eq!(replaced.context.s, "git c");
    assert_eq!(replaced.context.start, res.context.start);
    assert_eq!(replaced.word_under_cursor.as_ref(), "c");
    assert_eq!(
        replaced.word_under_cursor.start,
        res.word_under_cursor.start
    );
    // cursor was inside the old wuc, so it gets clamped to the end of the new wuc
    assert_eq!(replaced.cursor_byte_pos_context_relative(), "git c".len());
    assert_eq!(
        replaced.word_under_cursor_end_context_relative(),
        "git c".len()
    );
}

#[test]
fn test_with_wuc_replaced_cursor_after_wuc_shifts_by_delta() {
    let res = run_inline(r#"git commit█ -m"#);
    assert_eq!(res.word_under_cursor.as_ref(), "commit");

    let replaced = res.with_wuc_replaced("c");

    assert_eq!(replaced.context.s, "git c -m");
    assert_eq!(replaced.word_under_cursor.as_ref(), "c");
    // cursor was at end of old wuc; should now be at end of new wuc
    assert_eq!(replaced.cursor_byte_pos_context_relative(), "git c".len());
}

#[test]
fn test_with_wuc_replaced_grows_wuc() {
    let res = run_inline(r#"git c█ -m"#);
    assert_eq!(res.word_under_cursor.as_ref(), "c");
    let cursor_offset_past_wuc = res.cursor_byte_pos - res.word_under_cursor.end();

    let replaced = res.with_wuc_replaced("commit");

    assert_eq!(replaced.context.s, "git commit -m");
    assert_eq!(replaced.word_under_cursor.as_ref(), "commit");
    assert_eq!(
        replaced.word_under_cursor.start,
        res.word_under_cursor.start
    );
    // cursor was past the wuc; preserves its offset past the (now longer) wuc
    assert_eq!(
        replaced.cursor_byte_pos - replaced.word_under_cursor.end(),
        cursor_offset_past_wuc
    );
}

#[test]
fn test_with_wuc_replaced_preserves_context_start() {
    let res = run_inline(r#"echo ok; git com█mit"#);
    let replaced = res.with_wuc_replaced("c");

    assert_eq!(replaced.context.start, res.context.start);
    assert_eq!(replaced.context.s, "git c");
    assert_eq!(
        replaced.word_under_cursor.start,
        res.word_under_cursor.start
    );
}

#[test]
fn test_with_assignment_basic() {
    let res = run_inline(r#"A=b █ls -la"#);
    assert_eq!(res.context.s, "ls -la");
    assert_eq!(res.context_until_cursor(), "");
    match res.comp_types().first().unwrap() {
        CompType::FirstWord => {
            assert_eq!(res.word_under_cursor.as_ref(), "ls");
        }
        _ => panic!("Expected FirstWord"),
    }
}

#[test]
fn test_with_assignment_before_command() {
    let res = run_inline(r#"VAR=valué ABC=qwe   █      ls -la"#);
    assert_eq!(res.context.s, "");
    assert_eq!(res.context_until_cursor(), "");
}

#[test]
fn test_empty_command() {
    let res = run_inline(r#"█"#);
    assert_eq!(res.context.s, "");
    assert_eq!(res.context_until_cursor(), "");
    assert_eq!(res.word_under_cursor.as_ref(), "");
}

#[test]
fn test_whitespace_command() {
    let res = run_inline(r#"   █   "#);
    assert_eq!(res.context.s, "");
    assert_eq!(res.context_until_cursor(), "");
    assert_eq!(res.word_under_cursor.as_ref(), "");
}

#[test]
fn test_with_assignment_at_end() {
    let res = run_inline(r#"VAR=valué ABC=qwe█ ls -la"#);
    assert_eq!(res.context.s, "ABC=qwe");
    assert_eq!(res.context_until_cursor(), "ABC=qwe");
}

#[test]
fn test_list_of_commands() {
    let res = run_inline(r#"git commit -m "Initial "; ls -la█"#);
    assert_eq!(res.context.s, "ls -la");
    assert_eq!(res.context_until_cursor(), "ls -la");
}

#[test]
fn test_cursor_at_start_of_word() {
    let res = run_inline(r#"git █commit"#);
    assert_eq!(res.context.s, "git commit");
    assert_eq!(res.context_until_cursor(), "git ");
    assert_eq!(res.word_under_cursor.as_ref(), "commit");
}

#[test]
fn test_dollar_sign() {
    let res = run_inline(r#"echo $█"#);
    assert_eq!(res.context.s, "echo $");
    assert_eq!(res.context_until_cursor(), "echo $");
    assert_eq!(res.word_under_cursor.as_ref(), "$");
}

#[test]
fn test_dollar_sign_one_letter() {
    let res = run_inline(r#"echo $A█"#);
    assert_eq!(res.context.s, "echo $A");
    assert_eq!(res.context_until_cursor(), "echo $A");
    assert_eq!(res.word_under_cursor.as_ref(), "$A");
}

#[test]
fn test_dollar_concatenation() {
    let res = run_inline(r#"echo $A█$B"#);
    assert_eq!(res.context.s, "echo $A$B");
    assert_eq!(res.context_until_cursor(), "echo $A");
    assert_eq!(res.word_under_cursor.as_ref(), "$A");

    let res = run_inline(r#"echo $A$█B"#);
    assert_eq!(res.context.s, "echo $A$B");
    assert_eq!(res.context_until_cursor(), "echo $A$");
    assert_eq!(res.word_under_cursor.as_ref(), "$");
}

#[test]
fn test_with_pipeline() {
    let res = run_inline(r#"cat filé.txt | grep "pattern" | sort█"#);
    assert_eq!(res.context.s, "sort");
    assert_eq!(res.context_until_cursor(), "sort");

    let res2 = run_inline(r#"echo "héllo" && echo "wörld"█"#);
    assert_eq!(res2.context.s, r#"echo "wörld""#);
    assert_eq!(res2.context_until_cursor(), r#"echo "wörld""#);

    let res3 = run_inline(r#"false || echo "fallback 😅"█"#);
    assert_eq!(res3.context.s, r#"echo "fallback 😅""#);
    assert_eq!(res3.context_until_cursor(), r#"echo "fallback 😅""#);
}

#[test]
fn test_subshell_in_command() {
    let res = run_inline("echo $(git rev-parse HEAD) résumé█");
    assert_eq!(res.context.s, "echo $(git rev-parse HEAD) résumé");
    assert_eq!(
        res.context_until_cursor(),
        "echo $(git rev-parse HEAD) résumé"
    );

    assert_eq!(res.context.s, "echo $(git rev-parse HEAD) résumé");
    assert_eq!(res.word_under_cursor.as_ref(), "résumé");
    assert_eq!(
        res.comp_types(),
        vec![
            CompType::CommandComp {
                command_word: "echo".to_string()
            },
            CompType::FilenameExpansion,
            CompType::FuzzyCommandComp {
                command_word: "echo".to_string()
            },
            CompType::FuzzyFilenameExpansion
        ]
    );
}

#[test]
fn test_cursor_in_middle_of_subshell_command() {
    let res = run_inline(r#"echo $(git rev-parse HEA█D) café"#);
    assert_eq!(res.context.s, r#"git rev-parse HEAD"#);
    assert_eq!(res.context_until_cursor(), r#"git rev-parse HEA"#);
}

#[test]
fn test_cursor_at_end_of_subshell_command() {
    let res = run_inline(r#"echo $(git rev-parse HEAD█) 🎉"#);
    assert_eq!(res.context.s, r#"git rev-parse HEAD"#);
    assert_eq!(res.context_until_cursor(), r#"git rev-parse HEAD"#);
}

#[test]
fn test_cursor_just_outside_of_subshell_command() {
    let res = run_inline(r#"echo $(git rev-parse HEAD)█ 🎉"#);
    assert_eq!(res.context.s, r#"echo $(git rev-parse HEAD) 🎉"#);
    assert_eq!(res.context_until_cursor(), r#"echo $(git rev-parse HEAD)"#);
}

#[test]
fn test_command_at_end_of_subshell() {
    let res = run_inline(r#"echo $(ls -la)█"#);
    assert_eq!(res.context.s, "echo $(ls -la)");
    assert_eq!(res.context_until_cursor(), "echo $(ls -la)");
}

#[test]
fn test_param_expansion_in_command() {
    let res = run_inline(r#"echo ${HOME} naïve█"#);
    assert_eq!(res.context.s, r#"echo ${HOME} naïve"#);
    assert_eq!(res.context_until_cursor(), r#"echo ${HOME} naïve"#);
}

#[test]
fn test_cursor_in_middle_of_param_expansion() {
    let res = run_inline(r#"echo ${HO█ME} asdf"#);
    assert_eq!(res.context.s, r#"HOME"#);
    assert_eq!(res.context_until_cursor(), "HO");
}

#[test]
fn test_cursor_at_end_of_param_expansion() {
    let res = run_inline(r#"echo ${HOME█} asdf"#);
    assert_eq!(res.context.s, "HOME");
    assert_eq!(res.context_until_cursor(), "HOME");
}

#[test]
fn test_command_at_end_of_param_expansion() {
    let res = run_inline(r#"ls -la ${PWD}█"#);
    assert_eq!(res.context.s, "ls -la ${PWD}");
    assert_eq!(res.context_until_cursor(), "ls -la ${PWD}");
}

#[test]
fn test_complex_param_expansion() {
    let res = run_inline(r#"echo ${VAR:-dëfault} test 🎯█"#);
    assert_eq!(res.context.s, r#"echo ${VAR:-dëfault} test 🎯"#);
    assert_eq!(
        res.context_until_cursor(),
        r#"echo ${VAR:-dëfault} test 🎯"#
    );
}

#[test]
fn test_cursor_inside_complex_param_expansion() {
    let res = run_inline(r#"echo ${VAR:-dëf█ault} tëst"#);
    assert_eq!(res.context.s, "VAR:-dëfault");
    assert_eq!(res.context_until_cursor(), "VAR:-dëf");
}

#[test]
fn test_backtick_substitution_in_command() {
    let res = run_inline(r#"echo `git rev-parse HEAD` café█"#);
    assert_eq!(res.context.s, r#"echo `git rev-parse HEAD` café"#);
    assert_eq!(
        res.context_until_cursor(),
        r#"echo `git rev-parse HEAD` café"#
    );
}

#[test]
fn test_cursor_in_middle_of_backtick_command() {
    let res = run_inline(r#"echo `git rev-parse█ HEAD` asdf"#);
    assert_eq!(res.context.s, r#"git rev-parse HEAD"#);
    assert_eq!(res.context_until_cursor(), r#"git rev-parse"#);
}

#[test]
fn test_cursor_at_end_of_backtick_command() {
    let res = run_inline(r#"echo `b c█`"#);
    assert_eq!(res.context.s, "b c");
    assert_eq!(res.context_until_cursor(), "b c");
}

#[test]
fn test_command_at_end_of_backtick() {
    let res = run_inline(r#"echo `ls -la`█ qwe"#);
    assert_eq!(res.context.s, "echo `ls -la` qwe");
    assert_eq!(res.context_until_cursor(), "echo `ls -la`");
}

#[test]
fn test_nested_backticks_in_command() {
    let res = run_inline(r#"echo `echo \`date\`` tëst 🎯█"#);
    assert_eq!(res.context.s, r#"echo `echo \`date\`` tëst 🎯"#);
    assert_eq!(
        res.context_until_cursor(),
        r#"echo `echo \`date\`` tëst 🎯"#
    );
}

#[test]
fn test_cursor_in_backtick_with_pipe() {
    let res = run_inline(r#"echo `ls | grep█ test` done"#);
    assert_eq!(res.context.s, r#"grep test"#);
    assert_eq!(res.context_until_cursor(), r#"grep"#);
}

#[test]
fn test_arith_subst_in_command() {
    let res = run_inline(r#"echo $((5 + 3)) rësult 📊█"#);
    assert_eq!(res.context.s, r#"echo $((5 + 3)) rësult 📊"#);
    assert_eq!(res.context_until_cursor(), r#"echo $((5 + 3)) rësult 📊"#);
}

#[test]
fn test_cursor_near_end_of_arith_subst() {
    let res = run_inline(r#"echo $((5 + 3█)) result"#);
    assert_eq!(res.context.s, "5 + 3");
    assert_eq!(res.context_until_cursor(), "5 + 3");
}

#[test]
fn test_cursor_in_middle_of_arith_subst_end() {
    let res = run_inline(r#"echo $((5 + 3)█) result"#);
    assert_eq!(res.context.s, "echo $((5 + 3)) result");
    assert_eq!(res.context_until_cursor(), "echo $((5 + 3)");
}

#[test]
fn test_cursor_at_end_of_arith_subst() {
    let res = run_inline(r#"echo $((10 * 2))█ bar"#);
    assert_eq!(res.context.s, "echo $((10 * 2)) bar");
    assert_eq!(res.context_until_cursor(), "echo $((10 * 2))");
}

#[test]
fn test_command_at_mid_end_of_arith_subst() {
    let res = run_inline(r#"result=$((100 / 5)█)"#);
    assert_eq!(res.context.s, r#"result=$((100 / 5))"#);
    assert_eq!(res.context_until_cursor(), r#"result=$((100 / 5)"#);
}

#[test]
fn test_command_at_end_end_of_arith_subst() {
    let res = run_inline(r#"result=$((100 / 5))█"#);
    assert_eq!(res.context.s, r#"result=$((100 / 5))"#);
    assert_eq!(res.context_until_cursor(), r#"result=$((100 / 5))"#);
}

#[test]
fn test_complex_arith_with_variables() {
    let res = run_inline(r#"echo $(($VAR + 10)) test█"#);
    assert_eq!(res.context.s, r#"echo $(($VAR + 10)) test"#);
    assert_eq!(res.context_until_cursor(), r#"echo $(($VAR + 10)) test"#);
}

#[test]
fn test_cursor_inside_complex_arith() {
    let res = run_inline(r#"val=$((VAR * 2█ + 5))"#);
    assert_eq!(res.context.s, "VAR * 2 + 5");
    assert_eq!(res.context_until_cursor(), "VAR * 2");
}

#[test]
fn test_nested_arith_operations() {
    let res = run_inline(r#"echo $(( $(( 5 +█ 3 )) * 2 )) ënd ✅"#);
    assert_eq!(res.context.s, r#"5 + 3"#);
    assert_eq!(res.context_until_cursor(), r#"5 +"#);
}

#[test]
fn test_proc_subst_in_command() {
    let res = run_inline(r#"diff <(ls /tmp) <(ls /var) résult 🔍█"#);
    assert_eq!(res.context.s, r#"diff <(ls /tmp) <(ls /var) résult 🔍"#);
    assert_eq!(
        res.context_until_cursor(),
        r#"diff <(ls /tmp) <(ls /var) résult 🔍"#
    );
}

#[test]
fn test_cursor_in_middle_of_proc_subst_in() {
    let res = run_inline(r#"diff <(ls /t█mp) <(ls /var) done"#);
    assert_eq!(res.context.s, r#"ls /tmp"#);
    assert_eq!(res.context_until_cursor(), r#"ls /t"#);
}

#[test]
fn test_cursor_at_end_of_proc_subst_in() {
    let res = run_inline(r#"diff <(ls /tmp█) <(ls /var) done"#);
    assert_eq!(res.context.s, r#"ls /tmp"#);
    assert_eq!(res.context_until_cursor(), r#"ls /tmp"#);
}

#[test]
fn test_command_at_end_of_proc_subst_in() {
    let res = run_inline(r#"cat <(echo test)█"#);
    assert_eq!(res.context.s, r#"cat <(echo test)"#);
    assert_eq!(res.context_until_cursor(), r#"cat <(echo test)"#);
}

#[test]
fn test_proc_subst_out_in_command() {
    let res = run_inline(r#"tee >(gzip > filé.gz) >(bzip2 > filé.bz2) 🎉█"#);
    assert_eq!(
        res.context.s,
        r#"tee >(gzip > filé.gz) >(bzip2 > filé.bz2) 🎉"#
    );
    assert_eq!(
        res.context_until_cursor(),
        r#"tee >(gzip > filé.gz) >(bzip2 > filé.bz2) 🎉"#
    );
}

#[test]
fn test_cursor_before_proc_subst_in() {
    // The failing case: cursor is in the word before a process substitution.
    let res = run_inline(r#"x█ <( echo too )"#);
    assert_eq!(res.context.s, "x <( echo too )");
    assert_eq!(res.context_until_cursor(), "x");
    assert_eq!(res.word_under_cursor.as_ref(), "x");
    assert_eq!(
        res.comp_types(),
        vec![
            CompType::FirstWord,
            CompType::FuzzyFirstWord,
            CompType::FilenameExpansion,
            CompType::FuzzyFilenameExpansion
        ]
    );
}

#[test]
fn test_cursor_before_proc_subst_in_multi() {
    // Cursor before two consecutive process substitutions.
    let res = run_inline(r#"diff█ <(cat a) <(cat b)"#);
    assert_eq!(res.context.s, "diff <(cat a) <(cat b)");
    assert_eq!(res.context_until_cursor(), "diff");
    assert_eq!(res.word_under_cursor.as_ref(), "diff");
    assert_eq!(
        res.comp_types(),
        vec![
            CompType::FirstWord,
            CompType::FuzzyFirstWord,
            CompType::FilenameExpansion,
            CompType::FuzzyFilenameExpansion
        ]
    );
}

#[test]
fn test_cursor_before_cmd_subst() {
    // Cursor before a command substitution $(...).
    let res = run_inline(r#"echo█ $(git rev-parse HEAD)"#);
    assert_eq!(res.context.s, "echo $(git rev-parse HEAD)");
    assert_eq!(res.context_until_cursor(), "echo");
    assert_eq!(res.word_under_cursor.as_ref(), "echo");
    assert_eq!(
        res.comp_types(),
        vec![
            CompType::FirstWord,
            CompType::FuzzyFirstWord,
            CompType::FilenameExpansion,
            CompType::FuzzyFilenameExpansion
        ]
    );
}

#[test]
fn test_cursor_in_word_before_proc_subst_out() {
    // Cursor in the command word before a process substitution out >(...)
    let res = run_inline(r#"tee█ >(gzip > file.gz)"#);
    assert_eq!(res.context.s, "tee >(gzip > file.gz)");
    assert_eq!(res.context_until_cursor(), "tee");
    assert_eq!(res.word_under_cursor.as_ref(), "tee");
    assert_eq!(
        res.comp_types(),
        vec![
            CompType::FirstWord,
            CompType::FuzzyFirstWord,
            CompType::FilenameExpansion,
            CompType::FuzzyFilenameExpansion
        ]
    );
}

#[test]
fn test_cursor_in_arg_before_proc_subst() {
    // Cursor is in an argument (not first word) that precedes a process substitution.
    let res = run_inline(r#"diff file█ <(echo too)"#);
    assert_eq!(res.context.s, "diff file <(echo too)");
    assert_eq!(res.context_until_cursor(), "diff file");
    assert_eq!(res.word_under_cursor.as_ref(), "file");
    assert_eq!(
        res.comp_types(),
        vec![
            CompType::CommandComp {
                command_word: "diff".to_string()
            },
            CompType::FilenameExpansion,
            CompType::FuzzyCommandComp {
                command_word: "diff".to_string()
            },
            CompType::FuzzyFilenameExpansion
        ]
    );
}

#[test]
fn test_cursor_in_middle_of_proc_subst_out() {
    let res = run_inline(r#"tee >(gzip > fi█le.gz) test"#);
    assert_eq!(res.context.s, r#"gzip > file.gz"#);
    assert_eq!(res.context_until_cursor(), r#"gzip > fi"#);
}

#[test]
fn test_cursor_at_end_of_proc_subst_out() {
    let res = run_inline(r#"tee >(cat█) done"#);
    assert_eq!(res.context.s, r#"cat"#);
    assert_eq!(res.context_until_cursor(), r#"cat"#);
}

#[test]
fn test_mixed_proc_subst_in_and_out() {
    let res = run_inline(r#"cmd <(input cmd) >(output cmd) final█"#);
    assert_eq!(res.context.s, r#"cmd <(input cmd) >(output cmd) final"#);
    assert_eq!(
        res.context_until_cursor(),
        r#"cmd <(input cmd) >(output cmd) final"#
    );
}

#[test]
// #[ignore] // Need to think more on what the expected behavior is here
fn test_double_bracket_condition() {
    let res = run_inline(r#"if [[ -f file.txt ]]; then echo found; fi█"#);
    assert_eq!(res.context.s, "if [[ -f file.txt ]]; then echo found; fi");
    assert_eq!(
        res.context_until_cursor(),
        "if [[ -f file.txt ]]; then echo found; fi"
    );
    assert_eq!(res.word_under_cursor.as_ref(), "fi");
}

#[test]
fn test_cursor_inside_double_bracket() {
    let res = run_inline(r#"[[ -f filé█.txt ]] && echo yës"#);
    assert_eq!(res.context.s, "-f filé.txt");
    assert_eq!(res.context_until_cursor(), "-f filé");
}

#[test]
fn test_double_bracket_with_string_comparison() {
    let res = run_inline(r#"[[ "$var" == "café" ]] && echo match 🎯█"#);
    assert_eq!(res.context.s, r#"echo match 🎯"#);
    assert_eq!(res.context_until_cursor(), r#"echo match 🎯"#);
}

#[test]
fn test_double_bracket_with_pattern() {
    let res = run_inline(r#"[[ $file == *.txt ]█] || echo "not a text file""#);
    assert_eq!(res.context.s, "[[ $file == *.txt ]]");
    assert_eq!(res.context_until_cursor(), "[[ $file == *.txt ]");
}

#[test]
fn test_start_with_subshell() {
    let res = run_inline(r#"$(echo test)█"#);
    assert_eq!(res.context.s, "$(echo test)");
    assert_eq!(res.context_until_cursor(), "$(echo test)");
}

#[test]
fn test_double_bracket_with_regex() {
    let res = run_inline(r#"[[ $email =~ ^[a-z]+@[a-z]+$ ]]█"#);
    assert_eq!(res.context.s, "[[ $email =~ ^[a-z]+@[a-z]+$ ]]");
    assert_eq!(
        res.context_until_cursor(),
        "[[ $email =~ ^[a-z]+@[a-z]+$ ]]"
    );
}

#[test]
fn test_double_bracket_logical_operators() {
    let res = run_inline(r#"[[ -f file.txt && -r file.txt ]] && cat file.txt█"#);
    assert_eq!(res.context.s, "cat file.txt");
    assert_eq!(res.context_until_cursor(), "cat file.txt");
}

#[test]
fn test_cursor_before_double_bracket() {
    let res = run_inline(r#"if [[ -d /path/caf█é ]]; then ls; fi"#);
    assert_eq!(res.context.s, "-d /path/café");
    assert_eq!(res.context_until_cursor(), "-d /path/caf");
}

#[test]
fn test_double_bracket_with_emoji() {
    let res = run_inline(r#"[[ "$msg" == "✅ done" ]] && echo success█"#);
    assert_eq!(res.context.s, "echo success");
    assert_eq!(res.context_until_cursor(), "echo success");
}

#[test]
fn test_completion_context_cursor_at_start_of_line() {
    // Cursor at position 0 (start of line)
    let ctx = run_inline("█café --option 🎯");
    match ctx.comp_types().first().unwrap() {
        CompType::FirstWord => {
            assert_eq!(ctx.word_under_cursor.as_ref(), "café");
        }
        _ => panic!("Expected FirstWord"),
    }
}

#[test]
fn test_completion_context_cursor_in_first_word() {
    // Cursor in the middle of first word with non-ASCII
    let ctx = run_inline("caf█é --option 🎯");
    match ctx.comp_types().first().unwrap() {
        CompType::FirstWord => {
            assert_eq!(ctx.word_under_cursor.as_ref(), "café");
        }
        _ => panic!("Expected FirstWord"),
    }
}

#[test]
fn test_completion_context_cursor_after_first_word_emoji() {
    // Cursor after first word that contains emoji
    let ctx = run_inline("🚀rock█et --verbose naïve");
    match ctx.comp_types().first().unwrap() {
        CompType::FirstWord => {
            assert_eq!(ctx.word_under_cursor.as_ref(), "🚀rocket");
        }
        _ => panic!("Expected FirstWord"),
    }
}

#[test]
fn test_completion_context_cursor_at_end_of_line() {
    // Cursor at end of line with non-ASCII
    let ctx = run_inline("echo 'Tëst message' résumé 📄█");

    match ctx.comp_types().first().unwrap() {
        CompType::CommandComp { command_word } => {
            assert_eq!(ctx.context.s, "echo 'Tëst message' résumé 📄");
            assert_eq!(command_word, "echo");
            assert_eq!(ctx.word_under_cursor.as_ref(), "📄");
        }
        _ => panic!("Expected CommandComp"),
    }
}

#[test]
fn test_completion_context_cursor_in_middle_word_with_unicode() {
    // Cursor in middle of word with unicode characters
    let ctx = run_inline("ls --sïze caf█é 日本語");

    match ctx.comp_types().first().unwrap() {
        CompType::CommandComp { command_word } => {
            assert_eq!(ctx.context.s, "ls --sïze café 日本語");
            assert_eq!(command_word, "ls");
            assert_eq!(ctx.word_under_cursor.as_ref(), "café");
        }
        _ => panic!("Expected CommandComp"),
    }
}

#[test]
fn test_completion_context_cursor_at_start_chinese_chars() {
    // Cursor at start with Chinese characters
    let ctx = run_inline("█文件 --option värde");
    match ctx.comp_types().first().unwrap() {
        CompType::FirstWord => {
            assert_eq!(ctx.word_under_cursor.as_ref(), "文件");
        }
        _ => panic!("Expected FirstWord"),
    }
}

#[test]
fn test_completion_context_cursor_in_middle_chinese() {
    // Cursor in middle of Chinese word
    let ctx = run_inline("git 提█交 --mëssage 'hëllo'");

    match ctx.comp_types().first().unwrap() {
        CompType::CommandComp { command_word } => {
            assert_eq!(ctx.context.s, "git 提交 --mëssage 'hëllo'");
            assert_eq!(command_word, "git");
            assert_eq!(ctx.word_under_cursor.as_ref(), "提交");
        }
        _ => panic!("Expected CommandComp"),
    }
}

#[test]
fn test_completion_context_cursor_end_arabic_text() {
    // Cursor at end with Arabic text
    let ctx = run_inline("cat مرحبا --öption 🔥█");

    match ctx.comp_types().first().unwrap() {
        CompType::CommandComp { command_word } => {
            assert_eq!(ctx.context.s, "cat مرحبا --öption 🔥");
            assert_eq!(command_word, "cat");
            assert_eq!(ctx.word_under_cursor.as_ref(), "🔥");
        }
        _ => panic!("Expected CommandComp"),
    }
}

#[test]
fn test_completion_context_cursor_middle_cyrillic() {
    // Cursor in middle of Cyrillic word
    let ctx = run_inline("ls фай█л --süze привет 🎯");

    match ctx.comp_types().first().unwrap() {
        CompType::CommandComp { command_word } => {
            assert_eq!(ctx.context.s, "ls файл --süze привет 🎯");
            assert_eq!(command_word, "ls");
            assert_eq!(ctx.word_under_cursor.as_ref(), "файл");
        }
        _ => panic!("Expected CommandComp"),
    }
}

#[test]
fn test_completion_context_blank_space_mixed_scripts() {
    // Cursor on blank space with mixed scripts
    let ctx = run_inline("grep 'pättërn' █файл.txt 日本語 🚀");

    match ctx.comp_types().first().unwrap() {
        CompType::CommandComp { command_word } => {
            assert_eq!(ctx.context.s, "grep 'pättërn' файл.txt 日本語 🚀");
            assert_eq!(command_word, "grep");
            assert_eq!(ctx.word_under_cursor.as_ref(), "файл.txt");
        }
        _ => panic!("Expected CommandComp"),
    }
}

#[test]
fn test_completion_context_start_emoji_only() {
    // Cursor at start of emoji-only command
    let ctx = run_inline("█🎉 🎊 🎈 --flâg");
    match ctx.comp_types().first().unwrap() {
        CompType::FirstWord => {
            assert_eq!(ctx.word_under_cursor.as_ref(), "🎉");
        }
        _ => panic!("Expected FirstWord"),
    }
}

#[test]
fn test_completion_context_end_accented_characters() {
    // Cursor at end with heavily accented text
    let ctx = run_inline("find . -näme 'fîlé' -type f 🔍█");

    match ctx.comp_types().first().unwrap() {
        CompType::CommandComp { command_word } => {
            assert_eq!(ctx.context.s, "find . -näme 'fîlé' -type f 🔍");
            assert_eq!(command_word, "find");
            assert_eq!(ctx.word_under_cursor.as_ref(), "🔍");
        }
        _ => panic!("Expected CommandComp"),
    }
}

#[test]
fn test_completion_context_space_between_multibyte() {
    // Cursor on space between multibyte characters
    let ctx = run_inline("écho 'mëssagé' █文件 🎨");

    match ctx.comp_types().first().unwrap() {
        CompType::CommandComp { command_word } => {
            assert_eq!(ctx.context.s, "écho 'mëssagé' 文件 🎨");
            assert_eq!(command_word, "écho");
            assert_eq!(ctx.word_under_cursor.as_ref(), "文件");
        }
        _ => panic!("Expected CommandComp"),
    }
}

#[test]
fn test_completion_context_middle_thai_text() {
    // Cursor in middle of Thai text
    let ctx = run_inline("cat ไฟ█ล์ --öption วันนี้ 🌟");

    match ctx.comp_types().first().unwrap() {
        CompType::CommandComp { command_word } => {
            assert_eq!(ctx.context.s, "cat ไฟล์ --öption วันนี้ 🌟");
            assert_eq!(command_word, "cat");
            assert_eq!(ctx.word_under_cursor.as_ref(), "ไฟล์");
        }
        _ => panic!("Expected CommandComp"),
    }
}

#[test]
fn test_word_under_cursor_with_word_after() {
    // This is the bug: when cursor is at END of word AND there's a word after,
    // word_under_cursor should be the current word, not ""
    // Example: "cd fo[cursor] bar" - word_under_cursor should be "fo", not ""
    let ctx = run_inline("cd fo█ bar");

    match ctx.comp_types().first().unwrap() {
        CompType::CommandComp { command_word } => {
            assert_eq!(command_word, "cd");
            assert_eq!(ctx.word_under_cursor.as_ref(), "fo");
        }
        _ => panic!("Expected CommandComp"),
    }
}

#[test]
fn test_word_under_cursor_in_middle_with_word_after() {
    // Cursor in the middle of "foo" when "bar" follows
    let ctx = run_inline("cd f█oo bar");

    match ctx.comp_types().first().unwrap() {
        CompType::CommandComp { command_word } => {
            assert_eq!(command_word, "cd");
            assert_eq!(ctx.word_under_cursor.as_ref(), "foo");
        }
        _ => panic!("Expected CommandComp"),
    }
}

#[test]
fn test_word_with_double_quote_1() {
    let ctx = run_inline(r#"cd "foo█"#);

    match ctx.comp_types().first().unwrap() {
        CompType::CommandComp { command_word } => {
            assert_eq!(command_word, "cd");
            assert_eq!(ctx.word_under_cursor.as_ref(), "\"foo");
        }
        _ => panic!("Expected CommandComp"),
    }
}

#[test]

fn test_word_with_double_quote_2() {
    let ctx = run_inline(r#"cd "foo   asdf█"#);

    match ctx.comp_types().first().unwrap() {
        CompType::CommandComp { command_word } => {
            assert_eq!(command_word, "cd");
            assert_eq!(ctx.word_under_cursor.as_ref(), "\"foo   asdf");
        }
        _ => panic!("Expected CommandComp"),
    }
}

#[test]
fn test_word_with_double_quote_3() {
    let ctx = run_inline(r#"cd "foo █"#);

    match ctx.comp_types().first().unwrap() {
        CompType::CommandComp { command_word } => {
            assert_eq!(command_word, "cd");
            assert_eq!(ctx.word_under_cursor.as_ref(), "\"foo ");
        }
        _ => panic!("Expected CommandComp"),
    }
}

#[test]
fn test_word_with_double_quote_4() {
    let ctx = run_inline(r#"echo && cd "foo █"#);

    match ctx.comp_types().first().unwrap() {
        CompType::CommandComp { command_word } => {
            assert_eq!(command_word, "cd");
            assert_eq!(ctx.word_under_cursor.as_ref(), "\"foo ");
        }
        _ => panic!("Expected CommandComp"),
    }
}

#[test]
fn test_word_with_single_quote_1() {
    let ctx = run_inline(r#"cd 'foo█"#);

    match ctx.comp_types().first().unwrap() {
        CompType::CommandComp { command_word } => {
            assert_eq!(command_word, "cd");
            assert_eq!(ctx.word_under_cursor.as_ref(), "'foo");
        }
        _ => panic!("Expected CommandComp"),
    }
}

#[test]
fn test_word_with_single_quote_2() {
    let ctx = run_inline(r#"cd 'foo   asdf█"#);

    match ctx.comp_types().first().unwrap() {
        CompType::CommandComp { command_word } => {
            assert_eq!(command_word, "cd");
            assert_eq!(ctx.word_under_cursor.as_ref(), "'foo   asdf");
        }
        _ => panic!("Expected CommandComp"),
    }
}

#[test]
fn test_word_with_single_quote_3() {
    let ctx = run_inline(r#"echo && cd 'foo   asdf█"#);

    match ctx.comp_types().first().unwrap() {
        CompType::CommandComp { command_word } => {
            assert_eq!(command_word, "cd");
            assert_eq!(ctx.word_under_cursor.as_ref(), "'foo   asdf");
        }
        _ => panic!("Expected CommandComp"),
    }
}

#[test]
fn test_word_with_backslash_1() {
    let ctx = run_inline(r#"echo && cd foo\█"#);

    match ctx.comp_types().first().unwrap() {
        CompType::CommandComp { command_word } => {
            assert_eq!(command_word, "cd");
            assert_eq!(ctx.word_under_cursor.as_ref(), "foo\\");
        }
        _ => panic!("Expected CommandComp"),
    }
}

#[test]
fn test_word_with_backslash_2() {
    let ctx = run_inline(r#"cd foo\ █"#);

    assert_eq!(ctx.word_under_cursor.as_ref(), "foo\\ ");
    assert_eq!(
        ctx.comp_types(),
        vec![
            CompType::CommandComp {
                command_word: "cd".to_string()
            },
            CompType::FilenameExpansion,
            CompType::FuzzyCommandComp {
                command_word: "cd".to_string()
            },
            CompType::FuzzyFilenameExpansion
        ]
    );
}

#[test]
fn test_hostname_completion() {
    let ctx = run_inline("ssh user@hostn█");

    assert_eq!(ctx.word_under_cursor.as_ref(), "user@hostn");
    assert_eq!(
        ctx.comp_types(),
        vec![
            CompType::CommandComp {
                command_word: "ssh".to_string()
            },
            CompType::HostnameExpansion
        ]
    );
}

#[test]
fn test_past_newline() {
    let ctx = run_inline("echo \"\n█");

    assert_eq!(ctx.word_under_cursor.as_ref(), "");
    assert_eq!(
        ctx.comp_types(),
        vec![
            CompType::CommandComp {
                command_word: "echo".to_string()
            },
            CompType::FilenameExpansion,
            CompType::FuzzyCommandComp {
                command_word: "echo".to_string()
            },
            CompType::FuzzyFilenameExpansion
        ]
    );
}

#[test]
fn test_env_var_completion() {
    let ctx = run_inline("echo $HOM█");

    assert_eq!(ctx.word_under_cursor.as_ref(), "$HOM");
    assert_eq!(
        ctx.comp_types(),
        vec![
            CompType::CommandComp {
                command_word: "echo".to_string()
            },
            CompType::EnvVariable
        ]
    );
}

#[test]
fn test_env_var_completion_in_double_quotes() {
    let ctx = run_inline("echo \"$HOM█\"");

    assert_eq!(ctx.word_under_cursor.as_ref(), "$HOM");
    assert_eq!(
        ctx.comp_types(),
        vec![
            CompType::CommandComp {
                command_word: "echo".to_string()
            },
            CompType::EnvVariable
        ]
    );
}

#[test]
fn test_env_var_path_completion_in_double_quotes() {
    let ctx = run_inline("echo \"$HOME/abc█\"");

    assert_eq!(ctx.word_under_cursor.as_ref(), "\"$HOME/abc");
    assert_eq!(
        ctx.comp_types(),
        vec![
            CompType::CommandComp {
                command_word: "echo".to_string()
            },
            CompType::FilenameExpansion,
            CompType::FuzzyFilenameExpansion
        ]
    );
}

#[test]
fn test_second_env_var_completion_in_double_quotes() {
    let ctx = run_inline("echo \"$FOO$HOM█\"");

    assert_eq!(ctx.word_under_cursor.as_ref(), "$HOM");
    assert_eq!(
        ctx.comp_types(),
        vec![
            CompType::CommandComp {
                command_word: "echo".to_string()
            },
            CompType::EnvVariable
        ]
    );
}

#[test]
fn test_env_var_completion_in_double_quotes_trailingspace() {
    let ctx = run_inline("echo \"asdf $HOM█ \"");

    assert_eq!(ctx.word_under_cursor.as_ref(), "$HOM");
    assert_eq!(
        ctx.comp_types(),
        vec![
            CompType::CommandComp {
                command_word: "echo".to_string()
            },
            CompType::EnvVariable
        ]
    );
}

#[test]
fn test_start_with_env_var() {
    let ctx = run_inline("$HOME/█");

    assert_eq!(ctx.word_under_cursor.as_ref(), "$HOME/");

    assert_eq!(
        ctx.comp_types(),
        vec![
            CompType::FirstWord,
            CompType::FuzzyFirstWord,
            CompType::FilenameExpansion,
            CompType::FuzzyFilenameExpansion
        ]
    );
}

#[test]
fn test_env_var_at_start_but_not_end() {
    let ctx = run_inline(r#"ll $HOME/projects/flyline/qwe\ asd/\$█"#);

    assert_eq!(
        ctx.word_under_cursor.as_ref(),
        r#"$HOME/projects/flyline/qwe\ asd/\$"#
    );

    assert_eq!(
        ctx.comp_types(),
        vec![
            CompType::CommandComp {
                command_word: "ll".to_string()
            },
            CompType::FilenameExpansion,
            CompType::FuzzyFilenameExpansion
        ]
    );
}

#[test]
fn test_completion_context_uses_glob_expansion_for_patterns() {
    let ctx = run_inline(r"echo ./{foo,bar}.txt█");

    assert_eq!(ctx.word_under_cursor.as_ref(), "./{foo,bar}.txt");
    assert_eq!(
        ctx.comp_types(),
        vec![
            CompType::CommandComp {
                command_word: "echo".to_string()
            },
            CompType::GlobExpansion
        ]
    );

    let ctx = run_inline(r"echo ./foo*█");

    assert_eq!(ctx.word_under_cursor.as_ref(), "./foo*");
    assert_eq!(
        ctx.comp_types(),
        vec![
            CompType::CommandComp {
                command_word: "echo".to_string()
            },
            CompType::GlobExpansion
        ]
    );
}

#[test]
fn test_completion_context_uses_filename_expansion_for_literals() {
    let ctx = run_inline(r"echo ./foo\*█");

    assert_eq!(ctx.word_under_cursor.as_ref(), r"./foo\*");
    assert_eq!(
        ctx.comp_types(),
        vec![
            CompType::CommandComp {
                command_word: "echo".to_string()
            },
            CompType::FilenameExpansion,
            CompType::FuzzyFilenameExpansion
        ]
    );

    let ctx = run_inline(r"echo ./foo{bar}.txt█");

    assert_eq!(ctx.word_under_cursor.as_ref(), "./foo{bar}.txt");
    assert_eq!(
        ctx.comp_types(),
        vec![
            CompType::CommandComp {
                command_word: "echo".to_string()
            },
            CompType::FilenameExpansion,
            CompType::FuzzyFilenameExpansion
        ]
    );
}

#[test]
fn test_brace_expansion() {
    let ctx = run_inline(r"echo {foo,bar}*█");

    assert_eq!(ctx.word_under_cursor.as_ref(), r"{foo,bar}*");
}

#[test]
fn with_wuc_replaced_cursor_before_word_goes_to_new_end() {
    let res = run_inline(r#"git com█mit"#);
    let mut before = res.clone();
    before.cursor_byte_pos = res.word_under_cursor.start;
    let replaced = before.with_wuc_replaced("c");
    assert_eq!(replaced.cursor_byte_pos, replaced.word_under_cursor.end());
}
