use bfcr::balance::SyntaxError;
use bfcr::translate::{translate, translate_into};

const PRELUDE: &str = "#[allow(unused_variables)]
#[allow(unused_mut)]
fn main() {
    let mut stdin_buf = String::new();
    let mut buf_p = 0usize;
    let mut v = init_cells();
    let mut i = 0usize;
    v.push(0);
";

fn init(hint: &str) -> String {
    format!("}}\n\nfn init_cells() -> Vec<u8> {{\n    Vec::<u8>::with_capacity({})\n}}\n", hint)
}

fn count(haystack: &str, needle: &str) -> usize {
    haystack.matches(needle).count()
}

fn statement_lines(code: &str) -> Vec<String> {
    let body = &code[PRELUDE.len()..code.find("}\n\nfn init_cells").unwrap()];
    body.lines().map(|l| l.to_string()).collect()
}

#[test]
fn comments_only_emit_no_statement() {
    let code = translate("hello world\nno commands here!\n", None).unwrap();
    assert_eq!(code, format!("{}{}", PRELUDE, init("0")));
}

#[test]
fn empty_source_translates() {
    let code = translate("", None).unwrap();
    assert_eq!(code, format!("{}{}", PRELUDE, init("0")));
}

#[test]
fn balanced_sources_succeed() {
    assert!(translate("[[]][]", None).is_ok());
    assert!(translate("+[->+<]", None).is_ok());
    assert!(translate("[ comment [ nested ] ]", None).is_ok());
}

#[test]
fn repeated_inc_is_one_run() {
    let code = translate("+++", None).unwrap();
    assert_eq!(statement_lines(&code), vec!["    cinc(&mut v, i, 3);".to_string()]);
}

#[test]
fn kind_change_flushes_run() {
    let code = translate("+-+", None).unwrap();
    assert_eq!(
        statement_lines(&code),
        vec![
            "    cinc(&mut v, i, 1);".to_string(),
            "    cdec(&mut v, i, 1);".to_string(),
            "    cinc(&mut v, i, 1);".to_string(),
        ]
    );
}

#[test]
fn comments_do_not_break_runs() {
    let code = translate("+ +\n+", None).unwrap();
    assert_eq!(statement_lines(&code), vec!["    cinc(&mut v, i, 3);".to_string()]);
}

#[test]
fn brackets_are_never_coalesced() {
    let code = translate("[[]]", None).unwrap();
    assert_eq!(
        statement_lines(&code),
        vec![
            "    while v[i] != 0 {".to_string(),
            "    while v[i] != 0 {".to_string(),
            "    }".to_string(),
            "    }".to_string(),
        ]
    );
}

#[test]
fn long_run_has_multi_digit_count() {
    let source = "+".repeat(300) + &"<".repeat(12);
    let code = translate(&source, None).unwrap();
    assert_eq!(
        statement_lines(&code),
        vec!["    cinc(&mut v, i, 300);".to_string(), "    pdec(&mut i, 12);".to_string()]
    );
}

#[test]
fn unmatched_close_bracket_fails() {
    assert_eq!(translate("]", None), Err(SyntaxError::UnmatchedCloseBracket));
    assert_eq!(translate("+[]]>>", None), Err(SyntaxError::UnmatchedCloseBracket));
}

#[test]
fn unmatched_close_bracket_stops_the_pass() {
    let mut out = String::new();
    let r = translate_into("++]>>[", None, &mut out);
    assert_eq!(r, Err(SyntaxError::UnmatchedCloseBracket));
    assert_eq!(out, format!("{}    cinc(&mut v, i, 2);\n", PRELUDE));
}

#[test]
fn unmatched_open_bracket_fails() {
    assert_eq!(translate("[", None), Err(SyntaxError::UnmatchedOpenBracket));
}

#[test]
fn unmatched_open_bracket_after_full_output() {
    let mut out = String::new();
    let r = translate_into("[", None, &mut out);
    assert_eq!(r, Err(SyntaxError::UnmatchedOpenBracket));
    assert_eq!(out, format!("{}    while v[i] != 0 {{\n{}", PRELUDE, init("0")));
}

#[test]
fn translate_into_appends_to_sink() {
    let mut out = String::from("// head\n");
    assert_eq!(translate_into("", Some(5), &mut out), Ok(()));
    assert_eq!(out, format!("// head\n{}{}", PRELUDE, init("5")));
}

#[test]
fn unused_helpers_are_left_out() {
    let code = translate("+>-<[]", None).unwrap();
    assert!(!code.contains("fn rc("));
    assert!(!code.contains("fn wc("));
    assert_eq!(count(&code, "fn cinc("), 1);
    assert_eq!(count(&code, "fn cdec("), 1);
    assert_eq!(count(&code, "fn pinc("), 1);
    assert_eq!(count(&code, "fn pdec("), 1);
}

#[test]
fn only_used_helpers_appear() {
    let code = translate(",.", None).unwrap();
    assert_eq!(count(&code, "fn rc("), 1);
    assert_eq!(count(&code, "fn wc("), 1);
    assert!(!code.contains("fn cinc("));
    assert!(!code.contains("fn cdec("));
    assert!(!code.contains("fn pinc("));
    assert!(!code.contains("fn pdec("));
}

#[test]
fn helpers_follow_the_alphabet_order() {
    let code = translate(".<+", None).unwrap();
    let a = code.find("fn cinc(").unwrap();
    let b = code.find("fn pdec(").unwrap();
    let c = code.find("fn wc(").unwrap();
    assert!(a < b && b < c);
}

#[test]
fn capacity_hint_counts_right_moves() {
    let code = translate(">>>", None).unwrap();
    assert!(code.contains("Vec::<u8>::with_capacity(3)"));
}

#[test]
fn capacity_hint_counts_characters_not_runs() {
    let code = translate(">>+>", None).unwrap();
    assert!(code.contains("Vec::<u8>::with_capacity(3)"));
}

#[test]
fn explicit_capacity_wins() {
    let code = translate(">>>", Some(100)).unwrap();
    assert!(code.contains("Vec::<u8>::with_capacity(100)"));
    assert!(!code.contains("with_capacity(3)"));
}

#[test]
fn largest_explicit_capacity() {
    let code = translate("", Some(usize::MAX)).unwrap();
    assert!(code.contains(&format!("with_capacity({})", usize::MAX)));
}

#[test]
fn hello_world_translates() {
    let source = "++++++++[>++++[>++>+++>+++>+<<<<-]>+>+>->>+[<]<-]>>.>---.+++++++..+++.>>.<-.<.+++.------.--------.>>+.>++.";
    let code = translate(source, None).unwrap();
    assert_eq!(count(&code, "    wc(v[i]);\n"), 13);
    assert_eq!(count(&code, "fn wc("), 1);
    assert!(!code.contains("fn rc("));
    assert!(code.starts_with(PRELUDE));
    assert!(code.contains("    cinc(&mut v, i, 8);\n    while v[i] != 0 {\n    pinc(&mut v, &mut i, 1);\n    cinc(&mut v, i, 4);\n"));
}

#[test]
fn whole_program_text() {
    let code = translate("+[-].", Some(2)).unwrap();
    let expected = format!(
        "{}    cinc(&mut v, i, 1);\n    while v[i] != 0 {{\n    cdec(&mut v, i, 1);\n    }}\n    wc(v[i]);\n{}{}{}{}",
        PRELUDE,
        init("2"),
        bfcr::registry::helper_source(bfcr::command::Command::Inc),
        bfcr::registry::helper_source(bfcr::command::Command::Dec),
        bfcr::registry::helper_source(bfcr::command::Command::Write),
    );
    assert_eq!(code, expected);
}

#[test]
fn cell_helpers_wrap_around() {
    let code = translate("+-", None).unwrap();
    assert!(code.contains("v[i] = v[i].wrapping_add(x as u8);"));
    assert!(code.contains("v[i] = v[i].wrapping_sub(x as u8);"));
}

#[test]
fn error_messages() {
    assert_eq!(SyntaxError::UnmatchedCloseBracket.message(), "Syntax error: Unmatched ']'.");
    assert_eq!(SyntaxError::UnmatchedOpenBracket.message(), "Syntax error: Unmatched '['.");
}
