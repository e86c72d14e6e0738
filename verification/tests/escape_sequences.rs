use terminal_server::osc::{
    exit_code_of_group, extract_command_from_osc133b, extract_current_dir, extract_exit_code,
    is_real_output,
};
use terminal_server::recording::looks_like_json;

#[test]
fn command_between_mark_and_erase() {
    let line = "user@host $ \x1b]133;B\x07 cargo build \x1b[K\x1b[?2004l";
    assert_eq!(extract_command_from_osc133b(line), "cargo build");
}

#[test]
fn command_up_to_the_end_of_the_line() {
    assert_eq!(extract_command_from_osc133b("$ \x1b]133;B\x07ls -la\r\n"), "ls -la");
}

#[test]
fn command_after_the_first_mark() {
    let line = "\x1b]133;B\x07a\x1b[K\x1b]133;B\x07b\x1b[K";
    assert_eq!(extract_command_from_osc133b(line), "a");
}

#[test]
fn erase_sequence_before_the_mark_does_not_count() {
    assert_eq!(extract_command_from_osc133b("\x1b[K\x1b]133;B\x07pwd"), "pwd");
}

#[test]
fn no_command_without_mark() {
    assert_eq!(extract_command_from_osc133b("cargo build\x1b[K"), "");
    assert_eq!(extract_command_from_osc133b(""), "");
    assert_eq!(extract_command_from_osc133b("\x1b]133;B"), "");
}

#[test]
fn command_that_is_blank() {
    assert_eq!(extract_command_from_osc133b("\x1b]133;B\x07 \u{2003}\u{3000}\t\x1b[Kx"), "");
}

#[test]
fn command_outside_of_ascii() {
    assert_eq!(extract_command_from_osc133b("→ \x1b]133;B\x07 écho ü \x1b[K"), "écho ü");
}

#[test]
fn exit_code_in_mark() {
    assert_eq!(extract_exit_code("\x1b]133;D;0\x07"), 0);
    assert_eq!(extract_exit_code("text\x1b]133;D;130\x07more"), 130);
    assert_eq!(extract_exit_code("\x1b]133;D;007\x07"), 7);
}

#[test]
fn first_exit_code_counts() {
    assert_eq!(extract_exit_code("\x1b]133;D;1\x07\x1b]133;D;2\x07"), 1);
    assert_eq!(extract_exit_code("\x1b]133;D;\x07\x1b]133;D;2\x07"), 2);
    assert_eq!(extract_exit_code("\x1b]133;D;1;x\x07\x1b]133;D;2\x07"), 2);
}

#[test]
fn no_exit_code() {
    assert_eq!(extract_exit_code(""), -1);
    assert_eq!(extract_exit_code("\x1b]133;D\x07"), -1);
    assert_eq!(extract_exit_code("\x1b]133;D;12"), -1);
    assert_eq!(extract_exit_code("\x1b]133;D;-1\x07"), -1);
    assert_eq!(extract_exit_code("\x1b]133;D;x\x07"), -1);
}

#[test]
fn exit_code_that_does_not_fit() {
    assert_eq!(extract_exit_code("\x1b]133;D;9223372036854775807\x07"), i64::MAX);
    assert_eq!(extract_exit_code("\x1b]133;D;9223372036854775808\x07"), -1);
}

#[test]
fn exit_code_in_digits_of_another_script() {
    assert_eq!(extract_exit_code("\x1b]133;D;\u{663}\x07\x1b]133;D;5\x07"), -1);
}

#[test]
fn exit_code_of_captured_text() {
    assert_eq!(exit_code_of_group(&None), -1);
    assert_eq!(exit_code_of_group(&Some("42".to_string())), 42);
    assert_eq!(exit_code_of_group(&Some("+42".to_string())), 42);
    assert_eq!(exit_code_of_group(&Some("-42".to_string())), -42);
    assert_eq!(exit_code_of_group(&Some("-9223372036854775808".to_string())), i64::MIN);
    assert_eq!(exit_code_of_group(&Some("".to_string())), -1);
    assert_eq!(exit_code_of_group(&Some("-".to_string())), -1);
    assert_eq!(exit_code_of_group(&Some(" 42".to_string())), -1);
    assert_eq!(exit_code_of_group(&Some("4_2".to_string())), -1);
}

#[test]
fn directory_in_mark() {
    let data = "x\x1b]1337;CurrentDir=/home/user\x07y\x07";
    assert_eq!(extract_current_dir(data), Some("/home/user".to_string()));
    assert_eq!(extract_current_dir("\x1b]1337;CurrentDir=\x07"), Some(String::new()));
    assert_eq!(extract_current_dir("\x1b]1337;CurrentDir=a\nb\x07"), Some("a\nb".to_string()));
}

#[test]
fn first_directory_counts() {
    let data = "\x1b]1337;CurrentDir=/a\x07\x1b]1337;CurrentDir=/b\x07";
    assert_eq!(extract_current_dir(data), Some("/a".to_string()));
    let nested = "\x1b]1337;CurrentDir=\x1b]1337;CurrentDir=/b\x07";
    assert_eq!(extract_current_dir(nested), Some("\x1b]1337;CurrentDir=/b".to_string()));
}

#[test]
fn no_directory() {
    assert_eq!(extract_current_dir("\x1b]1337;CurrentDir=/home"), None);
    assert_eq!(extract_current_dir("\x07/home"), None);
}

#[test]
fn output_of_a_command() {
    assert!(is_real_output("Compiling foo"));
    assert!(is_real_output(" \x1b]133;C\x07"));
    assert!(is_real_output("x\x1b]133;D;0\x07"));
    assert!(is_real_output("\x1b]133;A\x07"));
    assert!(is_real_output("\x1b]133;B\x07"));
    assert!(is_real_output("a\n\x1b]133;C\x07"));
}

#[test]
fn marks_are_no_output() {
    assert!(!is_real_output("\x1b]133;C\x07text"));
    assert!(!is_real_output("\x1b]133;D;0\x07text"));
    assert!(!is_real_output("\x1b]1337;RemoteHost=user@host\x07"));
    assert!(!is_real_output("\x1b]1337;CurrentDir=/home\x07"));
}

#[test]
fn blanks_are_no_output() {
    assert!(!is_real_output(""));
    assert!(!is_real_output(" \t\r\n\u{a0}\u{85}\u{2028}"));
    assert!(is_real_output("\u{200b}"));
}

/// The characters that count as whitespace, and no others, may stand around JSON.
#[test]
fn whitespace_characters() {
    for code in 0..=0x10ffffu32 {
        if let Some(c) = char::from_u32(code) {
            let expected = matches!(
                code,
                0x09..=0x0d
                    | 0x20
                    | 0x85
                    | 0xa0
                    | 0x1680
                    | 0x2000..=0x200a
                    | 0x2028
                    | 0x2029
                    | 0x202f
                    | 0x205f
                    | 0x3000
            );
            if c != '{' {
                assert_eq!(looks_like_json(&format!("{c}{{}}")), expected, "{code:x}");
            }
        }
    }
}

#[test]
fn nothing_after_the_erase_sequence_counts() {
    for line in ["$ \x1b]133;B\x07 ls -l ", "\x1b]133;B\x07", "\x1b]133;B\x07a\x1b[Kb"] {
        let command = extract_command_from_osc133b(line);
        for more in ["", "x", "\x1b[K", "\x1b]133;B\x07 other"] {
            let longer = format!("{line}\x1b[K{more}");
            assert_eq!(extract_command_from_osc133b(&longer), command);
        }
    }
}

#[test]
fn exit_code_is_not_negative_but_for_none() {
    assert_eq!(extract_exit_code("\x1b]133;D;-5\x07"), -1);
    assert_eq!(extract_exit_code("\x1b]133;D;0\x07"), 0);
    assert_eq!(extract_exit_code("\x1b]133;D;x\x07\x1b]133;D;7\x07"), 7);
}
