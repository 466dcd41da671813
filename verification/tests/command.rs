use cargo_msrv_pin::command::{command_output, command_run, CommandFailure, CommandOutput};
use cargo_msrv_pin::error::PinError;
use cargo_msrv_pin::lockfile::{is_lock_version_mismatch, VERSION_ERROR_MARKER};
use cargo_msrv_pin::text::{contains, count_char, decimal_string, join, same_text, split_lines, starts_with};

fn output(success: bool, code: Option<i32>, stdout: &str, stderr: &str) -> CommandOutput {
    CommandOutput {
        success,
        code,
        stdout: stdout.to_owned(),
        stderr: stderr.to_owned(),
    }
}

#[test]
fn displays_the_command_exit_status_and_captured_output() {
    let f = CommandFailure {
        args: vec!["cargo".to_owned(), "check".to_owned()],
        returncode: 101,
        stdout: vec![],
        stderr: vec!["error: something went wrong".to_owned()],
    };
    assert_eq!(
        f.message(),
        "`cargo check` failed with exit status 101\nstderr:\nerror: something went wrong"
    );
}

#[test]
fn message_lists_stdout_before_stderr() {
    let f = CommandFailure {
        args: vec!["cargo".to_owned(), "update".to_owned()],
        returncode: -1,
        stdout: vec!["a".to_owned(), "b".to_owned()],
        stderr: vec![],
    };
    assert_eq!(f.message(), "`cargo update` failed with exit status -1\nstdout:\na\nb\n");
}

#[test]
fn run_succeeds_on_success() {
    assert!(command_run(&["cargo", "check"], &output(true, Some(0), "", "")).is_ok());
}

#[test]
fn run_reports_the_failure_with_its_lines() {
    let out = output(false, Some(101), "one\r\ntwo\n", "bad\n");
    match command_run(&["cargo", "check"], &out) {
        Err(PinError::Command(f)) => {
            assert_eq!(f.args, vec!["cargo".to_owned(), "check".to_owned()]);
            assert_eq!(f.returncode, 101);
            assert_eq!(f.stdout, vec!["one".to_owned(), "two".to_owned()]);
            assert_eq!(f.stderr, vec!["bad".to_owned()]);
        }
        other => panic!("unexpected result: {other:?}"),
    }
}

#[test]
fn a_signal_without_exit_code_counts_as_minus_one() {
    match command_run(&["cargo"], &output(false, None, "", "")) {
        Err(PinError::Command(f)) => assert_eq!(f.returncode, -1),
        other => panic!("unexpected result: {other:?}"),
    }
}

#[test]
fn output_returns_stdout_or_the_failure() {
    assert_eq!(
        command_output(&["cargo", "metadata"], &output(true, Some(0), "{}\n", "warn")).unwrap(),
        "{}\n"
    );
    assert!(matches!(
        command_output(&["cargo", "metadata"], &output(false, Some(1), "{}", "")),
        Err(PinError::Command(_))
    ));
}

#[test]
fn lock_version_mismatch_is_recognized_in_stderr() {
    let stderr = "error: failed to parse lock file\n\
                  Caused by:\n  lock file version `4` was found, but this version of Cargo does not understand this lock file\n";
    let e = command_run(&["cargo", "+1.75", "metadata"], &output(false, Some(101), "", stderr)).unwrap_err();
    assert!(is_lock_version_mismatch(&e));
    let other = command_run(&["cargo"], &output(false, Some(101), "", "error: no Cargo.toml\n")).unwrap_err();
    assert!(!is_lock_version_mismatch(&other));
    assert!(!is_lock_version_mismatch(&PinError::CommandNotFound("cargo".to_owned())));
    assert_eq!(VERSION_ERROR_MARKER, "lock file version");
}

#[test]
fn splits_lines_like_str_lines() {
    for text in ["", "a", "a\n", "a\r\nb", "a\n\nb\n", "\n", "a\rb\r", "x\r\n\r\n"] {
        let expected: Vec<String> = text.lines().map(str::to_owned).collect();
        assert_eq!(split_lines(text), expected, "{text:?}");
    }
}

#[test]
fn text_helpers() {
    assert_eq!(count_char("1.75.0", '.'), 2);
    assert!(starts_with("registry+https://x", "registry+"));
    assert!(!starts_with("git+https://x", "registry+"));
    assert!(!starts_with("reg", "registry+"));
    assert!(contains("lock file version `4`", "file version"));
    assert!(!contains("lock", "lock file"));
    assert!(contains("abc", ""));
    assert!(same_text("abc", "abc"));
    assert!(!same_text("abc", "abd"));
    assert_eq!(join(&vec!["a".to_owned(), "b".to_owned(), "c".to_owned()], ", "), "a, b, c");
    assert_eq!(join(&vec![], ", "), "");
    assert_eq!(decimal_string(0), "0");
    assert_eq!(decimal_string(-2147483648), "-2147483648");
    assert_eq!(decimal_string(2147483647), "2147483647");
}
