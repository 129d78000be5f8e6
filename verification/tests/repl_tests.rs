use csvql::repl::{repl_step, ReplAction, ReplEvent};

#[test]
fn empty_line_is_skipped() {
    match repl_step(ReplEvent::Line(String::new())) {
        ReplAction::Skip => {},
        _ => panic!("an empty line must be discarded"),
    }
}

#[test]
fn whitespace_only_line_is_skipped() {
    match repl_step(ReplEvent::Line("   \t  ".to_string())) {
        ReplAction::Skip => {},
        _ => panic!("a blank line must be discarded"),
    }
}

#[test]
fn unicode_whitespace_line_is_skipped() {
    match repl_step(ReplEvent::Line("\u{a0}\u{2003}\u{3000}".to_string())) {
        ReplAction::Skip => {},
        _ => panic!("a line of Unicode whitespace must be discarded"),
    }
}

#[test]
fn nonblank_line_is_run_unchanged() {
    match repl_step(ReplEvent::Line("select count(*) from t".to_string())) {
        ReplAction::Run(l) => assert_eq!(l, "select count(*) from t"),
        _ => panic!("a non-blank line must be run"),
    }
}

#[test]
fn line_with_surrounding_spaces_is_run() {
    match repl_step(ReplEvent::Line("  select 1  ".to_string())) {
        ReplAction::Run(l) => assert_eq!(l, "  select 1  "),
        _ => panic!("a non-blank line must be run"),
    }
}

#[test]
fn interrupt_is_swallowed() {
    match repl_step(ReplEvent::Interrupted) {
        ReplAction::Notice => {},
        _ => panic!("an interrupt must only print a notice"),
    }
}

#[test]
fn end_of_input_exits() {
    match repl_step(ReplEvent::EndOfInput) {
        ReplAction::Exit => {},
        _ => panic!("end of input must end the loop"),
    }
}

#[test]
fn read_error_fails_with_its_message() {
    match repl_step(ReplEvent::ReadError("boom".to_string())) {
        ReplAction::FailExit(m) => assert_eq!(m, "boom"),
        _ => panic!("a read error must end the process with its message"),
    }
}
