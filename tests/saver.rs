use saver::dispatch::{Event, Step};
use saver::intent::{Action, BuildError, Saver};
use saver::record::{exit_code, list_lines, not_found_message, parse_record, record_content};
use saver::text::{decimal_text, join_with_space, split_on_space};

fn words(ws: &[&str]) -> Vec<String> {
    ws.iter().map(|w| w.to_string()).collect()
}

fn home() -> Option<String> {
    Some("/home/u".to_string())
}

fn built(ws: &[&str]) -> Saver {
    match Saver::build(&words(ws), home()) {
        Ok(s) => s,
        Err(e) => panic!("unexpected {:?}", e),
    }
}

fn failed(ws: &[&str], h: Option<String>) -> BuildError {
    match Saver::build(&words(ws), h) {
        Ok(_) => panic!("unexpected success"),
        Err(e) => e,
    }
}

fn finish(step: Step) -> (Vec<String>, Vec<String>, i32) {
    match step {
        Step::Finish { out, err, code } => (out, err, code),
        _ => panic!("expected the end of the invocation"),
    }
}

fn spawn(step: Step) -> (String, Vec<String>) {
    match step {
        Step::Spawn { cmd, args } => (cmd, args),
        _ => panic!("expected a child process"),
    }
}

#[test]
fn save_content_has_command_then_arguments() {
    assert_eq!(record_content(&"echo".to_string(), &words(&["hi"])), "echo hi");
    assert_eq!(record_content(&"printf".to_string(), &words(&["%s", "x"])), "printf %s x");
}

#[test]
fn save_content_keeps_trailing_space_without_arguments() {
    assert_eq!(record_content(&"ls".to_string(), &words(&[])), "ls ");
}

#[test]
fn save_writes_record_into_database() {
    let s = built(&["saver", "s", "n", "echo", "hi"]);
    match s.step(Event::DirReady) {
        Step::WriteRecord { dir, name, content } => {
            assert_eq!(dir, "/home/u/.saver/db");
            assert_eq!(name, "n");
            assert_eq!(content, "echo hi");
        }
        _ => panic!("expected a write"),
    }
    let (cmd, args) = spawn(s.step(Event::Saved));
    assert_eq!(cmd, "echo");
    assert_eq!(args, words(&["hi"]));
}

#[test]
fn second_save_writes_only_latest_content() {
    let first = built(&["saver", "s", "n", "echo", "one"]);
    let second = built(&["saver", "s", "n", "echo", "two"]);
    for (s, want) in [(first, "echo one"), (second, "echo two")] {
        match s.step(Event::DirReady) {
            Step::WriteRecord { name, content, .. } => {
                assert_eq!(name, "n");
                assert_eq!(content, want);
            }
            _ => panic!("expected a write"),
        }
    }
}

#[test]
fn run_reconstructs_saved_command() {
    let content = record_content(&"printf".to_string(), &words(&["%s", "x"]));
    let (cmd, args) = parse_record(&content);
    assert_eq!(cmd, "printf");
    assert_eq!(args, words(&["%s", "x"]));
    let s = built(&["saver", "r", "n"]);
    let (cmd, args) = spawn(s.step(Event::Read(content)));
    assert_eq!(cmd, "printf");
    assert_eq!(args, words(&["%s", "x"]));
}

#[test]
fn run_of_record_without_arguments_passes_one_empty_argument() {
    let (cmd, args) = parse_record(&"ls ".to_string());
    assert_eq!(cmd, "ls");
    assert_eq!(args, words(&[""]));
}

#[test]
fn run_trims_pieces() {
    let (cmd, args) = parse_record(&"echo\t hi \n".to_string());
    assert_eq!(cmd, "echo");
    assert_eq!(args, words(&["hi", ""]));
}

#[test]
fn show_prints_record_verbatim() {
    let s = built(&["saver", "g", "n"]);
    match s.step(Event::DirReady) {
        Step::ReadRecord { dir, name } => {
            assert_eq!(dir, "/home/u/.saver/db");
            assert_eq!(name, "n");
        }
        _ => panic!("expected a read"),
    }
    let (out, err, code) = finish(s.step(Event::Read("echo hi ".to_string())));
    assert_eq!(out, words(&["echo hi "]));
    assert!(err.is_empty());
    assert_eq!(code, 0);
}

#[test]
fn listing_empty_directory_prints_nothing() {
    assert!(list_lines(&words(&[])).is_empty());
    let s = built(&["saver", "l"]);
    let (out, err, code) = finish(s.step(Event::Listed(Vec::new())));
    assert!(out.is_empty());
    assert!(err.is_empty());
    assert_eq!(code, 0);
}

#[test]
fn listing_numbers_records_from_one() {
    assert_eq!(list_lines(&words(&["a", "b"])), words(&["1) a", "2) b"]));
    let s = built(&["saver", "l"]);
    match s.step(Event::DirReady) {
        Step::ListRecords { dir } => assert_eq!(dir, "/home/u/.saver/db"),
        _ => panic!("expected a listing"),
    }
    let (out, _, code) = finish(s.step(Event::Listed(words(&["a", "b"]))));
    assert_eq!(out, words(&["1) a", "2) b"]));
    assert_eq!(code, 0);
}

#[test]
fn listing_numbers_past_nine() {
    let names: Vec<String> = (0..12).map(|i| format!("r{}", i)).collect();
    let lines = list_lines(&names);
    assert_eq!(lines[9], "10) r9");
    assert_eq!(lines[11], "12) r11");
}

#[test]
fn decimal_text_renders_numbers() {
    assert_eq!(decimal_text(0), "0");
    assert_eq!(decimal_text(7), "7");
    assert_eq!(decimal_text(10), "10");
    assert_eq!(decimal_text(1234), "1234");
}

#[test]
fn delete_of_missing_record_reports_not_found() {
    let s = built(&["saver", "d", "gone", "--saver-db", "/d"]);
    match s.step(Event::DirReady) {
        Step::RemoveRecord { dir, name } => {
            assert_eq!(dir, "/d");
            assert_eq!(name, "gone");
        }
        _ => panic!("expected a removal"),
    }
    let (out, err, code) = finish(s.step(Event::RemoveFailed));
    assert_eq!(out, words(&["Command gone not found in database /d"]));
    assert!(err.is_empty());
    assert_eq!(code, 1);
}

#[test]
fn delete_of_present_record_ends_cleanly() {
    let s = built(&["saver", "d", "n"]);
    let (out, err, code) = finish(s.step(Event::Removed));
    assert!(out.is_empty() && err.is_empty());
    assert_eq!(code, 0);
}

#[test]
fn read_of_missing_record_reports_not_found() {
    let s = built(&["saver", "g", "n"]);
    let (out, _, code) = finish(s.step(Event::ReadFailed));
    assert_eq!(out, words(&["Command n not found in database /home/u/.saver/db"]));
    assert_eq!(code, 1);
    assert_eq!(
        not_found_message(&"x".to_string(), &"/y".to_string()),
        "Command x not found in database /y"
    );
}

#[test]
fn unknown_action_asks_for_help() {
    assert_eq!(failed(&["saver", "x"], home()), BuildError::Help);
    assert_eq!(failed(&["saver"], home()), BuildError::Help);
    assert_eq!(failed(&["saver", "x"], None), BuildError::Help);
}

#[test]
fn missing_positional_asks_for_help() {
    assert_eq!(failed(&["saver", "s"], home()), BuildError::Help);
    assert_eq!(failed(&["saver", "s", "n"], home()), BuildError::Help);
    assert_eq!(failed(&["saver", "s", "", "echo"], home()), BuildError::Help);
    assert_eq!(failed(&["saver", "g"], home()), BuildError::Help);
    assert_eq!(failed(&["saver", "r", ""], home()), BuildError::Help);
    assert_eq!(failed(&["saver", "d"], home()), BuildError::Help);
}

#[test]
fn missing_home_is_reported() {
    assert_eq!(failed(&["saver", "l"], None), BuildError::NoHome);
    assert_eq!(failed(&["saver", "s"], None), BuildError::NoHome);
}

#[test]
fn build_reads_each_action() {
    let s = built(&["saver", "s", "n", "curl", "https://example.com"]);
    assert_eq!(s.action, Action::Save);
    assert_eq!(s.name, "n");
    assert_eq!(s.cmd, "curl");
    assert_eq!(s.cmd_args, words(&["https://example.com"]));
    assert_eq!(s.db_dir, "/home/u/.saver/db");
    let s = built(&["saver", "l", "extra"]);
    assert_eq!(s.action, Action::List);
    assert_eq!(s.name, "");
    assert_eq!(s.cmd_args, words(&["extra"]));
    assert_eq!(built(&["saver", "g", "n"]).action, Action::Show);
    assert_eq!(built(&["saver", "r", "n"]).action, Action::Run);
    assert_eq!(built(&["saver", "d", "n"]).action, Action::Delete);
}

#[test]
fn database_option_redirects_every_step() {
    let s = built(&["saver", "l", "--saver-db", "/custom/path"]);
    assert_eq!(s.db_dir, "/custom/path");
    match s.step(Event::Start) {
        Step::EnsureDir { dir } => assert_eq!(dir, "/custom/path"),
        _ => panic!("expected the directory first"),
    }
    match s.step(Event::DirReady) {
        Step::ListRecords { dir } => assert_eq!(dir, "/custom/path"),
        _ => panic!("expected a listing"),
    }
}

#[test]
fn database_option_among_arguments() {
    let s = built(&["saver", "s", "n", "echo", "a", " --saver-db ", "/x", "b"]);
    assert_eq!(s.db_dir, "/x");
    assert_eq!(s.cmd_args, words(&["a", "b"]));
}

#[test]
fn database_option_without_value_keeps_default() {
    let s = built(&["saver", "g", "n", "--saver-db"]);
    assert_eq!(s.db_dir, "/home/u/.saver/db");
    assert!(s.cmd_args.is_empty());
}

#[test]
fn directory_failure_is_reported() {
    let s = built(&["saver", "l"]);
    let (out, err, code) = finish(s.step(Event::DirFailed("denied".to_string())));
    assert_eq!(out, words(&["denied"]));
    assert!(err.is_empty());
    assert_eq!(code, 1);
}

#[test]
fn save_failure_is_reported() {
    let s = built(&["saver", "s", "n", "echo"]);
    let (out, _, code) = finish(s.step(Event::SaveFailed));
    assert_eq!(out, words(&["Failed to save cmd"]));
    assert_eq!(code, 1);
}

#[test]
fn child_status_becomes_exit_status() {
    assert_eq!(exit_code(Some(3)), 3);
    assert_eq!(exit_code(None), 0);
    let s = built(&["saver", "r", "n"]);
    assert_eq!(finish(s.step(Event::Exited(Some(42)))).2, 42);
    assert_eq!(finish(s.step(Event::Exited(None))).2, 0);
    let (out, err, code) = finish(s.step(Event::SpawnFailed("no such file".to_string())));
    assert!(out.is_empty());
    assert_eq!(err, words(&["no such file"]));
    assert_eq!(code, 1);
}

#[test]
fn split_and_join_on_single_spaces() {
    assert_eq!(split_on_space("a  b"), words(&["a", "", "b"]));
    assert_eq!(split_on_space(""), words(&[""]));
    assert_eq!(join_with_space(&words(&["a", "b", "c"])), "a b c");
    assert_eq!(join_with_space(&words(&[])), "");
}
