use lexer::{App, AppCommand};
use std::path::PathBuf;

fn words(line: &[&str]) -> Vec<String> {
    line.iter().map(|w| w.to_string()).collect()
}

fn app(line: &[&str]) -> App {
    App::from_arguments(PathBuf::from("/work"), words(line))
}

#[test]
fn arguments_and_flags_are_split() {
    let app = app(&["zetac", "compile", "--usegcc", "main.zt", "-r", "-", "x-y"]);
    assert_eq!(app.current_dir, PathBuf::from("/work"));
    assert_eq!(app.args, words(&["compile", "main.zt", "x-y"]));
    assert_eq!(app.flags, words(&["--usegcc", "-r", "-"]));
}

#[test]
fn the_name_of_the_program_is_no_argument() {
    let alone = app(&["--zetac"]);
    assert_eq!(alone.args, words(&[]));
    assert_eq!(alone.flags, words(&[]));
    let none = app(&[]);
    assert_eq!(none.args, words(&[]));
    assert_eq!(none.flags, words(&[]));
    let empty = app(&["zetac", ""]);
    assert_eq!(empty.args, words(&[""]));
    assert_eq!(empty.flags, words(&[]));
}

#[test]
fn has_flag_finds_any_of_the_flags() {
    let app = app(&["zetac", "compile", "--verbose", "-r"]);
    assert!(app.has_flag(&["--help", "-r"]));
    assert!(app.has_flag(&["--verbose"]));
    assert!(!app.has_flag(&["--help", "-h"]));
    assert!(!app.has_flag(&[]));
    assert!(!app.has_flag(&["compile"]));
    assert!(!app.has_flag(&["--verb"]));
}

#[test]
fn filter_flag_keeps_the_accepted_flags() {
    let app = app(&["zetac", "-r", "--what", "--usegcc", "-x", "-r"]);
    let accepted = ["--usegcc", "-r"];
    assert_eq!(app.filter_flag(&accepted), words(&["-r", "--usegcc", "-r"]));
    assert_eq!(app.rejected_flags(&accepted), words(&["--what", "-x"]));
    assert_eq!(app.filter_flag(&[]), words(&[]));
    assert_eq!(app.rejected_flags(&[]), words(&["-r", "--what", "--usegcc", "-x", "-r"]));
}

#[test]
fn commands() {
    assert_eq!(AppCommand::named("compile"), Some(AppCommand::Unknown));
    assert_eq!(AppCommand::named("help"), None);
    assert_eq!(AppCommand::named(""), None);
    assert_eq!(AppCommand::of_arguments(&words(&["zetac"])), Some(AppCommand::Help));
    assert_eq!(
        AppCommand::of_arguments(&words(&["zetac", "compile", "a.zt"])),
        Some(AppCommand::Unknown)
    );
    assert_eq!(AppCommand::of_arguments(&words(&["zetac", "a.zt"])), None);
    assert_eq!(AppCommand::of_arguments(&words(&[])), None);
}
