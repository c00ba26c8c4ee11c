use runmany::{
    announcement, decimal_text, help_text, join_words, palette_color, parse_args, plan_run,
    runmany_args_to_options, signed_decimal_text, slot_printer, status_report, version_text,
    Printer, RunPlan, RunmanyOptions,
};

fn to_vec_str(vec: Vec<&str>) -> Vec<String> {
    vec.iter().map(|i| i.to_string()).collect()
}

/// Runs through a printer what a command that prints `lines` and ends with
/// `success` / `code` gives.
fn run_lines(command: Vec<String>, lines: &[&str], success: bool, code: Option<i32>, printer: Printer) -> String {
    let mut printer = printer;
    printer.print(&announcement(&command));
    for line in lines {
        printer.print(line);
    }
    printer.print(&status_report(success, code));
    printer.writer
}

#[test]
fn test_parse_args() {
    let input = to_vec_str(vec![""]);
    let expected: Vec<Vec<String>> = vec![to_vec_str(vec![""])];
    assert_eq!(parse_args(input), expected);

    let input = to_vec_str(vec!["-v"]);
    let expected: Vec<Vec<String>> = vec![to_vec_str(vec!["-v"])];
    assert_eq!(parse_args(input), expected);

    let input = to_vec_str(vec!["-v", "-r"]);
    let expected: Vec<Vec<String>> = vec![to_vec_str(vec!["-v", "-r"])];
    assert_eq!(parse_args(input), expected);

    let input = to_vec_str(vec!["-v", "-r", "::"]);
    let expected: Vec<Vec<String>> = vec![to_vec_str(vec!["-v", "-r"])];
    assert_eq!(parse_args(input), expected);

    let input = to_vec_str(vec!["-v", "-r", "::", "command"]);
    let expected: Vec<Vec<String>> =
        vec![to_vec_str(vec!["-v", "-r"]), to_vec_str(vec!["command"])];
    assert_eq!(parse_args(input), expected);

    let input = to_vec_str(vec!["-v", "-r", "::", "command", "-v"]);
    let expected: Vec<Vec<String>> = vec![
        to_vec_str(vec!["-v", "-r"]),
        to_vec_str(vec!["command", "-v"]),
    ];
    assert_eq!(parse_args(input), expected);

    let input = to_vec_str(vec!["-v", "-r", "::", "command", "-v", "::"]);
    let expected: Vec<Vec<String>> = vec![
        to_vec_str(vec!["-v", "-r"]),
        to_vec_str(vec!["command", "-v"]),
    ];
    assert_eq!(parse_args(input), expected);

    let input = to_vec_str(vec!["-v", "-r", "::", "command", "-v", "::", "command2"]);
    let expected: Vec<Vec<String>> = vec![
        to_vec_str(vec!["-v", "-r"]),
        to_vec_str(vec!["command", "-v"]),
        to_vec_str(vec!["command2"]),
    ];
    assert_eq!(parse_args(input), expected);

    let input = to_vec_str(vec!["-v", "-r", "::", "command::xxx", "-v"]);
    let expected: Vec<Vec<String>> = vec![
        to_vec_str(vec!["-v", "-r"]),
        to_vec_str(vec!["command::xxx", "-v"]),
    ];
    assert_eq!(parse_args(input), expected);
}

#[test]
fn test_runmany_args_to_options() {
    let input = to_vec_str(vec!["-v"]);
    let expected = RunmanyOptions { help: false, no_color: false, version: true };
    assert_eq!(runmany_args_to_options(&input), expected);

    let input = to_vec_str(vec!["-h"]);
    let expected = RunmanyOptions { help: true, no_color: false, version: false };
    assert_eq!(runmany_args_to_options(&input), expected);

    let input = to_vec_str(vec!["--no-color"]);
    let expected = RunmanyOptions { help: false, no_color: true, version: false };
    assert_eq!(runmany_args_to_options(&input), expected);

    let input = to_vec_str(vec!["-v", "-h", "--no-color"]);
    let expected = RunmanyOptions { help: true, no_color: true, version: true };
    assert_eq!(runmany_args_to_options(&input), expected);

    let input = to_vec_str(vec!["--not-existing", "-n"]);
    let expected = RunmanyOptions { help: false, no_color: false, version: false };
    assert_eq!(runmany_args_to_options(&input), expected);
}

#[test]
fn test_spawn_command_output() {
    let out = run_lines(
        to_vec_str(vec!["echo", "foobar"]),
        &["foobar"],
        true,
        Some(0),
        Printer::new(String::new()),
    );

    let expected = "Spawning command: \"echo foobar\"\nfoobar\nCommand finished successfully\n";

    assert_eq!(out.as_bytes(), expected.as_bytes());
}

#[test]
fn test_spawn_command_prefixed_output() {
    let out = run_lines(
        to_vec_str(vec!["echo", "foobar"]),
        &["foobar"],
        true,
        Some(0),
        Printer::new(String::new()).set_prefix("[foo] ".to_string()),
    );

    let expected = "[foo] Spawning command: \"echo foobar\"\n[foo] foobar\n[foo] Command finished successfully\n";

    assert_eq!(out.as_bytes(), expected.as_bytes());
}

#[test]
fn empty_options_group_is_kept() {
    assert_eq!(parse_args(vec![]), vec![Vec::<String>::new()]);
    let input = to_vec_str(vec!["::", "cmd", "a"]);
    assert_eq!(parse_args(input), vec![vec![], to_vec_str(vec!["cmd", "a"])]);
}

#[test]
fn consecutive_separators_give_no_empty_command() {
    let input = to_vec_str(vec!["-v", "::", "::", "cmd"]);
    assert_eq!(parse_args(input), vec![to_vec_str(vec!["-v"]), to_vec_str(vec!["cmd"])]);
    let input = to_vec_str(vec!["::", "::", "::"]);
    assert_eq!(parse_args(input), vec![Vec::<String>::new()]);
}

#[test]
fn separator_inside_token_is_kept() {
    let input = to_vec_str(vec!["::", "a::b", ":::", "::x"]);
    assert_eq!(parse_args(input), vec![vec![], to_vec_str(vec!["a::b", ":::", "::x"])]);
}

#[test]
fn options_ignore_order() {
    let a = runmany_args_to_options(&to_vec_str(vec!["-h", "-v", "--no-color"]));
    let b = runmany_args_to_options(&to_vec_str(vec!["--no-color", "-v", "-h"]));
    assert_eq!(a, b);
    assert_eq!(a, RunmanyOptions { help: true, version: true, no_color: true });
    let c = runmany_args_to_options(&to_vec_str(vec!["x", "--help", "y", "--version"]));
    assert_eq!(c, RunmanyOptions { help: true, version: true, no_color: false });
}

#[test]
fn unknown_token_gives_no_flag() {
    let o = runmany_args_to_options(&to_vec_str(vec!["--bogus"]));
    assert_eq!(o, RunmanyOptions { help: false, version: false, no_color: false });
    assert_eq!(runmany_args_to_options(&vec![]), RunmanyOptions::default());
}

#[test]
fn failing_command_reports_code() {
    assert_eq!(status_report(false, Some(3)), "Command exited with status: 3");
    assert_eq!(status_report(false, Some(127)), "Command exited with status: 127");
    assert_eq!(status_report(false, Some(-1)), "Command exited with status: -1");
    assert_eq!(status_report(false, None), "Command exited with status: unknown");
    assert_eq!(status_report(true, Some(0)), "Command finished successfully");
    let out = run_lines(to_vec_str(vec!["false"]), &[], false, Some(1), Printer::new(String::new()));
    assert_eq!(out, "Spawning command: \"false\"\nCommand exited with status: 1\n");
}

#[test]
fn suppressed_color_prints_plain_lines() {
    let options = RunmanyOptions { help: false, version: false, no_color: true };
    let p = slot_printer(0, &options, String::new());
    assert_eq!(p.prefix, "");
    assert_eq!(p.color, None);
    let out = run_lines(to_vec_str(vec!["echo", "hi"]), &["hi"], true, Some(0), p);
    assert_eq!(out, "Spawning command: \"echo hi\"\nhi\nCommand finished successfully\n");
}

#[test]
fn slot_printer_labels_and_colors() {
    let options = RunmanyOptions::default();
    let p = slot_printer(0, &options, String::new());
    assert_eq!(p.prefix, "[1]");
    assert_eq!(p.color, Some("green".to_string()));
    let p = slot_printer(6, &options, String::new());
    assert_eq!(p.prefix, "[7]");
    assert_eq!(p.color, Some("yellow".to_string()));
    let p = slot_printer(11, &options, String::new());
    assert_eq!(p.prefix, "[12]");
    assert_eq!(p.color, Some("yellow".to_string()));
}

#[test]
fn palette_cycles() {
    let names: Vec<String> = (0..7).map(palette_color).collect();
    assert_eq!(names, to_vec_str(vec!["green", "yellow", "blue", "magenta", "cyan", "green", "yellow"]));
}

#[test]
fn colored_line_is_styled() {
    colored::control::set_override(true);
    let mut p = Printer::new(String::new()).set_color("green".to_string()).set_prefix("[1]".to_string());
    p.print("foobar");
    assert_eq!(p.writer, "[1]\x1b[32mfoobar\x1b[0m\n");
    colored::control::set_override(false);
    let mut q = Printer::new(String::new()).set_color("green".to_string());
    q.print("foobar");
    assert_eq!(q.writer, "foobar\n");
}

#[test]
fn printed_lines_stay_whole() {
    let mut p = Printer::new(String::new()).set_prefix("[2]".to_string());
    p.print("first");
    p.print("second");
    assert_eq!(p.writer, "[2]first\n[2]second\n");
    let taken = p.take_output();
    assert_eq!(taken, "[2]first\n[2]second\n");
    assert_eq!(p.writer, "");
    p.print("third");
    assert_eq!(p.writer, "[2]third\n");
}

#[test]
fn decimal_numbers() {
    assert_eq!(decimal_text(0), "0");
    assert_eq!(decimal_text(9), "9");
    assert_eq!(decimal_text(10), "10");
    assert_eq!(decimal_text(1234567890), "1234567890");
    assert_eq!(decimal_text(u64::MAX), "18446744073709551615");
    assert_eq!(signed_decimal_text(i32::MIN), "-2147483648");
    assert_eq!(signed_decimal_text(42), "42");
}

#[test]
fn words_joined_with_spaces() {
    assert_eq!(join_words(&vec![]), "");
    assert_eq!(join_words(&to_vec_str(vec!["npm"])), "npm");
    assert_eq!(join_words(&to_vec_str(vec!["npm", "run", "build"])), "npm run build");
    assert_eq!(announcement(&to_vec_str(vec!["npm", "serve"])), "Spawning command: \"npm serve\"");
}

#[test]
fn plan_of_arguments() {
    assert!(matches!(plan_run(vec![]), RunPlan::Help));
    assert!(matches!(plan_run(to_vec_str(vec!["-v", "-h"])), RunPlan::Help));
    assert!(matches!(plan_run(to_vec_str(vec!["--version", "::", "ls"])), RunPlan::Version));
    match plan_run(to_vec_str(vec!["--no-color", "::", "ls", "-l", "::", "pwd"])) {
        RunPlan::Run(commands, options) => {
            assert_eq!(commands, vec![to_vec_str(vec!["ls", "-l"]), to_vec_str(vec!["pwd"])]);
            assert_eq!(options, RunmanyOptions { help: false, version: false, no_color: true });
        }
        _ => panic!("expected a run"),
    }
    match plan_run(to_vec_str(vec!["::"])) {
        RunPlan::Run(commands, options) => {
            assert!(commands.is_empty());
            assert_eq!(options, RunmanyOptions::default());
        }
        _ => panic!("expected a run"),
    }
}

#[test]
fn help_and_version_text() {
    assert_eq!(version_text("1.2.3"), "v1.2.3");
    let h = help_text("0.1.0");
    assert!(h.starts_with("runmany - v0.1.0\nEasily run multiple"));
    assert!(h.ends_with("  --no-color - do not color command output\n"));
    assert_eq!(h.lines().count(), 10);
}
