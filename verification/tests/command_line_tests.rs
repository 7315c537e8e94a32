use rcat::args::{classify_arg, parse_args, ArgKind, Invocation};
use rcat::flags::Flags;
use rcat::messages::{
    invalid_option_message, open_error_message, read_error_message, stdin_error_message, usage,
    USAGE,
};

fn command_line(args: &[&str]) -> Vec<String> {
    args.iter().map(|a| a.to_string()).collect()
}

fn run(number: bool, squeeze_blank: bool, delay: bool, verbose: bool, files: &[&str]) -> Invocation {
    Invocation::Run {
        flags: Flags { number, squeeze_blank, delay, verbose },
        files: command_line(files),
    }
}

#[test]
fn no_arguments_ask_for_standard_input() {
    assert_eq!(parse_args(&Vec::new()), run(false, false, false, false, &[]));
}

#[test]
fn flags_none_has_every_switch_off() {
    assert_eq!(
        Flags::none(),
        Flags { number: false, squeeze_blank: false, delay: false, verbose: false }
    );
}

#[test]
fn short_switches_turn_flags_on() {
    assert_eq!(parse_args(&command_line(&["-n"])), run(true, false, false, false, &[]));
    assert_eq!(parse_args(&command_line(&["-s"])), run(false, true, false, false, &[]));
    assert_eq!(parse_args(&command_line(&["-d"])), run(false, false, true, false, &[]));
    assert_eq!(parse_args(&command_line(&["-v"])), run(false, false, false, true, &[]));
}

#[test]
fn long_switches_turn_flags_on() {
    assert_eq!(parse_args(&command_line(&["--number"])), run(true, false, false, false, &[]));
    assert_eq!(
        parse_args(&command_line(&["--squeeze-blank"])),
        run(false, true, false, false, &[])
    );
    assert_eq!(parse_args(&command_line(&["--delay"])), run(false, false, true, false, &[]));
    assert_eq!(parse_args(&command_line(&["--verbose"])), run(false, false, false, true, &[]));
}

#[test]
fn switches_and_files_mix_in_any_order() {
    assert_eq!(
        parse_args(&command_line(&["one", "-n", "two", "--verbose", "three", "-s"])),
        run(true, true, false, true, &["one", "two", "three"])
    );
}

#[test]
fn a_repeated_switch_changes_nothing() {
    assert_eq!(
        parse_args(&command_line(&["-n", "--number", "-n", "f"])),
        run(true, false, false, false, &["f"])
    );
}

#[test]
fn a_lone_hyphen_and_an_empty_argument_are_files() {
    assert_eq!(parse_args(&command_line(&["-", ""])), run(false, false, false, false, &["-", ""]));
    assert_eq!(classify_arg("-"), ArgKind::File);
    assert_eq!(classify_arg(""), ArgKind::File);
    assert_eq!(classify_arg("n"), ArgKind::File);
}

#[test]
fn help_stops_the_reading() {
    assert_eq!(parse_args(&command_line(&["--help"])), Invocation::Help);
    assert_eq!(parse_args(&command_line(&["-h"])), Invocation::Help);
    assert_eq!(parse_args(&command_line(&["-?"])), Invocation::Help);
    assert_eq!(parse_args(&command_line(&["-n", "file", "-h", "--bogus"])), Invocation::Help);
}

#[test]
fn an_unknown_option_stops_the_reading() {
    assert_eq!(
        parse_args(&command_line(&["--bogus"])),
        Invocation::InvalidOption { option: "--bogus".to_string() }
    );
    assert_eq!(
        parse_args(&command_line(&["file", "-n", "-x", "--help", "-y"])),
        Invocation::InvalidOption { option: "-x".to_string() }
    );
}

#[test]
fn version_is_not_an_option() {
    assert_eq!(
        parse_args(&command_line(&["--version"])),
        Invocation::InvalidOption { option: "--version".to_string() }
    );
}

#[test]
fn classify_arg_tells_the_kinds_apart() {
    assert_eq!(classify_arg("file.txt"), ArgKind::File);
    assert_eq!(classify_arg("./-n"), ArgKind::File);
    assert_eq!(classify_arg("-n"), ArgKind::Number);
    assert_eq!(classify_arg("--number"), ArgKind::Number);
    assert_eq!(classify_arg("-s"), ArgKind::SqueezeBlank);
    assert_eq!(classify_arg("--squeeze-blank"), ArgKind::SqueezeBlank);
    assert_eq!(classify_arg("-d"), ArgKind::Delay);
    assert_eq!(classify_arg("--delay"), ArgKind::Delay);
    assert_eq!(classify_arg("-v"), ArgKind::Verbose);
    assert_eq!(classify_arg("--verbose"), ArgKind::Verbose);
    assert_eq!(classify_arg("-h"), ArgKind::Help);
    assert_eq!(classify_arg("-?"), ArgKind::Help);
    assert_eq!(classify_arg("--help"), ArgKind::Help);
}

#[test]
fn classify_arg_rejects_what_it_does_not_know() {
    assert_eq!(classify_arg("--"), ArgKind::Invalid);
    assert_eq!(classify_arg("-ns"), ArgKind::Invalid);
    assert_eq!(classify_arg("-N"), ArgKind::Invalid);
    assert_eq!(classify_arg("--numbe"), ArgKind::Invalid);
    assert_eq!(classify_arg("--numbers"), ArgKind::Invalid);
    assert_eq!(classify_arg("--bogus"), ArgKind::Invalid);
    assert_eq!(classify_arg("-n "), ArgKind::Invalid);
}

#[test]
fn classify_arg_counts_characters_beyond_ascii() {
    assert_eq!(classify_arg("\u{e9}"), ArgKind::File);
    assert_eq!(classify_arg("\u{e9}-n"), ArgKind::File);
    assert_eq!(classify_arg("-\u{e9}"), ArgKind::Invalid);
}

#[test]
fn invalid_option_message_has_two_lines() {
    assert_eq!(
        invalid_option_message("--bogus"),
        "rcat: invalid option -- '--bogus'\nTry 'rcat --help' for more information.\n"
    );
}

#[test]
fn open_error_message_names_the_path() {
    let text = open_error_message("\"missing.txt\"");
    assert_eq!(text, "rcat: \"missing.txt\": No such file or directory\n");
    assert!(text.contains("missing.txt"));
    assert!(text.contains("No such file or directory"));
}

#[test]
fn read_error_messages() {
    assert_eq!(read_error_message("\"f\""), "rcat: \"f\": read error\n");
    assert_eq!(stdin_error_message(), "rcat: stdin read error\n");
}

#[test]
fn usage_lists_the_options() {
    let text = usage();
    assert_eq!(text, USAGE);
    assert!(text.starts_with("Usage: rcat <option> <file>\nConcatenate file(s) to standard output.\n"));
    assert!(text.contains("\n  -n, --number             number all output lines\n"));
    assert!(text.contains("\n  -d, --delay              add a short delay between chars\n"));
    assert!(text.contains("\n  -s, --squeeze-blank      suppress repeated empty output lines\n"));
    assert!(text.contains("\n  -v, --verbose            display verbose output\n"));
    assert!(text.contains("\n      --help     display this help and exit\n"));
    assert!(text.ends_with("$ rcat             Copy stdin to stdout.\n"));
    assert_eq!(text.lines().count(), 15);
}
