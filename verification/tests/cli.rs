use simple_http_server::cli::{
    parse_env, process_options, Args, CliExit, CliMessages, CliOutcome, OptionKind,
    PRINT_README_FLAG, VERSION,
};

const USAGE_PROG: &str = "USAGE:
	prog [--] <path to config file>
		Run the server normally
	prog -h|--help
		Show this message and exit
	prog --print-readme
		Write out this software's documentation
		in the form of a README.md file (to stdout)";

fn args(list: &[&str]) -> Vec<String> {
    list.iter().map(|a| a.to_string()).collect()
}

fn msg() -> CliMessages {
    CliMessages(Some("prog".to_string()))
}

fn parts(exit: CliExit) -> (i32, String, String) {
    (exit.code, exit.stdout, exit.stderr)
}

fn exit_of(outcome: CliOutcome) -> (i32, String, String) {
    match outcome {
        CliOutcome::Exit(exit) => parts(exit),
        other => panic!("expected an exit, got {:?}", other),
    }
}

fn run_of(outcome: CliOutcome) -> (String, usize) {
    match outcome {
        CliOutcome::Run(Args { config, position }) => (config, position),
        other => panic!("expected a run, got {:?}", other),
    }
}

fn error_of(message: &str) -> (i32, String, String) {
    (1, String::new(), format!("[error] {}\n\n{}\n", message, USAGE_PROG))
}

#[test]
fn usage_text_names_the_program() {
    assert_eq!(msg().usage(), USAGE_PROG);
    assert_eq!(PRINT_README_FLAG, "print-readme");
}

#[test]
fn usage_text_without_a_program_name() {
    assert_eq!(CliMessages(None).usage(), USAGE_PROG.replace("prog", "<this>"));
}

#[test]
fn print_usage_picks_stream_and_status() {
    assert_eq!(parts(msg().print_usage(true)), (0, format!("{}\n", USAGE_PROG), String::new()));
    assert_eq!(parts(msg().print_usage(false)), (1, String::new(), format!("{}\n", USAGE_PROG)));
}

#[test]
fn print_help_gives_version_and_usage() {
    assert_eq!(
        parts(msg().print_help()),
        (0, format!("simple-http-server v{}\n{}\n", VERSION, USAGE_PROG), String::new())
    );
}

#[test]
fn err_gives_the_line_a_blank_line_and_the_usage() {
    assert_eq!(parts(msg().err("too many arguments")), error_of("too many arguments"));
    assert_eq!(parts(msg().err("")), error_of(""));
}

#[test]
fn err_missing_config_message() {
    assert_eq!(parts(msg().err_missing_config()), error_of("missing config argument"));
}

#[test]
fn err_invalid_message() {
    assert_eq!(parts(msg().err_invalid("x", false)), error_of("`-x` is invalid"));
    assert_eq!(parts(msg().err_invalid("verbose", true)), error_of("`--verbose` is invalid"));
    assert_eq!(parts(msg().err_invalid("", false)), error_of("`-` is invalid"));
}

#[test]
fn process_options_classifies_one_argument() {
    assert!(matches!(process_options("config.toml"), OptionKind::Free));
    assert!(matches!(process_options(""), OptionKind::Free));
    assert!(matches!(process_options("a-b"), OptionKind::Free));
    assert!(matches!(process_options("--"), OptionKind::EndOfOptions));
    assert!(matches!(process_options("-h"), OptionKind::Help));
    assert!(matches!(process_options("--help"), OptionKind::Help));
    assert!(matches!(process_options("--print-readme"), OptionKind::PrintReadme));
}

#[test]
fn process_options_names_what_is_invalid() {
    let invalid = |arg: &str| match process_options(arg) {
        OptionKind::Invalid { name, double } => (name, double),
        other => panic!("expected an invalid option, got {:?}", other),
    };
    assert_eq!(invalid("-"), ("".to_string(), false));
    assert_eq!(invalid("-x"), ("x".to_string(), false));
    assert_eq!(invalid("-help"), ("help".to_string(), false));
    assert_eq!(invalid("-hh"), ("hh".to_string(), false));
    assert_eq!(invalid("--h"), ("h".to_string(), true));
    assert_eq!(invalid("--verbose"), ("verbose".to_string(), true));
    assert_eq!(invalid("---"), ("-".to_string(), true));
    assert_eq!(invalid("--Help"), ("Help".to_string(), true));
    assert_eq!(invalid("-é"), ("é".to_string(), false));
}

#[test]
fn parse_env_runs_with_a_free_argument() {
    assert_eq!(run_of(parse_env(&args(&["prog", "config.toml"]))), ("config.toml".to_string(), 1));
    assert_eq!(run_of(parse_env(&args(&["prog", ""]))), ("".to_string(), 1));
}

#[test]
fn parse_env_runs_with_what_follows_the_dashes() {
    assert_eq!(
        run_of(parse_env(&args(&["prog", "--", "config.toml"]))),
        ("config.toml".to_string(), 2)
    );
    // after `--` the configuration file may start with a dash
    assert_eq!(run_of(parse_env(&args(&["prog", "--", "-h"]))), ("-h".to_string(), 2));
    assert_eq!(run_of(parse_env(&args(&["prog", "--", "--"]))), ("--".to_string(), 2));
}

#[test]
fn parse_env_misses_the_config() {
    assert_eq!(exit_of(parse_env(&args(&["prog"]))), error_of("missing config argument"));
    assert_eq!(exit_of(parse_env(&args(&["prog", "--"]))), error_of("missing config argument"));
    let (code, stdout, stderr) = exit_of(parse_env(&args(&[])));
    assert_eq!(code, 1);
    assert_eq!(stdout, "");
    assert_eq!(
        stderr,
        format!("[error] missing config argument\n\n{}\n", USAGE_PROG.replace("prog", "<this>"))
    );
}

#[test]
fn parse_env_refuses_excess_arguments() {
    assert_eq!(
        exit_of(parse_env(&args(&["prog", "config.toml", "extra"]))),
        error_of("too many arguments")
    );
    assert_eq!(
        exit_of(parse_env(&args(&["prog", "config.toml", "a", "b"]))),
        error_of("too many arguments")
    );
    assert_eq!(
        exit_of(parse_env(&args(&["prog", "--", "config.toml", "extra"]))),
        error_of("too many arguments")
    );
}

#[test]
fn parse_env_gives_help_whatever_follows() {
    let help = (0, format!("simple-http-server v{}\n{}\n", VERSION, USAGE_PROG), String::new());
    assert_eq!(exit_of(parse_env(&args(&["prog", "-h"]))), help);
    assert_eq!(exit_of(parse_env(&args(&["prog", "--help"]))), help);
    assert_eq!(exit_of(parse_env(&args(&["prog", "--help", "a", "b", "c"]))), help);
}

#[test]
fn parse_env_asks_for_the_documentation() {
    assert!(matches!(parse_env(&args(&["prog", "--print-readme"])), CliOutcome::PrintReadme));
    assert!(matches!(
        parse_env(&args(&["prog", "--print-readme", "more"])),
        CliOutcome::PrintReadme
    ));
}

#[test]
fn parse_env_refuses_unknown_options() {
    assert_eq!(exit_of(parse_env(&args(&["prog", "-x"]))), error_of("`-x` is invalid"));
    assert_eq!(exit_of(parse_env(&args(&["prog", "-"]))), error_of("`-` is invalid"));
    assert_eq!(
        exit_of(parse_env(&args(&["prog", "--verbose", "config.toml"]))),
        error_of("`--verbose` is invalid")
    );
    // options are only looked for in the first place
    assert_eq!(
        exit_of(parse_env(&args(&["prog", "config.toml", "--help"]))),
        error_of("too many arguments")
    );
}
