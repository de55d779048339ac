//! The command line: what the arguments ask for, and the texts that answer
//! them.

use crate::text::str_eq;
use vstd::prelude::*;
use vstd::string::{StrSliceExecFns, StringExecFns};

verus! {

/// The flag, without its dashes, that asks for the documentation.
pub const PRINT_README_FLAG: &'static str = "print-readme";

/// The version that the help text names.
pub const VERSION: &'static str = "0.1.0";

/// What the command line asks to run with.
#[derive(Debug, Clone)]
pub struct Args {
    /// The path of the configuration file, as text.
    pub config: String,
    /// The position of that path among the arguments, the program's name
    /// being at position 0.
    pub position: usize,
}

/// What to print before leaving, and the status to leave with.
#[derive(Debug, Clone)]
pub struct CliExit {
    pub code: i32,
    pub stdout: String,
    pub stderr: String,
}

/// An exit as the contracts see it: the status, and the texts for the output
/// stream and for the error stream.
pub type ExitView = (int, Seq<char>, Seq<char>);

impl View for CliExit {
    type V = ExitView;

    open spec fn view(&self) -> ExitView {
        (self.code as int, self.stdout@, self.stderr@)
    }
}

/// The messages of the command line, for a program that was called by the
/// name held here, if it is known.
#[derive(Debug, Clone)]
pub struct CliMessages(pub Option<String>);

/// The name that stands for the program in the usage text.
pub open spec fn program_name(name: Option<Seq<char>>) -> Seq<char> {
    match name {
        Some(n) => n,
        None => "<this>"@,
    }
}

/// The usage text for a program called `this`.
pub open spec fn usage_text(this: Seq<char>) -> Seq<char> {
    "USAGE:\n\t"@ + this + " [--] <path to config file>\n\t\tRun the server normally\n\t"@ + this
        + " -h|--help\n\t\tShow this message and exit\n\t"@ + this + " --"@ + PRINT_README_FLAG@
        + "\n\t\tWrite out this software's documentation\n\t\tin the form of a README.md file (to stdout)"@
}

/// The text of the error stream for the error `message` of a program called
/// `this`: the error line, an empty line, and the usage.
pub open spec fn error_text(this: Seq<char>, message: Seq<char>) -> Seq<char> {
    "[error] "@ + message + "\n\n"@ + usage_text(this) + "\n"@
}

/// The message for the option or flag `name` that is not known.
pub open spec fn invalid_text(name: Seq<char>, double: bool) -> Seq<char> {
    "`-"@ + (if double {
        "-"@
    } else {
        Seq::<char>::empty()
    }) + name + "` is invalid"@
}

impl CliMessages {
    /// The name of the program, if it is known.
    pub open spec fn name(&self) -> Option<Seq<char>> {
        match self.0 {
            Some(n) => Some(n@),
            None => None,
        }
    }

    /// The usage text.
    pub fn usage(&self) -> (text: String)
        ensures
            text@ == usage_text(program_name(self.name())),
    {
        let this: &str = match &self.0 {
            Some(n) => n.as_str(),
            None => "<this>",
        };
        let mut text = "USAGE:\n\t".to_owned();
        text.append(this);
        text.append(" [--] <path to config file>\n\t\tRun the server normally\n\t");
        text.append(this);
        text.append(" -h|--help\n\t\tShow this message and exit\n\t");
        text.append(this);
        text.append(" --");
        text.append(PRINT_README_FLAG);
        text.append(
            "\n\t\tWrite out this software's documentation\n\t\tin the form of a README.md file (to stdout)",
        );
        text
    }

    /// The usage, for the output stream and status 0 where `success` holds,
    /// else for the error stream and status 1.
    pub fn print_usage(&self, success: bool) -> (exit: CliExit)
        ensures
            exit@ == if success {
                (0int, usage_text(program_name(self.name())) + "\n"@, Seq::<char>::empty())
            } else {
                (1int, Seq::<char>::empty(), usage_text(program_name(self.name())) + "\n"@)
            },
    {
        let mut text = self.usage();
        text.append("\n");
        if success {
            CliExit { code: 0, stdout: text, stderr: String::new() }
        } else {
            CliExit { code: 1, stdout: String::new(), stderr: text }
        }
    }

    /// The help: the program's version and the usage, for the output stream,
    /// with status 0.
    pub fn print_help(&self) -> (exit: CliExit)
        ensures
            exit@ == (
                0int,
                "simple-http-server v"@ + VERSION@ + "\n"@ + usage_text(program_name(self.name()))
                    + "\n"@,
                Seq::<char>::empty(),
            ),
    {
        let mut text = "simple-http-server v".to_owned();
        text.append(VERSION);
        text.append("\n");
        text.append(self.usage().as_str());
        text.append("\n");
        CliExit { code: 0, stdout: text, stderr: String::new() }
    }

    /// The error `message`: the error line, an empty line and the usage, for
    /// the error stream, with status 1.
    pub fn err(&self, message: &str) -> (exit: CliExit)
        ensures
            exit@ == (
                1int,
                Seq::<char>::empty(),
                error_text(program_name(self.name()), message@),
            ),
    {
        let mut text = "[error] ".to_owned();
        text.append(message);
        text.append("\n\n");
        text.append(self.usage().as_str());
        text.append("\n");
        CliExit { code: 1, stdout: String::new(), stderr: text }
    }

    /// The error for a command line without a configuration file.
    pub fn err_missing_config(&self) -> (exit: CliExit)
        ensures
            exit@ == (
                1int,
                Seq::<char>::empty(),
                error_text(program_name(self.name()), "missing config argument"@),
            ),
    {
        self.err("missing config argument")
    }

    /// The error for the option `-s`, or the flag `--s` where `double` holds,
    /// that is not known.
    pub fn err_invalid(&self, s: &str, double: bool) -> (exit: CliExit)
        ensures
            exit@ == (
                1int,
                Seq::<char>::empty(),
                error_text(program_name(self.name()), invalid_text(s@, double)),
            ),
    {
        let mut message = "`-".to_owned();
        if double {
            message.append("-");
        }
        message.append(s);
        message.append("` is invalid");
        self.err(message.as_str())
    }
}

/// What one argument in the place of the options asks for.
#[derive(Debug, Clone)]
pub enum OptionKind {
    /// It is no option: it names the configuration file.
    Free,
    /// It is `--`: what follows names the configuration file.
    EndOfOptions,
    /// It asks for the help.
    Help,
    /// It asks for the documentation.
    PrintReadme,
    /// It is an option, or with `double` a flag, that is not known.
    Invalid { name: String, double: bool },
}

/// An option kind as the contracts see it.
pub enum OptionKindView {
    Free,
    EndOfOptions,
    Help,
    PrintReadme,
    Invalid { name: Seq<char>, double: bool },
}

impl View for OptionKind {
    type V = OptionKindView;

    open spec fn view(&self) -> OptionKindView {
        match self {
            OptionKind::Free => OptionKindView::Free,
            OptionKind::EndOfOptions => OptionKindView::EndOfOptions,
            OptionKind::Help => OptionKindView::Help,
            OptionKind::PrintReadme => OptionKindView::PrintReadme,
            OptionKind::Invalid { name, double } => OptionKindView::Invalid {
                name: name@,
                double: *double,
            },
        }
    }
}

/// What the argument `arg` asks for. Without a leading `-` it is free. After
/// one `-`, only `h` is known. After `--`, nothing ends the options, and
/// `help` and the documentation flag are known.
pub open spec fn option_kind(arg: Seq<char>) -> OptionKindView {
    if arg.len() == 0 || arg[0] != '-' {
        OptionKindView::Free
    } else {
        let option = arg.subrange(1, arg.len() as int);
        if option.len() == 0 || option[0] != '-' {
            if option == "h"@ {
                OptionKindView::Help
            } else {
                OptionKindView::Invalid { name: option, double: false }
            }
        } else {
            let flag = option.subrange(1, option.len() as int);
            if flag.len() == 0 {
                OptionKindView::EndOfOptions
            } else if flag == "help"@ {
                OptionKindView::Help
            } else if flag == PRINT_README_FLAG@ {
                OptionKindView::PrintReadme
            } else {
                OptionKindView::Invalid { name: flag, double: true }
            }
        }
    }
}

/// What the argument `arg` asks for.
pub fn process_options(arg: &str) -> (kind: OptionKind)
    ensures
        kind@ == option_kind(arg@),
{
    let n: usize = arg.unicode_len();
    if n == 0 || arg.get_char(0) != '-' {
        return OptionKind::Free;
    }
    let option: &str = arg.substring_char(1, n);
    if n == 1 || option.get_char(0) != '-' {
        if str_eq(option, "h") {
            OptionKind::Help
        } else {
            OptionKind::Invalid { name: option.to_owned(), double: false }
        }
    } else {
        let flag: &str = option.substring_char(1, n - 1);
        if n == 2 {
            OptionKind::EndOfOptions
        } else if str_eq(flag, "help") {
            OptionKind::Help
        } else if str_eq(flag, PRINT_README_FLAG) {
            OptionKind::PrintReadme
        } else {
            OptionKind::Invalid { name: flag.to_owned(), double: true }
        }
    }
}

/// What the command line comes to.
#[derive(Debug, Clone)]
pub enum CliOutcome {
    /// Run the server.
    Run(Args),
    /// Write the documentation to the output stream and leave with status 0.
    PrintReadme,
    /// Print and leave.
    Exit(CliExit),
}

/// An outcome as the contracts see it.
pub enum CliOutcomeView {
    Run { config: Seq<char>, position: int },
    PrintReadme,
    Exit(ExitView),
}

impl View for CliOutcome {
    type V = CliOutcomeView;

    open spec fn view(&self) -> CliOutcomeView {
        match self {
            CliOutcome::Run(args) => CliOutcomeView::Run {
                config: args.config@,
                position: args.position as int,
            },
            CliOutcome::PrintReadme => CliOutcomeView::PrintReadme,
            CliOutcome::Exit(exit) => CliOutcomeView::Exit(exit@),
        }
    }
}

/// The exit for the error `message` of the program called `name`.
pub open spec fn error_exit(name: Option<Seq<char>>, message: Seq<char>) -> CliOutcomeView {
    CliOutcomeView::Exit((1int, Seq::<char>::empty(), error_text(program_name(name), message)))
}

/// What the arguments `args` come to, the program's name being the first of
/// them. The one argument after the name decides: a free argument is the
/// configuration file, `--` makes the next argument the configuration file,
/// help and documentation are given whatever follows, and an unknown option
/// is an error whatever follows. A command line without a configuration file
/// is an error, and so is one with anything behind the configuration file.
pub open spec fn spec_parse_env(args: Seq<Seq<char>>) -> CliOutcomeView {
    let name = if args.len() == 0 {
        None
    } else {
        Some(args[0])
    };
    if args.len() < 2 {
        error_exit(name, "missing config argument"@)
    } else {
        match option_kind(args[1]) {
            OptionKindView::Free => if args.len() > 2 {
                error_exit(name, "too many arguments"@)
            } else {
                CliOutcomeView::Run { config: args[1], position: 1 }
            },
            OptionKindView::EndOfOptions => if args.len() == 2 {
                error_exit(name, "missing config argument"@)
            } else if args.len() > 3 {
                error_exit(name, "too many arguments"@)
            } else {
                CliOutcomeView::Run { config: args[2], position: 2 }
            },
            OptionKindView::Help => CliOutcomeView::Exit(
                (
                    0int,
                    "simple-http-server v"@ + VERSION@ + "\n"@ + usage_text(program_name(name))
                        + "\n"@,
                    Seq::<char>::empty(),
                ),
            ),
            OptionKindView::PrintReadme => CliOutcomeView::PrintReadme,
            OptionKindView::Invalid { name: option, double } => error_exit(
                name,
                invalid_text(option, double),
            ),
        }
    }
}

/// What the arguments `args` come to, the program's name being the first of
/// them.
pub fn parse_env(args: &Vec<String>) -> (outcome: CliOutcome)
    ensures
        outcome@ == spec_parse_env(args@.map_values(|a: String| a@)),
{
    let n: usize = args.len();
    let msg = CliMessages(
        if n == 0 {
            None
        } else {
            Some(args[0].clone())
        },
    );
    if n < 2 {
        return CliOutcome::Exit(msg.err_missing_config());
    }
    match process_options(args[1].as_str()) {
        OptionKind::Free => {
            if n > 2 {
                CliOutcome::Exit(msg.err("too many arguments"))
            } else {
                CliOutcome::Run(Args { config: args[1].clone(), position: 1 })
            }
        },
        OptionKind::EndOfOptions => {
            if n == 2 {
                CliOutcome::Exit(msg.err_missing_config())
            } else if n > 3 {
                CliOutcome::Exit(msg.err("too many arguments"))
            } else {
                CliOutcome::Run(Args { config: args[2].clone(), position: 2 })
            }
        },
        OptionKind::Help => CliOutcome::Exit(msg.print_help()),
        OptionKind::PrintReadme => CliOutcome::PrintReadme,
        OptionKind::Invalid { name, double } => CliOutcome::Exit(
            msg.err_invalid(name.as_str(), double),
        ),
    }
}

} // verus!
