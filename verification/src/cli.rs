//! The command line: from the argument list to a run configuration.
//!
//! The first argument after the program name is the root URL, or a request
//! for help. Options follow in any order; where an option is repeated, or two
//! output options are given, the last one counts.

use vstd::prelude::*;
use vstd::string::*;
use crate::decimal::{decimal_i32, parse_i32};
use crate::text::str_eq;

verus! {

/// Where the list of visited URLs is written, and in which form. Each
/// variant holds the name of the file.
#[derive(Debug, Clone, PartialEq, Eq)]
pub enum OutputFormat {
    PlainText(String),
    Json(String),
}

/// The settings of one run.
#[derive(Debug, Clone, PartialEq, Eq)]
pub struct Config {
    pub root_url: String,
    /// The depth limit in path segments; 0 means no limit.
    pub depth: i32,
    pub verbose: bool,
    /// Whether URLs whose request failed are reported with the others.
    pub response_error: bool,
    pub output_file: Option<OutputFormat>,
}

/// What the command line asks for.
#[derive(Debug, Clone, PartialEq, Eq)]
pub enum Command {
    Help,
    Run(Config),
}

/// Why a command line is refused.
#[derive(Debug, Clone, PartialEq, Eq)]
pub enum ArgsError {
    /// No root URL was given.
    MissingUrl,
    /// The named option is last on the line, but needs a value.
    MissingValue(String),
    /// The value given for the depth is no `i32` in decimal notation.
    InvalidDepth,
    /// The argument is no known option.
    UnknownOption(String),
}

/// The mathematical value of an [`OutputFormat`].
pub enum OutputModel {
    PlainText(Seq<char>),
    Json(Seq<char>),
}

/// The mathematical value of a [`Config`].
pub struct ConfigModel {
    pub root_url: Seq<char>,
    pub depth: i32,
    pub verbose: bool,
    pub response_error: bool,
    pub output_file: Option<OutputModel>,
}

/// The mathematical value of a [`Command`].
pub enum CommandModel {
    Help,
    Run(ConfigModel),
}

/// The mathematical value of an [`ArgsError`].
pub enum ArgsErrorModel {
    MissingUrl,
    MissingValue(Seq<char>),
    InvalidDepth,
    UnknownOption(Seq<char>),
}

impl View for OutputFormat {
    type V = OutputModel;

    open spec fn view(&self) -> OutputModel {
        match *self {
            OutputFormat::PlainText(name) => OutputModel::PlainText(name@),
            OutputFormat::Json(name) => OutputModel::Json(name@),
        }
    }
}

impl View for Config {
    type V = ConfigModel;

    open spec fn view(&self) -> ConfigModel {
        ConfigModel {
            root_url: self.root_url@,
            depth: self.depth,
            verbose: self.verbose,
            response_error: self.response_error,
            output_file: match self.output_file {
                Some(f) => Some(f@),
                None => None,
            },
        }
    }
}

impl View for Command {
    type V = CommandModel;

    open spec fn view(&self) -> CommandModel {
        match *self {
            Command::Help => CommandModel::Help,
            Command::Run(config) => CommandModel::Run(config@),
        }
    }
}

impl View for ArgsError {
    type V = ArgsErrorModel;

    open spec fn view(&self) -> ArgsErrorModel {
        match *self {
            ArgsError::MissingUrl => ArgsErrorModel::MissingUrl,
            ArgsError::MissingValue(option) => ArgsErrorModel::MissingValue(option@),
            ArgsError::InvalidDepth => ArgsErrorModel::InvalidDepth,
            ArgsError::UnknownOption(arg) => ArgsErrorModel::UnknownOption(arg@),
        }
    }
}

/// The mathematical value of what [`parse_args`] returns.
pub open spec fn outcome_model(r: Result<Command, ArgsError>) -> Result<
    CommandModel,
    ArgsErrorModel,
> {
    match r {
        Ok(command) => Ok(command@),
        Err(e) => Err(e@),
    }
}

/// Whether `arg` asks for help.
pub open spec fn is_help_flag(arg: Seq<char>) -> bool {
    arg == "-h"@ || arg == "--help"@
}

/// Whether `arg` is the option that sets the depth limit.
pub open spec fn is_depth_flag(arg: Seq<char>) -> bool {
    arg == "-d"@ || arg == "--depth"@
}

/// Whether `arg` is the option for a plain-text output file.
pub open spec fn is_file_flag(arg: Seq<char>) -> bool {
    arg == "-f"@ || arg == "--file"@
}

/// Whether `arg` is the option for a JSON output file.
pub open spec fn is_json_flag(arg: Seq<char>) -> bool {
    arg == "-fj"@ || arg == "--file-json"@
}

/// Whether `arg` switches verbose logging on.
pub open spec fn is_verbose_flag(arg: Seq<char>) -> bool {
    arg == "-v"@ || arg == "--verbose"@
}

/// Whether `arg` asks for failed URLs to be reported.
pub open spec fn is_errors_flag(arg: Seq<char>) -> bool {
    arg == "-e"@ || arg == "--request-error"@
}

/// Whether `arg` looks like an option, that is, begins with a dash.
pub open spec fn is_dashed(arg: Seq<char>) -> bool {
    arg.len() > 0 && arg[0] == '-'
}

/// Whether the argument after position `i` is the file name of the output
/// option at `i`.
pub open spec fn names_file(args: Seq<Seq<char>>, i: int) -> bool {
    i + 1 < args.len() && !is_dashed(args[i + 1])
}

/// The settings before any option is read.
pub open spec fn initial_config(root_url: Seq<char>) -> ConfigModel {
    ConfigModel { root_url, depth: 0, verbose: false, response_error: false, output_file: None }
}

/// The settings that the options from position `i` on make of `config`.
pub open spec fn parse_options(args: Seq<Seq<char>>, i: int, config: ConfigModel) -> Result<
    ConfigModel,
    ArgsErrorModel,
>
    decreases args.len() - i,
{
    if i < 0 || i >= args.len() {
        Ok(config)
    } else if is_depth_flag(args[i]) {
        if i + 1 >= args.len() {
            Err(ArgsErrorModel::MissingValue(args[i]))
        } else {
            match decimal_i32(args[i + 1]) {
                Some(depth) => parse_options(args, i + 2, ConfigModel { depth, ..config }),
                None => Err(ArgsErrorModel::InvalidDepth),
            }
        }
    } else if is_file_flag(args[i]) {
        if names_file(args, i) {
            parse_options(
                args,
                i + 2,
                ConfigModel { output_file: Some(OutputModel::PlainText(args[i + 1])), ..config },
            )
        } else {
            parse_options(
                args,
                i + 1,
                ConfigModel {
                    output_file: Some(OutputModel::PlainText("output.txt"@)),
                    ..config
                },
            )
        }
    } else if is_json_flag(args[i]) {
        if names_file(args, i) {
            parse_options(
                args,
                i + 2,
                ConfigModel { output_file: Some(OutputModel::Json(args[i + 1])), ..config },
            )
        } else {
            parse_options(
                args,
                i + 1,
                ConfigModel { output_file: Some(OutputModel::Json("output.json"@)), ..config },
            )
        }
    } else if is_verbose_flag(args[i]) {
        parse_options(args, i + 1, ConfigModel { verbose: true, ..config })
    } else if is_errors_flag(args[i]) {
        parse_options(args, i + 1, ConfigModel { response_error: true, ..config })
    } else {
        Err(ArgsErrorModel::UnknownOption(args[i]))
    }
}

/// What the argument list `args` asks for; `args[0]` is the program's name.
pub open spec fn parse_args_model(args: Seq<Seq<char>>) -> Result<CommandModel, ArgsErrorModel> {
    if args.len() < 2 {
        Err(ArgsErrorModel::MissingUrl)
    } else if is_help_flag(args[1]) {
        Ok(CommandModel::Help)
    } else {
        match parse_options(args, 2, initial_config(args[1])) {
            Ok(config) => Ok(CommandModel::Run(config)),
            Err(e) => Err(e),
        }
    }
}

/// Tests whether `arg` is one of the two spellings of an option.
fn is_either(arg: &String, short: &str, long: &str) -> (r: bool)
    ensures
        r == (arg@ == short@ || arg@ == long@),
{
    str_eq(arg.as_str(), short) || str_eq(arg.as_str(), long)
}

/// Tests whether `arg` begins with a dash.
fn starts_with_dash(arg: &String) -> (r: bool)
    ensures
        r == is_dashed(arg@),
{
    let s: &str = arg.as_str();
    s.unicode_len() > 0 && s.get_char(0) == '-'
}

/// Reads the file name of the output option at `i`: the next argument,
/// unless that is an option itself, or `fallback` where there is none.
/// Returns the name and the position of the next option.
fn output_name(args: &Vec<String>, i: usize, fallback: &str) -> (r: (String, usize))
    requires
        i < args.len(),
    ensures
        names_file(args.deep_view(), i as int) ==> r.0@ == args.deep_view()[i + 1] && r.1 == i + 2,
        !names_file(args.deep_view(), i as int) ==> r.0@ == fallback@ && r.1 == i + 1,
{
    if i + 1 < args.len() && !starts_with_dash(&args[i + 1]) {
        (args[i + 1].clone(), i + 2)
    } else {
        (String::from_str(fallback), i + 1)
    }
}

/// Reads the command line.
///
/// The result is the one that [`parse_args_model`] gives for the same
/// arguments: the first problem met, going from left to right, is the error.
pub fn parse_args(args: &Vec<String>) -> (r: Result<Command, ArgsError>)
    ensures
        outcome_model(r) == parse_args_model(args.deep_view()),
{
    let ghost argv: Seq<Seq<char>> = args.deep_view();
    if args.len() < 2 {
        return Err(ArgsError::MissingUrl);
    }
    if is_either(&args[1], "-h", "--help") {
        return Ok(Command::Help);
    }
    let mut config = Config {
        root_url: args[1].clone(),
        depth: 0,
        verbose: false,
        response_error: false,
        output_file: None,
    };
    let mut i: usize = 2;
    while i < args.len()
        invariant
            2 <= i <= args.len() + 1,
            2 <= args.len(),
            argv == args.deep_view(),
            !is_help_flag(argv[1]),
            forall|k: int| 0 <= k < args.len() ==> argv[k] == #[trigger] args@[k]@,
            parse_options(argv, i as int, config@) == parse_options(
                argv,
                2,
                initial_config(argv[1]),
            ),
        decreases args.len() + 1 - i,
    {
        let arg: &String = &args[i];
        if is_either(arg, "-d", "--depth") {
            if i + 1 >= args.len() {
                return Err(ArgsError::MissingValue(arg.clone()));
            }
            match parse_i32(args[i + 1].as_str()) {
                Some(depth) => {
                    config.depth = depth;
                },
                None => {
                    return Err(ArgsError::InvalidDepth);
                },
            }
            i = i + 2;
        } else if is_either(arg, "-f", "--file") {
            let (name, next) = output_name(args, i, "output.txt");
            config.output_file = Some(OutputFormat::PlainText(name));
            i = next;
        } else if is_either(arg, "-fj", "--file-json") {
            let (name, next) = output_name(args, i, "output.json");
            config.output_file = Some(OutputFormat::Json(name));
            i = next;
        } else if is_either(arg, "-v", "--verbose") {
            config.verbose = true;
            i = i + 1;
        } else if is_either(arg, "-e", "--request-error") {
            config.response_error = true;
            i = i + 1;
        } else {
            return Err(ArgsError::UnknownOption(arg.clone()));
        }
    }
    Ok(Command::Run(config))
}

} // verus!
