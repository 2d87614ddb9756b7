//! The command line: `[--run-dir PATH] <config_file>`.

use vstd::prelude::*;
use vstd::string::*;

use crate::service::strings_view;

verus! {

/// What the command line asks for.
#[derive(Debug, PartialEq, Eq)]
pub struct CliArgs {
    pub config_path: String,
    pub run_dir: String,
}

pub struct CliView {
    pub config_path: Seq<char>,
    pub run_dir: Seq<char>,
}

impl View for CliArgs {
    type V = CliView;

    open spec fn view(&self) -> CliView {
        CliView { config_path: self.config_path@, run_dir: self.run_dir@ }
    }
}

impl Clone for CliArgs {
    fn clone(&self) -> (copy: Self)
        ensures
            copy@ == self@,
    {
        CliArgs { config_path: self.config_path.clone(), run_dir: self.run_dir.clone() }
    }
}

/// Why the command line was not accepted. An index is the place of the
/// argument at fault.
#[derive(Debug, Clone, Copy, PartialEq, Eq, Structural)]
pub enum CliError {
    /// `--run-dir` is the last argument: its value is missing.
    MissingValue,
    /// `--help` was given.
    Help,
    /// An argument starts with a dash and is no known option.
    UnknownOption(usize),
    /// A second configuration file was named.
    UnexpectedArgument(usize),
    /// No configuration file was named.
    MissingConfig,
}

/// The run directory that is used when the command line names none.
pub open spec fn default_run_dir() -> Seq<char> {
    "/run/svlopp"@
}

/// What the arguments from place `i` on amount to, when those before it
/// gave the configuration file `config` and the run directory `run_dir`.
///
/// `--run-dir` takes the argument after it as its value; `--help` and any
/// other argument that starts with a dash end the parse; any other
/// argument is the configuration file, of which there is exactly one.
pub open spec fn parse_from(
    args: Seq<Seq<char>>,
    i: int,
    config: Option<Seq<char>>,
    run_dir: Option<Seq<char>>,
) -> Result<CliView, CliError>
    decreases args.len() - i,
{
    if i < 0 || i >= args.len() {
        match config {
            Some(config_path) => Ok(
                CliView {
                    config_path,
                    run_dir: match run_dir {
                        Some(dir) => dir,
                        None => default_run_dir(),
                    },
                },
            ),
            None => Err(CliError::MissingConfig),
        }
    } else if args[i] == "--run-dir"@ {
        if i + 1 < args.len() {
            parse_from(args, i + 2, config, Some(args[i + 1]))
        } else {
            Err(CliError::MissingValue)
        }
    } else if args[i] == "--help"@ {
        Err(CliError::Help)
    } else if args[i].len() > 0 && args[i][0] == '-' {
        Err(CliError::UnknownOption(i as usize))
    } else if config is Some {
        Err(CliError::UnexpectedArgument(i as usize))
    } else {
        parse_from(args, i + 1, Some(args[i]), run_dir)
    }
}

/// What the arguments of the program, without its name, ask for.
pub open spec fn parsed_args(args: Seq<Seq<char>>) -> Result<CliView, CliError> {
    parse_from(args, 0, None, None)
}

/// Reads the arguments of the program, without its name.
pub fn parse(args: &Vec<String>) -> (res: Result<CliArgs, CliError>)
    ensures
        match parsed_args(strings_view(args@)) {
            Ok(view) => res is Ok && res->Ok_0@ == view,
            Err(e) => res == Err::<CliArgs, CliError>(e),
        },
{
    let ghost view = strings_view(args@);
    let run_dir_flag = String::from_str("--run-dir");
    let help_flag = String::from_str("--help");
    let mut config_path: Option<String> = None;
    let mut run_dir: Option<String> = None;
    let mut i: usize = 0;
    while i < args.len()
        invariant
            i <= args.len(),
            view == strings_view(args@),
            run_dir_flag@ == "--run-dir"@,
            help_flag@ == "--help"@,
            parsed_args(view) == parse_from(
                view,
                i as int,
                match config_path {
                    Some(p) => Some(p@),
                    None => None,
                },
                match run_dir {
                    Some(d) => Some(d@),
                    None => None,
                },
            ),
        decreases args.len() - i,
    {
        let arg = &args[i];
        assert(view[i as int] == arg@);
        if *arg == run_dir_flag {
            if i + 1 < args.len() {
                assert(view[i + 1] == args[i + 1]@);
                run_dir = Some(args[i + 1].clone());
                i = i + 2;
            } else {
                return Err(CliError::MissingValue);
            }
        } else if *arg == help_flag {
            return Err(CliError::Help);
        } else if arg.as_str().unicode_len() > 0 && arg.as_str().get_char(0) == '-' {
            return Err(CliError::UnknownOption(i));
        } else if config_path.is_some() {
            return Err(CliError::UnexpectedArgument(i));
        } else {
            config_path = Some(arg.clone());
            i = i + 1;
        }
    }
    match config_path {
        Some(config_path) => {
            let run_dir = match run_dir {
                Some(dir) => dir,
                None => String::from_str("/run/svlopp"),
            };
            Ok(CliArgs { config_path, run_dir })
        },
        None => Err(CliError::MissingConfig),
    }
}

} // verus!
