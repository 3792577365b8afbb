//! Command-line options: a small walk over the argument tokens.

use vstd::prelude::*;

verus! {

/// The options of one run.
#[derive(Debug)]
pub struct CommandLineArgs {
    pub css_selector: String,
    pub input_file: Option<String>,
    pub output_file: Option<String>,
}

/// Why the argument tokens do not describe a run.
#[derive(Debug)]
pub enum ArgError {
    /// `-s` was the last token.
    ExpectedSelector,
    /// `-i` was the last token.
    ExpectedInputFile,
    /// `-o` was the last token.
    ExpectedOutputFile,
    /// A token that is no option; it is carried along.
    UnexpectedArgument(String),
    /// No `-s` option was given.
    SelectorRequired,
}

/// The outcome of reading `args` from position `i` on, with the options
/// collected so far. A later occurrence of an option replaces an earlier one.
pub open spec fn scan_from(
    args: Seq<String>,
    i: int,
    selector: Option<String>,
    input: Option<String>,
    output: Option<String>,
) -> Result<CommandLineArgs, ArgError>
    decreases args.len() - i,
{
    if i >= args.len() {
        match selector {
            Some(s) => Ok(CommandLineArgs { css_selector: s, input_file: input, output_file: output }),
            None => Err(ArgError::SelectorRequired),
        }
    } else if args[i]@ == "-s"@ {
        if i + 1 < args.len() {
            scan_from(args, i + 2, Some(args[i + 1]), input, output)
        } else {
            Err(ArgError::ExpectedSelector)
        }
    } else if args[i]@ == "-i"@ {
        if i + 1 < args.len() {
            scan_from(args, i + 2, selector, Some(args[i + 1]), output)
        } else {
            Err(ArgError::ExpectedInputFile)
        }
    } else if args[i]@ == "-o"@ {
        if i + 1 < args.len() {
            scan_from(args, i + 2, selector, input, Some(args[i + 1]))
        } else {
            Err(ArgError::ExpectedOutputFile)
        }
    } else {
        Err(ArgError::UnexpectedArgument(args[i]))
    }
}

/// What a command line means; its first token, the program name, is passed over.
pub open spec fn parse_spec(args: Seq<String>) -> Result<CommandLineArgs, ArgError> {
    scan_from(args, 1, None, None, None)
}

/// Reads the options `-s <selector>`, `-i <file>` and `-o <file>` from `args`,
/// whose first token is the program name.
pub fn parse_command_line_arguments(args: Vec<String>) -> (r: Result<CommandLineArgs, ArgError>)
    ensures
        r == parse_spec(args@),
{
    let flag_s = "-s".to_owned();
    let flag_i = "-i".to_owned();
    let flag_o = "-o".to_owned();
    let mut selector: Option<String> = None;
    let mut input: Option<String> = None;
    let mut output: Option<String> = None;
    let mut i: usize = 1;
    while i < args.len()
        invariant
            1 <= i,
            flag_s@ == "-s"@,
            flag_i@ == "-i"@,
            flag_o@ == "-o"@,
            scan_from(args@, i as int, selector, input, output) == parse_spec(args@),
        decreases args.len() - i,
    {
        if args[i] == flag_s {
            if i + 1 < args.len() {
                selector = Some(args[i + 1].clone());
                i = i + 2;
            } else {
                return Err(ArgError::ExpectedSelector);
            }
        } else if args[i] == flag_i {
            if i + 1 < args.len() {
                input = Some(args[i + 1].clone());
                i = i + 2;
            } else {
                return Err(ArgError::ExpectedInputFile);
            }
        } else if args[i] == flag_o {
            if i + 1 < args.len() {
                output = Some(args[i + 1].clone());
                i = i + 2;
            } else {
                return Err(ArgError::ExpectedOutputFile);
            }
        } else {
            return Err(ArgError::UnexpectedArgument(args[i].clone()));
        }
    }
    match selector {
        Some(s) => Ok(CommandLineArgs { css_selector: s, input_file: input, output_file: output }),
        None => Err(ArgError::SelectorRequired),
    }
}

} // verus!
