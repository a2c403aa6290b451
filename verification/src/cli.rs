//! Command-line arguments: `wordtohtml [OPTIONS] <path-to-docx>`.
use vstd::prelude::*;

use crate::text::{chars_of, parse_unsigned, parse_usize, push_str, string_of};

verus! {

/// What a run of the program is asked to do.
pub struct Options {
    /// The `.docx` file to convert.
    pub input: String,
    /// Wrap the output near this many characters; 0 for a single line.
    pub wrap: usize,
    /// Write a complete HTML document next to the input instead of copying
    /// the fragment to the clipboard.
    pub output: bool,
}

pub enum Command {
    /// Show usage.
    Help,
    Convert(Options),
}

/// Why the arguments were refused.
pub enum ArgError {
    /// `--wrap` was the last argument.
    MissingWrapValue,
    /// The value after `--wrap` is not a width.
    InvalidWrap(String),
    /// An argument starts with `-` but is no option.
    UnknownOption(String),
    /// A second input path.
    ExtraArgument(String),
    /// No input path.
    MissingInput,
}

pub struct OptionsView {
    pub input: Seq<char>,
    pub wrap: usize,
    pub output: bool,
}

pub enum CommandView {
    Help,
    Convert(OptionsView),
}

pub enum ArgErrorView {
    MissingWrapValue,
    InvalidWrap(Seq<char>),
    UnknownOption(Seq<char>),
    ExtraArgument(Seq<char>),
    MissingInput,
}

impl View for Command {
    type V = CommandView;

    open spec fn view(&self) -> CommandView {
        match self {
            Command::Help => CommandView::Help,
            Command::Convert(o) => CommandView::Convert(
                OptionsView { input: o.input@, wrap: o.wrap, output: o.output },
            ),
        }
    }
}

impl View for ArgError {
    type V = ArgErrorView;

    open spec fn view(&self) -> ArgErrorView {
        match self {
            ArgError::MissingWrapValue => ArgErrorView::MissingWrapValue,
            ArgError::InvalidWrap(v) => ArgErrorView::InvalidWrap(v@),
            ArgError::UnknownOption(v) => ArgErrorView::UnknownOption(v@),
            ArgError::ExtraArgument(v) => ArgErrorView::ExtraArgument(v@),
            ArgError::MissingInput => ArgErrorView::MissingInput,
        }
    }
}

pub open spec fn outcome_view(r: Result<Command, ArgError>) -> Result<CommandView, ArgErrorView> {
    match r {
        Ok(c) => Ok(c@),
        Err(e) => Err(e@),
    }
}

/// Whether an argument is an option that the program does not know: it
/// starts with `-` and is not `-` itself.
pub open spec fn is_unknown_option(a: Seq<char>) -> bool {
    a.len() > 0 && a[0] == '-' && a != "-"@
}

/// The outcome of reading the arguments from the `i`-th on, having read a
/// wrap width, maybe an input and maybe the output flag: arguments are read
/// in order, and the first request for help or the first error decides.
pub open spec fn args_outcome(
    args: Seq<Seq<char>>,
    i: int,
    wrap: usize,
    input: Option<Seq<char>>,
    output: bool,
) -> Result<CommandView, ArgErrorView>
    decreases args.len() - i,
{
    if i < 0 || i >= args.len() {
        match input {
            Some(x) => Ok(CommandView::Convert(OptionsView { input: x, wrap, output })),
            None => Err(ArgErrorView::MissingInput),
        }
    } else {
        let a = args[i];
        if a == "-h"@ || a == "--help"@ {
            Ok(CommandView::Help)
        } else if a == "-o"@ || a == "--output"@ {
            args_outcome(args, i + 1, wrap, input, true)
        } else if a == "-w"@ || a == "--wrap"@ {
            if i + 1 >= args.len() {
                Err(ArgErrorView::MissingWrapValue)
            } else {
                match parse_unsigned(args[i + 1], 10, usize::MAX as nat) {
                    Some(w) => args_outcome(args, i + 2, w as usize, input, output),
                    None => Err(ArgErrorView::InvalidWrap(args[i + 1])),
                }
            }
        } else if is_unknown_option(a) {
            Err(ArgErrorView::UnknownOption(a))
        } else if input is Some {
            Err(ArgErrorView::ExtraArgument(a))
        } else {
            args_outcome(args, i + 1, wrap, Some(a), output)
        }
    }
}

/// The default wrap column.
pub const DEFAULT_WRAP: usize = 90;

pub open spec fn args_view(args: Seq<String>) -> Seq<Seq<char>> {
    args.map_values(|s: String| s@)
}

fn copy_string(s: &String) -> (r: String)
    ensures
        r@ == s@,
{
    string_of(&chars_of(s.as_str()))
}

/// Reads the program's arguments (without the program name).
pub fn parse_args(args: &Vec<String>) -> (r: Result<Command, ArgError>)
    ensures
        outcome_view(r) == args_outcome(args_view(args@), 0, DEFAULT_WRAP, None, false),
{
    let ghost v = args_view(args@);
    let mut wrap: usize = DEFAULT_WRAP;
    let mut input: Option<String> = None;
    let mut output = false;
    let mut i: usize = 0;
    while i < args.len()
        invariant
            i <= args.len(),
            v == args_view(args@),
            args_outcome(v, 0, DEFAULT_WRAP, None, false) == args_outcome(
                v,
                i as int,
                wrap,
                match input {
                    Some(x) => Some(x@),
                    None => None,
                },
                output,
            ),
        decreases args.len() - i,
    {
        let a = chars_of(args[i].as_str());
        assert(a@ == v[i as int]);
        if crate::text::chars_eq_str(&a, "-h") || crate::text::chars_eq_str(&a, "--help") {
            return Ok(Command::Help);
        } else if crate::text::chars_eq_str(&a, "-o") || crate::text::chars_eq_str(
            &a,
            "--output",
        ) {
            output = true;
            i += 1;
        } else if crate::text::chars_eq_str(&a, "-w") || crate::text::chars_eq_str(&a, "--wrap") {
            if i + 1 >= args.len() {
                return Err(ArgError::MissingWrapValue);
            }
            let value = chars_of(args[i + 1].as_str());
            assert(value@ == v[i + 1]);
            match parse_usize(&value) {
                Some(w) => {
                    wrap = w;
                    i += 2;
                },
                None => {
                    return Err(ArgError::InvalidWrap(copy_string(&args[i + 1])));
                },
            }
        } else if a.len() > 0 && a[0] == '-' && !crate::text::chars_eq_str(&a, "-") {
            return Err(ArgError::UnknownOption(copy_string(&args[i])));
        } else if input.is_some() {
            return Err(ArgError::ExtraArgument(copy_string(&args[i])));
        } else {
            input = Some(copy_string(&args[i]));
            i += 1;
        }
    }
    match input {
        Some(x) => Ok(Command::Convert(Options { input: x, wrap, output })),
        None => Err(ArgError::MissingInput),
    }
}

/// What the message of an argument error says.
pub open spec fn arg_error_message(e: ArgErrorView) -> Seq<char> {
    match e {
        ArgErrorView::MissingWrapValue => "--wrap requires a value"@,
        ArgErrorView::InvalidWrap(v) => "invalid wrap width: "@ + v,
        ArgErrorView::UnknownOption(a) => "unknown option: "@ + a,
        ArgErrorView::ExtraArgument(a) => "unexpected extra argument: "@ + a,
        ArgErrorView::MissingInput => "missing <path-to-docx>"@,
    }
}

impl ArgError {
    /// The message shown for the error.
    pub fn message(&self) -> (r: String)
        ensures
            r@ == arg_error_message(self@),
    {
        let mut out: Vec<char> = Vec::new();
        match self {
            ArgError::MissingWrapValue => push_str(&mut out, "--wrap requires a value"),
            ArgError::InvalidWrap(v) => {
                push_str(&mut out, "invalid wrap width: ");
                push_str(&mut out, v.as_str());
            },
            ArgError::UnknownOption(a) => {
                push_str(&mut out, "unknown option: ");
                push_str(&mut out, a.as_str());
            },
            ArgError::ExtraArgument(a) => {
                push_str(&mut out, "unexpected extra argument: ");
                push_str(&mut out, a.as_str());
            },
            ArgError::MissingInput => push_str(&mut out, "missing <path-to-docx>"),
        }
        string_of(&out)
    }
}

/// The long form of an option given in its short form; any other argument
/// as it is.
pub open spec fn long_form(a: Seq<char>) -> Seq<char> {
    if a == "-w"@ {
        "--wrap"@
    } else if a == "-o"@ {
        "--output"@
    } else if a == "-h"@ {
        "--help"@
    } else {
        a
    }
}

proof fn lemma_outcome_reads_ahead(
    args: Seq<Seq<char>>,
    other: Seq<Seq<char>>,
    i: int,
    wrap: usize,
    input: Option<Seq<char>>,
    output: bool,
)
    requires
        0 <= i,
        args.len() == other.len(),
        forall|m: int| i <= m < args.len() ==> args[m] == other[m],
    ensures
        args_outcome(args, i, wrap, input, output) == args_outcome(other, i, wrap, input, output),
    decreases args.len() - i,
{
    if i < args.len() {
        let a = args[i];
        assert(other[i] == a);
        if i + 1 < args.len() {
            assert(other[i + 1] == args[i + 1]);
        }
        if a == "-h"@ || a == "--help"@ {
        } else if a == "-o"@ || a == "--output"@ {
            lemma_outcome_reads_ahead(args, other, i + 1, wrap, input, true);
        } else if a == "-w"@ || a == "--wrap"@ {
            if i + 1 < args.len() {
                match parse_unsigned(args[i + 1], 10, usize::MAX as nat) {
                    Some(w) => lemma_outcome_reads_ahead(
                        args,
                        other,
                        i + 2,
                        w as usize,
                        input,
                        output,
                    ),
                    None => {},
                }
            }
        } else if is_unknown_option(a) {
        } else if input is Some {
        } else {
            lemma_outcome_reads_ahead(args, other, i + 1, wrap, Some(a), output);
        }
    }
}

/// Every option has a short and a long form with the same effect: where an
/// option is read, `-w` and `--wrap`, `-o` and `--output`, `-h` and
/// `--help` are interchangeable.
pub proof fn law_short_and_long_forms_agree(
    args: Seq<Seq<char>>,
    i: int,
    wrap: usize,
    input: Option<Seq<char>>,
    output: bool,
)
    requires
        0 <= i < args.len(),
    ensures
        args_outcome(args.update(i, long_form(args[i])), i, wrap, input, output) == args_outcome(
            args,
            i,
            wrap,
            input,
            output,
        ),
{
    reveal_strlit("-w");
    reveal_strlit("--wrap");
    reveal_strlit("-o");
    reveal_strlit("--output");
    reveal_strlit("-h");
    reveal_strlit("--help");
    let other = args.update(i, long_form(args[i]));
    if long_form(args[i]) == args[i] {
        assert(other =~= args);
    } else {
        assert(other[i] == long_form(args[i]));
        if i + 1 < args.len() {
            assert(other[i + 1] == args[i + 1]);
        }
        assert(args[i] == "-w"@ || args[i] == "-o"@ || args[i] == "-h"@);
        assert("-w"@[1] == 'w' && "-h"@[1] == 'h' && "-o"@[1] == 'o');
        assert("--wrap"@[2] == 'w' && "--help"@[2] == 'h' && "--output"@[2] == 'o');
        assert("-w"@ != "-h"@ && "-w"@ != "--help"@ && "-w"@ != "-o"@ && "-w"@ != "--output"@);
        assert("--wrap"@ != "-h"@ && "--wrap"@ != "--help"@ && "--wrap"@ != "-o"@ && "--wrap"@
            != "--output"@);
        assert("-o"@ != "-h"@ && "-o"@ != "--help"@);
        assert("--output"@ != "-h"@ && "--output"@ != "--help"@);
        lemma_outcome_reads_ahead(args, other, i + 1, wrap, input, true);
        if i + 1 < args.len() {
            match parse_unsigned(args[i + 1], 10, usize::MAX as nat) {
                Some(w) => lemma_outcome_reads_ahead(
                    args,
                    other,
                    i + 2,
                    w as usize,
                    input,
                    output,
                ),
                None => {},
            }
        }
    }
}

} // verus!
