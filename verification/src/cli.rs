use vstd::prelude::*;

use crate::error::{CliError, CliErrorView};
use crate::paper::{paper_of, parse_paper, PaperSize, PaperView};
use crate::text::{chars_eq, chars_of};

verus! {

/// What the command line asks for.
pub struct Args {
    /// `-i` / `--input`: the HTML file.
    pub input: Option<String>,
    /// `-c` / `--css`: an extra style sheet.
    pub css: Option<String>,
    /// `-o` / `--output`: the PDF file to write.
    pub output: Option<String>,
    /// `-p` / `--paper` / `--size`: the page size.
    pub paper: Option<PaperSize>,
    /// `-u` / `--upgrade`: drop the cached engine and download it again.
    pub upgrade: bool,
}

/// An `Args` with its strings taken as character sequences.
pub struct ArgsView {
    pub input: Option<Seq<char>>,
    pub css: Option<Seq<char>>,
    pub output: Option<Seq<char>>,
    pub paper: Option<PaperView>,
    pub upgrade: bool,
}

/// An optional string taken as an optional character sequence.
pub open spec fn opt_chars(o: Option<String>) -> Option<Seq<char>> {
    match o {
        Some(s) => Some(s@),
        None => None,
    }
}

/// An optional paper size taken by its view.
pub open spec fn opt_paper(o: Option<PaperSize>) -> Option<PaperView> {
    match o {
        Some(p) => Some(p@),
        None => None,
    }
}

impl View for Args {
    type V = ArgsView;

    open spec fn view(&self) -> ArgsView {
        ArgsView {
            input: opt_chars(self.input),
            css: opt_chars(self.css),
            output: opt_chars(self.output),
            paper: opt_paper(self.paper),
            upgrade: self.upgrade,
        }
    }
}

/// What to do after reading the command line.
pub enum Command {
    /// `-h` / `--help`: print the usage and stop.
    Help,
    /// Convert (or only refresh the engine) with these arguments.
    Run(Args),
}

/// A `Command` taken by its view.
pub enum CommandView {
    Help,
    Run(ArgsView),
}

impl View for Command {
    type V = CommandView;

    open spec fn view(&self) -> CommandView {
        match self {
            Command::Help => CommandView::Help,
            Command::Run(a) => CommandView::Run(a@),
        }
    }
}

/// The arguments before any option was read.
pub open spec fn no_args() -> ArgsView {
    ArgsView { input: None, css: None, output: None, paper: None, upgrade: false }
}

/// The outcome of reading `args[i..]` with `acc` holding what the arguments
/// before `i` set: options are read left to right, a later one overrides an
/// earlier one, `-h` stops at once, and the first refused argument ends the
/// reading with its error.
pub open spec fn read_args(args: Seq<Seq<char>>, i: int, acc: ArgsView) -> Result<
    CommandView,
    CliErrorView,
>
    decreases args.len() - i,
{
    if i < 0 || i >= args.len() {
        if acc.input is None && !acc.upgrade {
            Err(CliErrorView::MissingInput)
        } else {
            Ok(CommandView::Run(acc))
        }
    } else {
        let a = args[i];
        if a == "-i"@ || a == "--input"@ {
            if i + 1 < args.len() {
                read_args(args, i + 2, ArgsView { input: Some(args[i + 1]), ..acc })
            } else {
                Err(CliErrorView::MissingValue("-i"@))
            }
        } else if a == "-c"@ || a == "--css"@ {
            if i + 1 < args.len() {
                read_args(args, i + 2, ArgsView { css: Some(args[i + 1]), ..acc })
            } else {
                Err(CliErrorView::MissingValue("-c"@))
            }
        } else if a == "-o"@ || a == "--output"@ {
            if i + 1 < args.len() {
                read_args(args, i + 2, ArgsView { output: Some(args[i + 1]), ..acc })
            } else {
                Err(CliErrorView::MissingValue("-o"@))
            }
        } else if a == "-p"@ || a == "--paper"@ || a == "--size"@ {
            if i + 1 < args.len() {
                match paper_of(args[i + 1]) {
                    Ok(p) => read_args(args, i + 2, ArgsView { paper: Some(p), ..acc }),
                    Err(e) => Err(e),
                }
            } else {
                Err(CliErrorView::MissingValue("-p"@))
            }
        } else if a == "-u"@ || a == "--upgrade"@ {
            read_args(args, i + 1, ArgsView { upgrade: true, ..acc })
        } else if a == "-h"@ || a == "--help"@ {
            Ok(CommandView::Help)
        } else {
            Err(CliErrorView::UnknownArgument(a))
        }
    }
}

/// Reading from position `j` looks only at the arguments from `j` on.
pub proof fn lemma_read_args_frame(a: Seq<Seq<char>>, b: Seq<Seq<char>>, j: int, acc: ArgsView)
    requires
        0 <= j,
        a.len() == b.len(),
        forall|k: int| j <= k < a.len() ==> a[k] == b[k],
    ensures
        read_args(a, j, acc) == read_args(b, j, acc),
    decreases a.len() - j,
{
    if j < a.len() {
        let x = a[j];
        lemma_read_args_frame(a, b, j + 1, ArgsView { upgrade: true, ..acc });
        if j + 1 < a.len() {
            let v = a[j + 1];
            lemma_read_args_frame(a, b, j + 2, ArgsView { input: Some(v), ..acc });
            lemma_read_args_frame(a, b, j + 2, ArgsView { css: Some(v), ..acc });
            lemma_read_args_frame(a, b, j + 2, ArgsView { output: Some(v), ..acc });
            if let Ok(p) = paper_of(v) {
                lemma_read_args_frame(a, b, j + 2, ArgsView { paper: Some(p), ..acc });
            }
        }
    }
}

/// What each option does where it is read, under every one of its
/// spellings: `-i`/`--input`, `-c`/`--css`, `-o`/`--output` take the next
/// argument as the file name, `-p`/`--paper`/`--size` take it as the paper
/// size, `-u`/`--upgrade` sets the upgrade flag, `-h`/`--help` asks for the
/// usage; an option that needs a value and comes last is refused, naming its
/// short spelling.
pub proof fn lemma_option_spellings(args: Seq<Seq<char>>, i: int, acc: ArgsView)
    requires
        0 <= i < args.len(),
    ensures
        args[i] == "-i"@ || args[i] == "--input"@ ==> read_args(args, i, acc) == if i + 1
            < args.len() {
            read_args(args, i + 2, ArgsView { input: Some(args[i + 1]), ..acc })
        } else {
            Err(CliErrorView::MissingValue("-i"@))
        },
        args[i] == "-c"@ || args[i] == "--css"@ ==> read_args(args, i, acc) == if i + 1
            < args.len() {
            read_args(args, i + 2, ArgsView { css: Some(args[i + 1]), ..acc })
        } else {
            Err(CliErrorView::MissingValue("-c"@))
        },
        args[i] == "-o"@ || args[i] == "--output"@ ==> read_args(args, i, acc) == if i + 1
            < args.len() {
            read_args(args, i + 2, ArgsView { output: Some(args[i + 1]), ..acc })
        } else {
            Err(CliErrorView::MissingValue("-o"@))
        },
        args[i] == "-p"@ || args[i] == "--paper"@ || args[i] == "--size"@ ==> read_args(
            args,
            i,
            acc,
        ) == if i + 1 < args.len() {
            match paper_of(args[i + 1]) {
                Ok(p) => read_args(args, i + 2, ArgsView { paper: Some(p), ..acc }),
                Err(e) => Err(e),
            }
        } else {
            Err(CliErrorView::MissingValue("-p"@))
        },
        args[i] == "-u"@ || args[i] == "--upgrade"@ ==> read_args(args, i, acc) == read_args(
            args,
            i + 1,
            ArgsView { upgrade: true, ..acc },
        ),
        args[i] == "-h"@ || args[i] == "--help"@ ==> read_args(args, i, acc) == Ok::<
            CommandView,
            CliErrorView,
        >(CommandView::Help),
{
    reveal_strlit("-i");
    reveal_strlit("--input");
    reveal_strlit("-c");
    reveal_strlit("--css");
    reveal_strlit("-o");
    reveal_strlit("--output");
    reveal_strlit("-p");
    reveal_strlit("--paper");
    reveal_strlit("--size");
    reveal_strlit("-u");
    reveal_strlit("--upgrade");
    reveal_strlit("-h");
    reveal_strlit("--help");
    assert("-i"@[1] == 'i' && "-c"@[1] == 'c' && "-o"@[1] == 'o' && "-p"@[1] == 'p' && "-u"@[1]
        == 'u' && "-h"@[1] == 'h');
    assert("--input"@[2] == 'i' && "--css"@[2] == 'c' && "--output"@[2] == 'o' && "--paper"@[2]
        == 'p' && "--size"@[2] == 's' && "--upgrade"@[2] == 'u' && "--help"@[2] == 'h');
}

/// The short and long spellings of an option are read alike: replacing the
/// argument at the reading position by another spelling of the same option
/// gives the same outcome.
pub proof fn lemma_spellings_read_alike(
    args: Seq<Seq<char>>,
    i: int,
    acc: ArgsView,
    short: Seq<char>,
    long: Seq<char>,
)
    requires
        0 <= i < args.len(),
        args[i] == short,
        (short == "-i"@ && long == "--input"@) || (short == "-c"@ && long == "--css"@) || (short
            == "-o"@ && long == "--output"@) || (short == "-p"@ && (long == "--paper"@ || long
            == "--size"@)) || (short == "-u"@ && long == "--upgrade"@) || (short == "-h"@ && long
            == "--help"@),
    ensures
        read_args(args, i, acc) == read_args(args.update(i, long), i, acc),
{
    let b = args.update(i, long);
    lemma_option_spellings(args, i, acc);
    lemma_option_spellings(b, i, acc);
    assert(b[i] == long);
    if i + 1 < args.len() {
        assert(b[i + 1] == args[i + 1]);
    }
    let v = if i + 1 < args.len() { args[i + 1] } else { Seq::<char>::empty() };
    lemma_read_args_frame(args, b, i + 1, ArgsView { upgrade: true, ..acc });
    lemma_read_args_frame(args, b, i + 2, ArgsView { input: Some(v), ..acc });
    lemma_read_args_frame(args, b, i + 2, ArgsView { css: Some(v), ..acc });
    lemma_read_args_frame(args, b, i + 2, ArgsView { output: Some(v), ..acc });
    if let Ok(p) = paper_of(v) {
        lemma_read_args_frame(args, b, i + 2, ArgsView { paper: Some(p), ..acc });
    }
}

/// The strings of a list taken as character sequences.
pub open spec fn arg_chars(args: Seq<String>) -> Seq<Seq<char>> {
    args.map_values(|s: String| s@)
}

/// The command that the arguments after the program name ask for.
pub open spec fn command_of(args: Seq<String>) -> Result<CommandView, CliErrorView> {
    read_args(arg_chars(args), 0, no_args())
}

/// Takes the value that follows an option: `args[next]`, or the error that
/// `flag` requires a value when the arguments end before it.
pub fn need(args: &Vec<String>, next: usize, flag: &str) -> (r: Result<String, CliError>)
    ensures
        next < args@.len() ==> (r matches Ok(v) && v@ == args@[next as int]@),
        next >= args@.len() ==> (r matches Err(e) && e@ == CliErrorView::MissingValue(flag@)),
{
    if next < args.len() {
        Ok(args[next].clone())
    } else {
        Err(CliError::MissingValue(String::from_str(flag)))
    }
}

/// Reads the command line (the arguments after the program name).
/// An input is required, except when only refreshing the engine with
/// `--upgrade`.
pub fn parse_args(args: &Vec<String>) -> (r: Result<Command, CliError>)
    ensures
        match r {
            Ok(c) => command_of(args@) == Ok::<CommandView, CliErrorView>(c@),
            Err(e) => command_of(args@) == Err::<CommandView, CliErrorView>(e@),
        },
        r matches Ok(Command::Run(a)) ==> a.input is Some || a.upgrade,
{
    let ghost all = arg_chars(args@);
    let mut input: Option<String> = None;
    let mut css: Option<String> = None;
    let mut output: Option<String> = None;
    let mut paper: Option<PaperSize> = None;
    let mut upgrade = false;
    let mut i: usize = 0;
    while i < args.len()
        invariant
            all == arg_chars(args@),
            all.len() == args@.len(),
            i <= args@.len(),
            command_of(args@) == read_args(
                all,
                i as int,
                ArgsView {
                    input: opt_chars(input),
                    css: opt_chars(css),
                    output: opt_chars(output),
                    paper: opt_paper(paper),
                    upgrade,
                },
            ),
        decreases args@.len() - i,
    {
        let a = chars_of(args[i].as_str());
        assert(all[i as int] == a@);
        if chars_eq(&a, "-i") || chars_eq(&a, "--input") {
            let v = need(args, i + 1, "-i")?;
            input = Some(v);
            i = i + 2;
        } else if chars_eq(&a, "-c") || chars_eq(&a, "--css") {
            let v = need(args, i + 1, "-c")?;
            css = Some(v);
            i = i + 2;
        } else if chars_eq(&a, "-o") || chars_eq(&a, "--output") {
            let v = need(args, i + 1, "-o")?;
            output = Some(v);
            i = i + 2;
        } else if chars_eq(&a, "-p") || chars_eq(&a, "--paper") || chars_eq(&a, "--size") {
            let v = need(args, i + 1, "-p")?;
            paper = Some(parse_paper(v.as_str())?);
            i = i + 2;
        } else if chars_eq(&a, "-u") || chars_eq(&a, "--upgrade") {
            upgrade = true;
            i = i + 1;
        } else if chars_eq(&a, "-h") || chars_eq(&a, "--help") {
            return Ok(Command::Help);
        } else {
            return Err(CliError::UnknownArgument(args[i].clone()));
        }
    }
    if input.is_none() && !upgrade {
        return Err(CliError::MissingInput);
    }
    Ok(Command::Run(Args { input, css, output, paper, upgrade }))
}

} // verus!
