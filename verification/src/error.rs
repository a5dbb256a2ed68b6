use vstd::prelude::*;

verus! {

/// Why the command line was refused.
#[derive(Debug)]
pub enum CliError {
    /// An argument that is no known option.
    UnknownArgument(String),
    /// An option that takes a value came last; holds the option's short name.
    MissingValue(String),
    /// Neither `-i` nor `--upgrade` was given.
    MissingInput,
    /// A paper size that is neither a known name nor `WIDTHxHEIGHT`.
    UnknownPaperSize(String),
    /// A `WIDTHxHEIGHT` paper size whose width is no number.
    BadWidth(String),
    /// A `WIDTHxHEIGHT` paper size whose height is no number.
    BadHeight(String),
}

/// A `CliError` with its strings taken as character sequences.
pub enum CliErrorView {
    UnknownArgument(Seq<char>),
    MissingValue(Seq<char>),
    MissingInput,
    UnknownPaperSize(Seq<char>),
    BadWidth(Seq<char>),
    BadHeight(Seq<char>),
}

impl View for CliError {
    type V = CliErrorView;

    open spec fn view(&self) -> CliErrorView {
        match self {
            CliError::UnknownArgument(a) => CliErrorView::UnknownArgument(a@),
            CliError::MissingValue(f) => CliErrorView::MissingValue(f@),
            CliError::MissingInput => CliErrorView::MissingInput,
            CliError::UnknownPaperSize(s) => CliErrorView::UnknownPaperSize(s@),
            CliError::BadWidth(s) => CliErrorView::BadWidth(s@),
            CliError::BadHeight(s) => CliErrorView::BadHeight(s@),
        }
    }
}

/// The message that the command line prints for an error.
pub open spec fn error_message(e: CliErrorView) -> Seq<char> {
    match e {
        CliErrorView::UnknownArgument(a) => "unknown argument: "@ + a + " (use --help)"@,
        CliErrorView::MissingValue(f) => f + " requires a value"@,
        CliErrorView::MissingInput => "missing required -i <input.html> (use --help)"@,
        CliErrorView::UnknownPaperSize(s) => "unknown paper size: "@ + s
            + " (try A4, Letter, or WxH)"@,
        CliErrorView::BadWidth(s) => "bad width in "@ + s,
        CliErrorView::BadHeight(s) => "bad height in "@ + s,
    }
}

impl CliError {
    /// The text to report for this error.
    pub fn message(&self) -> (m: String)
        ensures
            m@ == error_message(self@),
    {
        match self {
            CliError::UnknownArgument(a) => {
                let mut m = String::from_str("unknown argument: ");
                m.append(a.as_str());
                m.append(" (use --help)");
                m
            },
            CliError::MissingValue(f) => {
                let mut m = String::from_str(f.as_str());
                m.append(" requires a value");
                m
            },
            CliError::MissingInput => String::from_str(
                "missing required -i <input.html> (use --help)",
            ),
            CliError::UnknownPaperSize(s) => {
                let mut m = String::from_str("unknown paper size: ");
                m.append(s.as_str());
                m.append(" (try A4, Letter, or WxH)");
                m
            },
            CliError::BadWidth(s) => {
                let mut m = String::from_str("bad width in ");
                m.append(s.as_str());
                m
            },
            CliError::BadHeight(s) => {
                let mut m = String::from_str("bad height in ");
                m.append(s.as_str());
                m
            },
        }
    }
}

} // verus!
