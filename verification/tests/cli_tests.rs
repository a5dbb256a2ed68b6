use pdfmaker::cli::{need, parse_args, Args, Command};
use pdfmaker::error::CliError;
use pdfmaker::paper::{float_literal, parse_paper, PaperSize};

fn args(v: &[&str]) -> Vec<String> {
    v.iter().map(|s| s.to_string()).collect()
}

fn run(v: &[&str]) -> Args {
    match parse_args(&args(v)) {
        Ok(Command::Run(a)) => a,
        Ok(Command::Help) => panic!("help"),
        Err(e) => panic!("{}", e.message()),
    }
}

fn err(v: &[&str]) -> String {
    match parse_args(&args(v)) {
        Err(e) => e.message(),
        Ok(_) => panic!("accepted"),
    }
}

#[test]
fn reads_all_options() {
    let a = run(&["-i", "in.html", "--css", "s.css", "-o", "out.pdf", "--paper", "a4", "-u"]);
    assert_eq!(a.input.as_deref(), Some("in.html"));
    assert_eq!(a.css.as_deref(), Some("s.css"));
    assert_eq!(a.output.as_deref(), Some("out.pdf"));
    assert!(matches!(a.paper, Some(PaperSize::A4)));
    assert!(a.upgrade);
}

#[test]
fn long_names_and_size_alias() {
    let a = run(&["--input", "x.html", "--output", "y.pdf", "--size", "Letter"]);
    assert_eq!(a.input.as_deref(), Some("x.html"));
    assert_eq!(a.output.as_deref(), Some("y.pdf"));
    assert!(matches!(a.paper, Some(PaperSize::Letter)));
    assert!(!a.upgrade);
    assert!(a.css.is_none());
}

#[test]
fn later_option_overrides_earlier() {
    let a = run(&["-i", "a.html", "-i", "b.html"]);
    assert_eq!(a.input.as_deref(), Some("b.html"));
}

#[test]
fn upgrade_alone_needs_no_input() {
    let a = run(&["--upgrade"]);
    assert!(a.input.is_none());
    assert!(a.upgrade);
}

#[test]
fn input_is_required() {
    assert_eq!(err(&[]), "missing required -i <input.html> (use --help)");
    assert_eq!(err(&["-o", "x.pdf"]), "missing required -i <input.html> (use --help)");
}

#[test]
fn help_wins_over_what_follows() {
    assert!(matches!(parse_args(&args(&["-h", "--bogus"])), Ok(Command::Help)));
    assert!(matches!(parse_args(&args(&["-i", "a", "--help"])), Ok(Command::Help)));
}

#[test]
fn first_error_is_reported() {
    assert_eq!(err(&["--bogus", "-h"]), "unknown argument: --bogus (use --help)");
    assert_eq!(err(&["-i"]), "-i requires a value");
    assert_eq!(err(&["--css"]), "-c requires a value");
    assert_eq!(err(&["-i", "a", "--output"]), "-o requires a value");
    assert_eq!(err(&["--paper"]), "-p requires a value");
    assert_eq!(err(&["-p", "B5", "-h"]), "unknown paper size: B5 (try A4, Letter, or WxH)");
    assert_eq!(err(&["-p", "fooX10", "-i", "a"]), "bad width in fooX10");
    assert_eq!(err(&["-p", "10x", "-i", "a"]), "bad height in 10x");
}

#[test]
fn need_takes_the_next_argument() {
    let v = args(&["-i", "file"]);
    assert_eq!(need(&v, 1, "-i").unwrap(), "file");
    match need(&v, 2, "-i") {
        Err(CliError::MissingValue(f)) => assert_eq!(f, "-i"),
        _ => panic!("expected a missing value"),
    }
}

#[test]
fn named_paper_sizes() {
    assert!(matches!(parse_paper("A3"), Ok(PaperSize::A3)));
    assert!(matches!(parse_paper("a5"), Ok(PaperSize::A5)));
    assert!(matches!(parse_paper("LEGAL"), Ok(PaperSize::Legal)));
    assert!(matches!(parse_paper("Tabloid"), Ok(PaperSize::Tabloid)));
    assert_eq!(parse_paper("A4").ok().unwrap().points_e4(), Some((5952756, 8418898)));
    assert_eq!(parse_paper("letter").ok().unwrap().points_e4(), Some((6120000, 7920000)));
}

#[test]
fn custom_paper_size() {
    match parse_paper(" 595 X 842.5 ") {
        Ok(PaperSize::Custom { width, height }) => {
            assert_eq!(width, "595");
            assert_eq!(height, "842.5");
        }
        _ => panic!("expected a custom size"),
    }
    match parse_paper("1e3x-.5") {
        Ok(PaperSize::Custom { width, height }) => {
            assert_eq!(width, "1e3");
            assert_eq!(height, "-.5");
        }
        _ => panic!("expected a custom size"),
    }
    assert!(parse_paper("595x842").ok().unwrap().points_e4().is_none());
}

#[test]
fn custom_paper_errors() {
    assert!(matches!(parse_paper("huge"), Err(CliError::UnknownPaperSize(s)) if s == "huge"));
    assert!(matches!(parse_paper("x100"), Err(CliError::BadWidth(s)) if s == "x100"));
    assert!(matches!(parse_paper("100x1x2"), Err(CliError::BadHeight(s)) if s == "100x1x2"));
    assert!(matches!(parse_paper("1.2.3x4"), Err(CliError::BadWidth(_))));
}

fn lit(s: &str) -> bool {
    float_literal(&s.chars().collect())
}

#[test]
fn float_syntax_agrees_with_std() {
    for s in [
        "0", "12", "1.", ".5", "1.5", "+3", "-3.25", "1e5", "1e+5", "2.5e-3", "inf", "-inf",
        "infinity", "+infinity", "nan", "", ".", "e5", "1e", "1e+", "1..2", "--1", "1 2", "0x10",
        "in", "infinit", "nana", "1.e3", ".e3", "+", "1_000",
    ] {
        assert_eq!(lit(s), s.parse::<f32>().is_ok(), "{s}");
    }
}

#[test]
fn paper_names_ignore_case() {
    assert_eq!(parse_paper("A4").ok().unwrap().points_e4(), parse_paper("a4").ok().unwrap().points_e4());
    match (parse_paper("595X842"), parse_paper("595x842")) {
        (Ok(PaperSize::Custom { width: w1, height: h1 }), Ok(PaperSize::Custom { width: w2, height: h2 })) => {
            assert_eq!((w1, h1), (w2, h2));
        }
        _ => panic!("expected custom sizes"),
    }
    assert_eq!(parse_paper("INF x NaN").ok().map(|p| p.points_e4()), Some(None));
}
