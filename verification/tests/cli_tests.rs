use griid_trace::cli::{Cli, CliError, Commands, ExportCommands};

fn parse(args: &[&str]) -> Result<Cli, CliError> {
    let v: Vec<String> = args.iter().map(|s| s.to_string()).collect();
    Cli::parse_args(&v)
}

#[test]
fn tui_with_and_without_file() {
    match parse(&["tui"]).unwrap().command {
        Commands::Tui { file, watch } => {
            assert_eq!(file, None);
            assert!(watch);
        }
        other => panic!("{:?}", other),
    }
    match parse(&["tui", "--watch", "./trace.jsonl"]).unwrap().command {
        Commands::Tui { file, watch } => {
            assert_eq!(file.as_deref(), Some("./trace.jsonl"));
            assert!(watch);
        }
        other => panic!("{:?}", other),
    }
    assert!(matches!(parse(&["tui", "-w", "-w"]), Err(CliError::RepeatedArgument(_))));
    assert!(matches!(parse(&["tui", "a", "b"]), Err(CliError::UnexpectedArgument(s)) if s == "b"));
    assert!(matches!(parse(&["tui", "--wat"]), Err(CliError::UnknownArgument(s)) if s == "--wat"));
}

#[test]
fn export_html_forms() {
    for args in [
        vec!["export", "html", "in.jsonl", "-o", "out.html"],
        vec!["export", "html", "--output", "out.html", "in.jsonl"],
        vec!["export", "html", "in.jsonl", "--output=out.html"],
        vec!["export", "html", "-oout.html", "in.jsonl"],
        vec!["export", "html", "-o=out.html", "in.jsonl"],
    ] {
        match parse(&args).unwrap().command {
            Commands::Export { export_cmd: ExportCommands::Html { input, output } } => {
                assert_eq!(input, "in.jsonl");
                assert_eq!(output, "out.html");
            }
            other => panic!("{:?}", other),
        }
    }
    assert!(matches!(parse(&["export", "html", "in.jsonl"]), Err(CliError::MissingArgument(s)) if s == "--output <OUTPUT>"));
    assert!(matches!(parse(&["export", "html", "-o", "x"]), Err(CliError::MissingArgument(s)) if s == "<INPUT>"));
    assert!(matches!(parse(&["export", "html", "in", "-o"]), Err(CliError::MissingValue(_))));
    assert!(matches!(parse(&["export", "html", "in", "-o", "-x"]), Err(CliError::MissingValue(_))));
    assert!(matches!(parse(&["export", "html", "in", "--output="]), Err(CliError::EmptyValue(_))));
    assert!(matches!(parse(&["export", "pdf"]), Err(CliError::UnknownCommand(s)) if s == "pdf"));
    assert!(matches!(parse(&["export"]), Err(CliError::MissingCommand(p)) if p == vec!["export".to_string()]));
}

#[test]
fn validate_and_clean() {
    match parse(&["validate", "trace.jsonl"]).unwrap().command {
        Commands::Validate { file } => assert_eq!(file, "trace.jsonl"),
        other => panic!("{:?}", other),
    }
    assert!(matches!(parse(&["validate"]), Err(CliError::MissingArgument(s)) if s == "<FILE>"));
    assert!(matches!(parse(&["validate", ""]), Err(CliError::EmptyValue(_))));
    match parse(&["validate", "--", "-odd-name"]).unwrap().command {
        Commands::Validate { file } => assert_eq!(file, "-odd-name"),
        other => panic!("{:?}", other),
    }
    assert!(matches!(parse(&["clean"]).unwrap().command, Commands::Clean));
    assert!(matches!(parse(&["clean", "x"]), Err(CliError::UnexpectedArgument(_))));
}

#[test]
fn help_version_and_unknown() {
    assert!(matches!(parse(&[]), Err(CliError::MissingCommand(p)) if p.is_empty()));
    assert!(matches!(parse(&["--help"]), Err(CliError::HelpRequested(p)) if p.is_empty()));
    assert!(matches!(parse(&["-V"]), Err(CliError::VersionRequested)));
    assert!(matches!(parse(&["tui", "-h"]), Err(CliError::HelpRequested(p)) if p == vec!["tui".to_string()]));
    assert!(matches!(parse(&["help", "export"]), Err(CliError::HelpRequested(p)) if p == vec!["export".to_string()]));
    assert!(matches!(parse(&["frobnicate"]), Err(CliError::UnknownCommand(s)) if s == "frobnicate"));
    assert!(matches!(parse(&["--frob"]), Err(CliError::UnknownArgument(s)) if s == "--frob"));
}

#[test]
fn clustered_short_flags() {
    match parse(&["tui", "-wh"]) {
        Err(CliError::HelpRequested(p)) => assert_eq!(p, vec!["tui".to_string()]),
        other => panic!("{:?}", other.map(|c| c.command)),
    }
    match parse(&["tui", "-hw"]) {
        Err(CliError::HelpRequested(p)) => assert_eq!(p, vec!["tui".to_string()]),
        other => panic!("{:?}", other.map(|c| c.command)),
    }
    assert!(matches!(parse(&["tui", "-ww"]), Err(CliError::RepeatedArgument(s)) if s == "--watch"));
    assert!(matches!(parse(&["tui", "-w", "-ww"]), Err(CliError::RepeatedArgument(_))));
    assert!(matches!(parse(&["tui", "-wx"]), Err(CliError::UnknownArgument(s)) if s == "-x"));
    assert!(matches!(parse(&["tui", "-xh"]), Err(CliError::UnknownArgument(s)) if s == "-x"));
    match parse(&["validate", "-hq"]) {
        Err(CliError::HelpRequested(p)) => assert_eq!(p, vec!["validate".to_string()]),
        other => panic!("{:?}", other.map(|c| c.command)),
    }
    assert!(matches!(parse(&["validate", "-w", "f.jsonl"]), Err(CliError::UnknownArgument(s)) if s == "-w"));
    assert!(matches!(parse(&["export", "html", "in.jsonl", "-ho"]), Err(CliError::HelpRequested(_))));
    assert!(matches!(parse(&["export", "html", "in.jsonl", "-xo"]), Err(CliError::UnknownArgument(s)) if s == "-x"));
}

#[test]
fn clustered_flags_before_the_command() {
    assert!(matches!(parse(&["-hV"]), Err(CliError::HelpRequested(p)) if p.is_empty()));
    assert!(matches!(parse(&["-Vh"]), Err(CliError::VersionRequested)));
    assert!(matches!(parse(&["-xh"]), Err(CliError::UnknownArgument(s)) if s == "-x"));
    match parse(&["export", "-hx"]) {
        Err(CliError::HelpRequested(p)) => assert_eq!(p, vec!["export".to_string()]),
        other => panic!("{:?}", other.map(|c| c.command)),
    }
    assert!(matches!(parse(&["export", "-xh"]), Err(CliError::UnknownArgument(s)) if s == "-x"));
    match parse(&["export", "help", "html"]) {
        Err(CliError::HelpRequested(p)) => assert_eq!(p, vec!["export".to_string(), "html".to_string()]),
        other => panic!("{:?}", other.map(|c| c.command)),
    }
}
