use lep::cli::{parse_args, Config, Parsed, PredictMode};
use lep::logging::{chrono_lite, log_level, LogLevel};
use lep::terminal::terminal_size;
use lep::text::{consists_of, same, strip_prefix};

fn parse(args: &[&str]) -> Result<Parsed, String> {
    let args: Vec<String> = args.iter().map(|a| a.to_string()).collect();
    parse_args(&args)
}

fn run(args: &[&str]) -> Config {
    match parse(args) {
        Ok(Parsed::Run(config)) => config,
        other => panic!("{:?}", other),
    }
}

fn error(args: &[&str]) -> String {
    match parse(args) {
        Err(message) => message,
        other => panic!("{:?}", other),
    }
}

#[test]
fn a_command_is_run_as_it_stands() {
    let config = run(&["ssh", "-v", "--help", "user@host"]);
    assert_eq!(config.command, vec!["ssh", "-v", "--help", "user@host"]);
    assert_eq!(config.predict_mode, PredictMode::Auto);
    assert_eq!(config.log_file, None);
    assert_eq!(config.verbose, 0);
}

#[test]
fn options_come_before_the_command() {
    let config = run(&["-p", "always", "--log", "/tmp/lep.log", "-vvv", "ssh", "host"]);
    assert_eq!(config.command, vec!["ssh", "host"]);
    assert_eq!(config.predict_mode, PredictMode::Always);
    assert_eq!(config.log_file.as_deref(), Some("/tmp/lep.log"));
    assert_eq!(config.verbose, 3);
}

#[test]
fn a_mode_can_be_given_in_four_ways() {
    for args in [
        ["-p", "Never", "x"].as_slice(),
        ["--predict", "none", "x"].as_slice(),
        ["--predict=OFF", "x"].as_slice(),
        ["-p=never", "x"].as_slice(),
    ] {
        assert_eq!(run(args).predict_mode, PredictMode::Never);
    }
    // the last one counts
    assert_eq!(
        run(&["-p", "never", "-p=always", "x"]).predict_mode,
        PredictMode::Always
    );
}

#[test]
fn verbosity_adds_up_to_a_limit() {
    assert_eq!(run(&["-v", "--verbose", "-vv", "x"]).verbose, 4);
    assert_eq!(run(&["-vvvvvvv", "x"]).verbose, 7);
    let many = format!("-{}", "v".repeat(200));
    assert_eq!(run(&[&many, &many, "x"]).verbose, 255);
    // one argument reaches the limit too
    for (flags, verbose) in [(254, 254), (255, 255), (256, 255), (257, 255)] {
        let arg = format!("-{}", "v".repeat(flags));
        assert_eq!(run(&[&arg, "x"]).verbose, verbose);
    }
}

#[test]
fn help_and_version_come_first() {
    for arg in ["-h", "--help"] {
        assert!(matches!(parse(&[arg]), Ok(Parsed::Help)));
    }
    for arg in ["-V", "--version"] {
        assert!(matches!(parse(&["-v", arg, "-?"]), Ok(Parsed::Version)));
    }
}

#[test]
fn a_wrong_command_line_is_explained() {
    assert_eq!(error(&[]), "No command specified");
    assert_eq!(error(&["-v"]), "No command specified");
    assert_eq!(error(&["--log"]), "--log requires a file path");
    assert_eq!(
        error(&["-p"]),
        "--predict requires a mode: always, auto, never"
    );
    assert_eq!(
        error(&["-p", "Often", "x"]),
        "Invalid predict mode 'Often'. Use: always, auto, never"
    );
    assert_eq!(
        error(&["--predict=", "x"]),
        "Invalid predict mode ''. Use: always, auto, never"
    );
    assert_eq!(
        error(&["-x", "ssh"]),
        "Unknown option: -x. Try 'lep --help'"
    );
    assert_eq!(error(&["-"]), "Unknown option: -. Try 'lep --help'");
    assert_eq!(error(&["-vx"]), "Unknown option: -vx. Try 'lep --help'");
}

#[test]
fn an_empty_argument_is_a_command() {
    assert_eq!(run(&["", "x"]).command, vec!["", "x"]);
}

#[test]
fn modes_have_names_in_lower_case() {
    assert_eq!(PredictMode::named("auto"), Some(PredictMode::Auto));
    assert_eq!(PredictMode::named("Auto"), None);
    assert_eq!(PredictMode::from_str("aUtO"), Ok(PredictMode::Auto));
    for name in ["ALWAYS", "Off", "nOnE", "x"] {
        let lower = name.to_lowercase();
        assert_eq!(PredictMode::from_str(name).ok(), PredictMode::from_str(&lower).ok());
    }
    assert_eq!(
        PredictMode::from_str("AUTÖ"),
        Err("Invalid predict mode 'AUTÖ'. Use: always, auto, never".to_string())
    );
}

#[test]
fn text_is_compared_and_cut_by_characters() {
    assert!(same("가", "가"));
    assert!(!same("a", "A"));
    assert_eq!(strip_prefix("가나", "가"), Some("나"));
    assert_eq!(strip_prefix("가", "가나"), None);
    assert_eq!(strip_prefix("ab", ""), Some("ab"));
    assert!(consists_of("vvv", 'v'));
    assert!(consists_of("", 'v'));
    assert!(!consists_of("vwv", 'v'));
}

#[test]
fn verbosity_chooses_the_log_level() {
    assert_eq!(log_level(0, None), LogLevel::Off);
    assert_eq!(log_level(1, None), LogLevel::Info);
    assert_eq!(log_level(2, None), LogLevel::Debug);
    assert_eq!(log_level(3, None), LogLevel::Trace);
    assert_eq!(log_level(255, None), LogLevel::Trace);
}

#[test]
fn a_named_log_level_overrides_verbosity() {
    assert_eq!(log_level(3, Some("error")), LogLevel::Error);
    assert_eq!(log_level(0, Some("warn")), LogLevel::Warn);
    assert_eq!(log_level(0, Some("info")), LogLevel::Info);
    assert_eq!(log_level(0, Some("debug")), LogLevel::Debug);
    assert_eq!(log_level(1, Some("trace")), LogLevel::Trace);
    assert_eq!(log_level(1, Some("loud")), LogLevel::Info);
    assert_eq!(LogLevel::named("off"), None);
}

#[test]
fn timestamps_have_three_decimals() {
    assert_eq!(chrono_lite(1_700_012_345, 7), b"12345.007".to_vec());
    assert_eq!(chrono_lite(100_000, 42), b"0.042".to_vec());
    assert_eq!(chrono_lite(99_999, 999), b"99999.999".to_vec());
    assert_eq!(chrono_lite(5, 0), b"5.000".to_vec());
}

#[test]
fn the_terminal_size_comes_from_the_first_that_knows() {
    assert_eq!(terminal_size(Some((100, 40)), Some((1, 1))), (100, 40));
    assert_eq!(terminal_size(None, Some((132, 50))), (132, 50));
    assert_eq!(terminal_size(Some((0, 40)), Some((132, 50))), (132, 50));
    assert_eq!(terminal_size(Some((100, 0)), None), (80, 24));
    assert_eq!(terminal_size(None, Some((0, 0))), (80, 24));
}
