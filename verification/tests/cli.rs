use svlopp::cli::parse;
use svlopp::cli::CliArgs;
use svlopp::cli::CliError;

fn args(list: &[&str]) -> Vec<String> {
    list.iter().map(|s| s.to_string()).collect()
}

#[test]
fn config_alone_uses_the_default_run_dir() {
    assert_eq!(
        parse(&args(&["svc.conf"])),
        Ok(CliArgs {
            config_path: "svc.conf".to_string(),
            run_dir: "/run/svlopp".to_string(),
        })
    );
}

#[test]
fn run_dir_before_the_config() {
    assert_eq!(
        parse(&args(&["--run-dir", "/tmp/run", "svc.conf"])),
        Ok(CliArgs {
            config_path: "svc.conf".to_string(),
            run_dir: "/tmp/run".to_string(),
        })
    );
}

#[test]
fn run_dir_after_the_config() {
    assert_eq!(
        parse(&args(&["svc.conf", "--run-dir", "/tmp/run"])),
        Ok(CliArgs {
            config_path: "svc.conf".to_string(),
            run_dir: "/tmp/run".to_string(),
        })
    );
}

#[test]
fn the_last_run_dir_wins() {
    assert_eq!(
        parse(&args(&["--run-dir", "/a", "--run-dir", "/b", "c"])),
        Ok(CliArgs {
            config_path: "c".to_string(),
            run_dir: "/b".to_string(),
        })
    );
}

#[test]
fn the_value_of_run_dir_may_start_with_a_dash() {
    assert_eq!(
        parse(&args(&["--run-dir", "--help", "c"])),
        Ok(CliArgs {
            config_path: "c".to_string(),
            run_dir: "--help".to_string(),
        })
    );
}

#[test]
fn run_dir_without_a_value_is_refused() {
    assert_eq!(parse(&args(&["--run-dir"])), Err(CliError::MissingValue));
    assert_eq!(
        parse(&args(&["svc.conf", "--run-dir"])),
        Err(CliError::MissingValue)
    );
}

#[test]
fn help_ends_the_parse() {
    assert_eq!(parse(&args(&["--help"])), Err(CliError::Help));
    assert_eq!(parse(&args(&["svc.conf", "--help"])), Err(CliError::Help));
}

#[test]
fn unknown_option_is_refused_with_its_place() {
    assert_eq!(parse(&args(&["-x"])), Err(CliError::UnknownOption(0)));
    assert_eq!(
        parse(&args(&["svc.conf", "--verbose"])),
        Err(CliError::UnknownOption(1))
    );
    assert_eq!(parse(&args(&["-"])), Err(CliError::UnknownOption(0)));
}

#[test]
fn second_config_is_refused_with_its_place() {
    assert_eq!(
        parse(&args(&["a.conf", "b.conf"])),
        Err(CliError::UnexpectedArgument(1))
    );
    assert_eq!(
        parse(&args(&["--run-dir", "/r", "a", "b"])),
        Err(CliError::UnexpectedArgument(3))
    );
}

#[test]
fn arguments_can_be_copied() {
    let parsed = parse(&args(&["--run-dir", "/r", "c"])).expect("arguments are valid");
    assert_eq!(parsed.clone(), parsed);
}

#[test]
fn no_config_is_refused() {
    assert_eq!(parse(&args(&[])), Err(CliError::MissingConfig));
    assert_eq!(
        parse(&args(&["--run-dir", "/tmp/run"])),
        Err(CliError::MissingConfig)
    );
}

#[test]
fn an_empty_argument_is_a_config_path() {
    assert_eq!(
        parse(&args(&[""])),
        Ok(CliArgs {
            config_path: String::new(),
            run_dir: "/run/svlopp".to_string(),
        })
    );
}
