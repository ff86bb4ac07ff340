use mini_grep::{AppError, Arguments, CaseMode, Config, MatchMode, OutputMode, EXIT_USAGE};

fn config(pattern: &str, paths: &[&str]) -> Config {
    Config {
        ignore_case: false,
        pattern: pattern.to_string(),
        count: false,
        invert: false,
        path: paths.iter().map(|path| path.to_string()).collect(),
    }
}

#[test]
fn empty_pattern_is_refused() {
    assert_eq!(config("", &[]).validate(&[]), Err(AppError::PatternRequired));
}

#[test]
fn blank_pattern_is_refused() {
    assert_eq!(config("   ", &[]).validate(&[]), Err(AppError::PatternRequired));
    assert_eq!(config("\t \n", &[]).validate(&[]), Err(AppError::PatternRequired));
    assert_eq!(config("\u{a0}\u{2003}", &[]).validate(&[]), Err(AppError::PatternRequired));
}

#[test]
fn blank_pattern_is_refused_before_any_path_is_looked_at() {
    let missing = config(" ", &["missing.txt"]);
    assert_eq!(missing.validate(&[false]), Err(AppError::PatternRequired));
    let present = config(" ", &["present.txt"]);
    assert_eq!(present.validate(&[true]), Err(AppError::PatternRequired));
    assert_eq!(AppError::PatternRequired.exit_code(), EXIT_USAGE);
}

#[test]
fn pattern_with_surrounding_blanks_passes() {
    assert_eq!(config("  err ", &[]).validate(&[]), Ok(()));
}

#[test]
fn missing_file_is_refused_with_its_path() {
    let asked = config("err", &["missing.txt"]);
    let verdict = asked.validate(&[false]);
    assert_eq!(verdict, Err(AppError::InvalidFile("missing.txt".to_string())));
    assert_eq!(verdict.unwrap_err().exit_code(), EXIT_USAGE);
}

#[test]
fn existing_files_pass() {
    assert_eq!(config("err", &["a.txt", "b.txt"]).validate(&[true, true]), Ok(()));
}

#[test]
fn no_paths_pass() {
    assert_eq!(config("err", &[]).validate(&[]), Ok(()));
}

#[test]
fn first_missing_file_is_the_one_reported() {
    let asked = config("err", &["a.txt", "b.txt", "c.txt", "d.txt"]);
    assert_eq!(
        asked.validate(&[true, false, true, false]),
        Err(AppError::InvalidFile("b.txt".to_string()))
    );
}

#[test]
fn dash_passes_without_being_a_file() {
    assert_eq!(config("err", &["-"]).validate(&[false]), Ok(()));
    assert_eq!(config("err", &["a.txt", "-", "b.txt"]).validate(&[true, false, true]), Ok(()));
}

#[test]
fn only_the_lone_dash_is_exempt() {
    assert_eq!(
        config("err", &["--"]).validate(&[false]),
        Err(AppError::InvalidFile("--".to_string()))
    );
    assert_eq!(
        config("err", &["-a"]).validate(&[false]),
        Err(AppError::InvalidFile("-a".to_string()))
    );
    assert_eq!(config("err", &[""]).validate(&[false]), Err(AppError::InvalidFile("".to_string())));
}

#[test]
fn path_without_a_record_is_refused() {
    let asked = config("err", &["a.txt", "b.txt"]);
    assert_eq!(asked.validate(&[true]), Err(AppError::InvalidFile("b.txt".to_string())));
    assert_eq!(asked.validate(&[]), Err(AppError::InvalidFile("a.txt".to_string())));
}

#[test]
fn flags_select_the_switches() {
    let mut asked = config("err", &[]);
    assert_eq!(
        asked.get_arguments(),
        Arguments {
            case: CaseMode::Sensitive,
            invert: MatchMode::Default,
            count: OutputMode::Default
        }
    );
    asked.ignore_case = true;
    assert_eq!(
        asked.get_arguments(),
        Arguments {
            case: CaseMode::Insensitive,
            invert: MatchMode::Default,
            count: OutputMode::Default
        }
    );
    asked.invert = true;
    assert_eq!(
        asked.get_arguments(),
        Arguments {
            case: CaseMode::Insensitive,
            invert: MatchMode::Invert,
            count: OutputMode::Default
        }
    );
    asked.count = true;
    assert_eq!(
        asked.get_arguments(),
        Arguments { case: CaseMode::Insensitive, invert: MatchMode::Invert, count: OutputMode::Count }
    );
    asked.ignore_case = false;
    asked.invert = false;
    assert_eq!(
        asked.get_arguments(),
        Arguments { case: CaseMode::Sensitive, invert: MatchMode::Default, count: OutputMode::Count }
    );
}

#[test]
fn pattern_and_paths_are_handed_back_as_given() {
    let asked = config(" Err ", &["b.txt", "-", "a.txt"]);
    assert_eq!(asked.get_pattern(), " Err ");
    assert_eq!(
        asked.get_paths(),
        &vec!["b.txt".to_string(), "-".to_string(), "a.txt".to_string()]
    );
}
