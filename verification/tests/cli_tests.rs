use gemini_bot::cli::parse_cli;

fn args(list: &[&str]) -> Vec<String> {
    list.iter().map(|a| a.to_string()).collect()
}

#[test]
fn short_flag_names_the_config() {
    let cli = parse_cli(&args(&["-c", "bot.toml"])).unwrap();
    assert_eq!(cli.config, "bot.toml");
}

#[test]
fn long_flag_names_the_config() {
    let cli = parse_cli(&args(&["--config", "/etc/bot.toml"])).unwrap();
    assert_eq!(cli.config, "/etc/bot.toml");
}

#[test]
fn the_first_flag_wins() {
    let cli = parse_cli(&args(&["ignored", "-c", "a.toml", "--config", "b.toml"])).unwrap();
    assert_eq!(cli.config, "a.toml");
}

#[test]
fn missing_flag_is_an_error() {
    assert!(parse_cli(&args(&[])).is_none());
    assert!(parse_cli(&args(&["bot.toml"])).is_none());
}

#[test]
fn flag_without_a_value_is_an_error() {
    assert!(parse_cli(&args(&["-c"])).is_none());
}
